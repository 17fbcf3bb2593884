use kv_server::chain::{transition, ChainStore, LinkEvent, LinkState};
use kv_server::gate::{gate_request_body, GateVerdict};
use kv_server::KvError;

#[test]
fn transitions_only_leave_proposed() {
    assert_eq!(
        transition(LinkState::Proposed, LinkEvent::SignatureVerified),
        Some(LinkState::Committed)
    );
    assert_eq!(transition(LinkState::Proposed, LinkEvent::Abandoned), Some(LinkState::Expired));
    assert_eq!(transition(LinkState::Committed, LinkEvent::Abandoned), None);
    assert_eq!(transition(LinkState::Expired, LinkEvent::SignatureVerified), None);
}

#[test]
fn expired_proposal_cannot_commit() {
    let persona = vec![2u8; 33];
    let mut store = ChainStore::new();
    store
        .propose(
            persona.clone(),
            "facebook".to_string(),
            "alice".to_string(),
            "{}".to_string(),
            "e1".to_string(),
            10,
            GateVerdict::Allow,
        )
        .unwrap();
    assert_eq!(store.expire(&"e1".to_string()), Ok(()));
    assert_eq!(store.link(0).state, LinkState::Expired);
    assert_eq!(store.expire(&"e1".to_string()), Err(KvError::NotFound));
    assert_eq!(store.commit(&"e1".to_string(), vec![1]), Err(KvError::NotFound));
    assert_eq!(store.head(&persona), None);
}

#[test]
fn gate_request_body_layout() {
    assert_eq!(
        gate_request_body(&[0x03, 0x10], "twitter", "a\"b"),
        r#"{"persona":"0x0310","platform":"twitter","identity":"a\"b"}"#
    );
}
