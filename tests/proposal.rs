use kv_server::chain::{ChainStore, LinkState};
use kv_server::crypto::{normalize_key, persona_from_request, persona_hex};
use kv_server::gate::{authorize, verdict_from_response, GateVerdict};
use kv_server::KvError;
use libsecp256k1::{Message, PublicKey, SecretKey};
use sha2::{Digest, Sha256};

fn keypair(seed: u8) -> (SecretKey, PublicKey) {
    let sk = SecretKey::parse(&[seed; 32]).unwrap();
    let pk = PublicKey::from_secret_key(&sk);
    (sk, pk)
}

fn compressed_hex(pk: &PublicKey) -> String {
    format!("0x{}", hex::encode(pk.serialize_compressed()))
}

fn sign(sk: &SecretKey, payload: &str) -> Vec<u8> {
    let digest = Sha256::digest(payload.as_bytes());
    let message = Message::parse_slice(&digest).unwrap();
    let (sig, _) = libsecp256k1::sign(&message, sk);
    sig.serialize().to_vec()
}

fn propose(
    store: &mut ChainStore,
    persona: &[u8],
    identity: &str,
    external_id: &str,
    verdict: GateVerdict,
) -> Result<kv_server::chain::Proposal, KvError> {
    store.propose(
        persona.to_vec(),
        "facebook".to_string(),
        identity.to_string(),
        r#"{"test":"abc"}"#.to_string(),
        external_id.to_string(),
        1_650_000_000,
        verdict,
    )
}

#[test]
fn test_success() {
    let (_, pk) = keypair(3);
    let persona = persona_from_request(Some(compressed_hex(&pk)), None).unwrap();
    let mut store = ChainStore::new();
    let resp = propose(&mut store, &persona, "alice", "id-1", GateVerdict::Allow).unwrap();
    assert!(resp.external_id.len() > 0);
    let payload = resp.sign_payload;
    assert!(payload.contains(&hex::encode(pk.serialize_compressed())));
    assert!(payload.contains(r#""test":"abc""#));
    assert!(payload.contains("facebook"));
    assert!(payload.contains("alice"));
    assert!(payload.contains(r#""previous":null"#));
}

#[test]
fn test_with_previous() {
    let (sk, pk) = keypair(4);
    let persona = persona_from_request(None, Some(compressed_hex(&pk))).unwrap();
    let mut store = ChainStore::new();
    let first = propose(&mut store, &persona, "alice", "id-1", GateVerdict::Allow).unwrap();
    let sig = sign(&sk, &first.sign_payload);
    store.commit(&"id-1".to_string(), sig.clone()).unwrap();
    let second = propose(&mut store, &persona, "alice", "id-2", GateVerdict::Allow).unwrap();
    let expected = format!(r#""previous":"{}""#, base64::encode(&sig));
    assert!(second.sign_payload.contains(&expected));
    assert_eq!(store.link(1).previous, Some(0));
}

#[test]
fn missing_key_is_rejected_first() {
    assert_eq!(persona_from_request(None, None), Err(KvError::MissingParameter));
}

#[test]
fn avatar_takes_priority_over_persona() {
    let (_, a) = keypair(5);
    let (_, p) = keypair(6);
    let chosen = persona_from_request(Some(compressed_hex(&p)), Some(compressed_hex(&a))).unwrap();
    assert_eq!(chosen, a.serialize_compressed().to_vec());
}

#[test]
fn uncompressed_key_is_normalized() {
    let (_, pk) = keypair(7);
    let full = hex::encode(pk.serialize());
    let key = normalize_key(&full).unwrap();
    assert_eq!(key.len(), 33);
    assert_eq!(key, pk.serialize_compressed().to_vec());
    assert_eq!(persona_hex(&key), compressed_hex(&pk));
}

#[test]
fn malformed_keys_are_invalid() {
    assert_eq!(normalize_key("0xzz"), Err(KvError::InvalidKey));
    assert_eq!(normalize_key("abc"), Err(KvError::InvalidKey));
    assert_eq!(normalize_key(&"00".repeat(33)), Err(KvError::InvalidKey));
    assert_eq!(normalize_key(""), Err(KvError::InvalidKey));
}

#[test]
fn persona_hex_is_prefixed_lower_case() {
    assert_eq!(persona_hex(&[0x02, 0xAB, 0x0f]), "0x02ab0f");
}

#[test]
fn denied_proposal_changes_nothing() {
    let (_, pk) = keypair(8);
    let persona = pk.serialize_compressed().to_vec();
    let mut store = ChainStore::new();
    let r = propose(&mut store, &persona, "alice", "id-1", GateVerdict::Deny);
    assert!(matches!(r, Err(KvError::NotAuthorized)));
    assert_eq!(store.len(), 0);
    assert_eq!(store.head(&persona), None);
}

#[test]
fn unavailable_gate_is_retryable_error() {
    let (_, pk) = keypair(9);
    let persona = pk.serialize_compressed().to_vec();
    let mut store = ChainStore::new();
    let r = propose(&mut store, &persona, "alice", "id-1", GateVerdict::Unavailable);
    assert!(matches!(r, Err(KvError::UpstreamUnavailable)));
    assert_eq!(store.len(), 0);
}

#[test]
fn gate_verdicts() {
    assert_eq!(verdict_from_response(None), GateVerdict::Unavailable);
    assert_eq!(verdict_from_response(Some(true)), GateVerdict::Allow);
    assert_eq!(verdict_from_response(Some(false)), GateVerdict::Deny);
    assert_eq!(authorize(GateVerdict::Allow), Ok(()));
    assert_eq!(authorize(GateVerdict::Deny), Err(KvError::NotAuthorized));
    assert_eq!(authorize(GateVerdict::Unavailable), Err(KvError::UpstreamUnavailable));
}

#[test]
fn racing_proposals_one_commits_other_conflicts() {
    let (sk, pk) = keypair(10);
    let persona = pk.serialize_compressed().to_vec();
    let mut store = ChainStore::new();
    let a = propose(&mut store, &persona, "alice", "a", GateVerdict::Allow).unwrap();
    let b = propose(&mut store, &persona, "alice", "b", GateVerdict::Allow).unwrap();
    store.commit(&"a".to_string(), sign(&sk, &a.sign_payload)).unwrap();
    assert_eq!(store.head(&persona), Some(0));
    let r = store.commit(&"b".to_string(), sign(&sk, &b.sign_payload));
    assert_eq!(r, Err(KvError::Conflict));
    assert_eq!(store.link(1).state, LinkState::Proposed);
    assert_eq!(store.head(&persona), Some(0));
}

#[test]
fn commit_rejects_bad_signature_and_unknown_id() {
    let (_, pk) = keypair(11);
    let (other, _) = keypair(12);
    let persona = pk.serialize_compressed().to_vec();
    let mut store = ChainStore::new();
    let a = propose(&mut store, &persona, "alice", "a", GateVerdict::Allow).unwrap();
    assert_eq!(
        store.commit(&"a".to_string(), sign(&other, &a.sign_payload)),
        Err(KvError::SignatureInvalid)
    );
    assert_eq!(store.commit(&"a".to_string(), vec![1]), Err(KvError::SignatureInvalid));
    assert_eq!(store.commit(&"zzz".to_string(), vec![1]), Err(KvError::NotFound));
    assert_eq!(store.head(&persona), None);
}

#[test]
fn committed_link_is_not_found_again() {
    let (sk, pk) = keypair(13);
    let persona = pk.serialize_compressed().to_vec();
    let mut store = ChainStore::new();
    let a = propose(&mut store, &persona, "alice", "a", GateVerdict::Allow).unwrap();
    let sig = sign(&sk, &a.sign_payload);
    store.commit(&"a".to_string(), sig.clone()).unwrap();
    assert_eq!(store.commit(&"a".to_string(), sig.clone()), Err(KvError::NotFound));
    let l = store.link(0);
    assert_eq!(l.state, LinkState::Committed);
    assert_eq!(l.signature, sig);
    assert_eq!(l.signature_payload, a.sign_payload);
}

#[test]
fn chain_of_three_links_stays_linear() {
    let (sk, pk) = keypair(14);
    let (sk2, pk2) = keypair(15);
    let persona = pk.serialize_compressed().to_vec();
    let persona2 = pk2.serialize_compressed().to_vec();
    let mut store = ChainStore::new();
    for (n, id) in ["x1", "x2", "x3"].iter().enumerate() {
        let p = propose(&mut store, &persona, "alice", id, GateVerdict::Allow).unwrap();
        let q = propose(&mut store, &persona2, "bob", &format!("{}-other", id), GateVerdict::Allow)
            .unwrap();
        store.commit(&id.to_string(), sign(&sk, &p.sign_payload)).unwrap();
        store.commit(&format!("{}-other", id), sign(&sk2, &q.sign_payload)).unwrap();
        assert_eq!(store.head(&persona), Some((4 * n) as u64 / 2));
    }
    assert_eq!(store.link(0).previous, None);
    assert_eq!(store.link(2).previous, Some(0));
    assert_eq!(store.link(4).previous, Some(2));
    assert_eq!(store.link(1).previous, None);
    assert_eq!(store.link(3).previous, Some(1));
    assert_eq!(store.link(5).previous, Some(3));
}

#[test]
fn committed_link_reverifies() {
    let (sk, pk) = keypair(16);
    let persona = pk.serialize_compressed().to_vec();
    let mut store = ChainStore::new();
    let a = propose(&mut store, &persona, "alice", "a", GateVerdict::Allow).unwrap();
    store.commit(&"a".to_string(), sign(&sk, &a.sign_payload)).unwrap();
    let b = propose(&mut store, &persona, "carol", "b", GateVerdict::Allow).unwrap();
    store.commit(&"b".to_string(), sign(&sk, &b.sign_payload)).unwrap();
    let first_sig = store.link(0).signature.clone();
    let l = store.link(1);
    let recomputed = kv_server::payload::build_payload(
        &l.persona,
        &l.platform,
        &l.identity,
        &l.patch,
        Some(&first_sig[..]),
        &l.external_id,
        l.created_at,
    );
    assert_eq!(recomputed, l.signature_payload);
    let digest = Sha256::digest(recomputed.as_bytes());
    let message = Message::parse_slice(&digest).unwrap();
    let sig = libsecp256k1::Signature::parse_standard_slice(&l.signature).unwrap();
    assert!(libsecp256k1::verify(&message, &sig, &pk));
}
