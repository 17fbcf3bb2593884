use kv_server::config::{from_aws_secret, ConfigCategory, ConfigDB, KVConfig};
use kv_server::payload::{assemble_payload, build_payload, previous_field};
use kv_server::KvError;

#[test]
fn previous_of_signature_one_is_its_base64() {
    assert_eq!(previous_field(Some(&[1u8][..])), "\"AQ==\"");
    assert_eq!(previous_field(None), "null");
    assert_eq!(previous_field(Some(&[1u8, 2, 3, 4][..])), "\"AQIDBA==\"");
}

#[test]
fn assembled_payload_has_fixed_layout() {
    let s = assemble_payload("0xab", "\"fb\"", "\"al\"", "{}", "null", "\"u\"", "7");
    assert_eq!(
        s,
        r#"{"persona":"0xab","platform":"fb","identity":"al","patch":{},"previous":null,"uuid":"u","created_at":7}"#
    );
}

#[test]
fn build_payload_exact() {
    let s = build_payload(&[0x02, 0xff], "facebook", "al\"ice", r#"{"test":"abc"}"#, Some(&[1u8][..]), "id-9", -5);
    assert_eq!(
        s,
        r#"{"persona":"0x02ff","platform":"facebook","identity":"al\"ice","patch":{"test":"abc"},"previous":"AQ==","uuid":"id-9","created_at":-5}"#
    );
}

#[test]
fn build_payload_is_deterministic() {
    let a = build_payload(&[3, 4], "twitter", "bob", "[1,2]", None, "e", 1_650_000_000);
    let b = build_payload(&[3, 4], "twitter", "bob", "[1,2]", None, "e", 1_650_000_000);
    assert_eq!(a, b);
    assert!(a.contains(r#""created_at":1650000000"#));
}

#[test]
fn database_url_layout() {
    let mut c = KVConfig::default();
    c.db = ConfigDB {
        host: "localhost".to_string(),
        port: 5432,
        username: "kv".to_string(),
        password: "pw".to_string(),
        db: "kv_dev".to_string(),
    };
    assert_eq!(c.database_url(), "postgres://kv:pw@localhost:5432/kv_dev");
}

#[test]
fn config_defaults_and_secret_source() {
    assert_eq!(ConfigCategory::default(), ConfigCategory::File);
    assert!(matches!(from_aws_secret(), Err(KvError::ConfigUnavailable)));
}
