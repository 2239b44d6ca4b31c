use vaultpipe::keepassxc::action::{Action, Associate, ChangePublicKey, GetLogins, Key, TestAssociation};
use vaultpipe::keepassxc::encoding::{base64_decode_bytes, base64_encode_checked, base64_encode_key, json_string};
use vaultpipe::keepassxc::message::{trim_nul, Message};

#[test]
fn associate_payload() {
    let a = Associate::new("K".to_owned(), "I".to_owned());
    assert_eq!(a.action, "associate");
    assert_eq!(a.action(), "associate");
    assert!(a.needs_encryption());
    assert_eq!(a.payload().unwrap(), r#"{"action":"associate","key":"K","idKey":"I"}"#);
}

#[test]
fn change_public_key_payload() {
    let c = ChangePublicKey { public_key: "pk".to_owned() };
    assert_eq!(c.action(), "change-public-keys");
    assert!(!c.needs_encryption());
    assert_eq!(c.payload().unwrap(), r#"{"publicKey":"pk"}"#);
}

#[test]
fn get_logins_payload() {
    let g = GetLogins::new("vp://test".to_owned(), "id1".to_owned(), "key1".to_owned());
    assert_eq!(g.action, "get-logins");
    assert_eq!(g.action(), "get-logins");
    assert!(g.needs_encryption());
    assert_eq!(
        g.payload().unwrap(),
        r#"{"action":"get-logins","url":"vp://test","keys":[{"id":"id1","key":"key1"}]}"#
    );
}

#[test]
fn get_logins_payload_with_several_or_no_keys() {
    let mut g = GetLogins::new("u".to_owned(), "a".to_owned(), "b".to_owned());
    g.keys.push(Key { id: "c".to_owned(), key: "d".to_owned() });
    assert_eq!(
        g.payload().unwrap(),
        r#"{"action":"get-logins","url":"u","keys":[{"id":"a","key":"b"},{"id":"c","key":"d"}]}"#
    );
    g.keys.clear();
    assert_eq!(g.payload().unwrap(), r#"{"action":"get-logins","url":"u","keys":[]}"#);
}

#[test]
fn test_association_payload() {
    let t = TestAssociation::new("me".to_owned(), "k".to_owned());
    assert_eq!(t.action, "test-associate");
    assert_eq!(t.action(), "test-associate");
    assert!(t.needs_encryption());
    assert_eq!(t.payload().unwrap(), r#"{"action":"test-associate","id":"me","key":"k"}"#);
}

#[test]
fn payload_strings_are_escaped() {
    let a = Associate::new("a\"b\\c\n".to_owned(), "ü".to_owned());
    assert_eq!(a.payload().unwrap(), "{\"action\":\"associate\",\"key\":\"a\\\"b\\\\c\\n\",\"idKey\":\"ü\"}");
    assert_eq!(json_string("\u{1}"), "\"\\u0001\"");
}

#[test]
fn message_json_leaves_out_missing_fields() {
    let m = Message {
        action: "change-public-keys".to_owned(),
        message: None,
        public_key: Some("PK".to_owned()),
        nonce: "N".to_owned(),
        client_id: "foo".to_owned(),
        request_id: None,
    };
    assert_eq!(
        m.json().unwrap(),
        r#"{"action":"change-public-keys","publicKey":"PK","nonce":"N","clientID":"foo"}"#
    );
}

#[test]
fn message_json_with_all_fields() {
    let m = Message {
        action: "a".to_owned(),
        message: Some("M".to_owned()),
        public_key: Some("P".to_owned()),
        nonce: "N".to_owned(),
        client_id: "C".to_owned(),
        request_id: Some("R".to_owned()),
    };
    assert_eq!(
        m.json().unwrap(),
        r#"{"action":"a","message":"M","publicKey":"P","nonce":"N","clientID":"C","request_id":"R"}"#
    );
}

#[test]
fn base64_encoding() {
    assert_eq!(base64_encode_checked(b"hello").unwrap(), "aGVsbG8=");
    assert_eq!(base64_encode_checked(b"").unwrap(), "");
    assert_eq!(base64_encode_key(&[0u8; 32]), "AAAAAAAAAAAAAAAAAAAAAAAAAAAAAAAAAAAAAAAAAAA=");
}

#[test]
fn base64_decoding() {
    assert_eq!(base64_decode_bytes("aGVsbG8=").unwrap(), b"hello".to_vec());
    assert_eq!(base64_decode_bytes("").unwrap(), Vec::<u8>::new());
    assert!(base64_decode_bytes("aGVsbG8").is_none());
    assert!(base64_decode_bytes("aGVsbG9=").is_none());
    assert!(base64_decode_bytes("a*==").is_none());
}

#[test]
fn base64_round_trip() {
    let bytes: Vec<u8> = (0u8..=255).collect();
    let text = base64_encode_checked(&bytes).unwrap();
    assert_eq!(base64_decode_bytes(&text).unwrap(), bytes);
}

#[test]
fn trim_nul_strips_both_ends() {
    assert_eq!(trim_nul(b"\0\0{\"a\":1}\0\0\0"), b"{\"a\":1}");
    assert_eq!(trim_nul(b"{}"), b"{}");
    assert_eq!(trim_nul(b"\0\0\0"), b"");
    assert_eq!(trim_nul(b""), b"");
    assert_eq!(trim_nul(b"a\0b"), b"a\0b");
}
