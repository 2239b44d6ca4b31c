use crypto_box::aead::Aead;
use vaultpipe::keepassxc::action::{Action, TestAssociation};
use vaultpipe::keepassxc::client::{Client, Reply};
use vaultpipe::keepassxc::reply::{parse_response, read_response, Response};
use vaultpipe::keepassxc::crypto::{public_key_from_bytes, public_key_of};
use vaultpipe::keepassxc::encoding::{base64_decode_bytes, base64_encode_checked, base64_encode_key};
use vaultpipe::keepassxc::error::ProtocolError;

fn hex(s: &str) -> Vec<u8> {
    (0..s.len()).step_by(2).map(|i| u8::from_str_radix(&s[i..i + 2], 16).unwrap()).collect()
}

fn key(s: &str) -> [u8; 32] {
    hex(s).try_into().unwrap()
}

fn empty_response() -> Response {
    Response { error: None, success: None, public_key: None, nonce: None, message: None, id: None }
}

const CLIENT_SECRET: [u8; 32] = [7u8; 32];
const SERVER_SECRET: [u8; 32] = [9u8; 32];

fn shaken_client() -> Client {
    let mut client = Client::new([1u8; 32], Some("ident".to_owned()));
    client.begin_handshake(&CLIENT_SECRET);
    let mut res = empty_response();
    res.success = Some("true".to_owned());
    res.public_key = Some(base64_encode_key(&public_key_of(&SERVER_SECRET)));
    client.complete_handshake(&CLIENT_SECRET, &res).unwrap();
    client
}

fn server_box() -> crypto_box::SalsaBox {
    crypto_box::SalsaBox::new(
        &crypto_box::PublicKey::from_bytes(public_key_of(&CLIENT_SECRET)),
        &crypto_box::SecretKey::from_bytes(SERVER_SECRET),
    )
}

#[test]
fn x25519_public_key_vector() {
    let secret = key("77076d0a7318a57d3c16c17251b26645df4c2f87ebc0992ab177fba51db92c2a");
    let public = key("8520f0098930a754748b7ddcb43ef75a0dbf3a0d26381af4eba4a98eaa9b4e6a");
    assert_eq!(public_key_of(&secret), public);
}

#[test]
fn public_key_needs_32_bytes() {
    assert_eq!(public_key_from_bytes(&[3u8; 32]).unwrap(), [3u8; 32]);
    assert_eq!(public_key_from_bytes(&[3u8; 31]), Err(ProtocolError::InvalidKey));
    assert_eq!(public_key_from_bytes(&[3u8; 33]), Err(ProtocolError::InvalidKey));
}

#[test]
fn new_client_has_no_session() {
    let client = Client::new([2u8; 32], None);
    assert_eq!(client.client_id, "foo");
    assert!(client.public_key.is_none());
    assert!(client.peer_public_key.is_none());
    assert!(client.session.is_none());
    assert_eq!(client.id_public_key, [2u8; 32]);
    assert!(client.identity.is_none());
}

#[test]
fn handshake_offers_session_key() {
    let mut client = Client::new([1u8; 32], None);
    let action = client.begin_handshake(&CLIENT_SECRET);
    let pk = public_key_of(&CLIENT_SECRET);
    assert_eq!(client.public_key, Some(pk));
    assert_eq!(action.public_key, base64_encode_key(&pk));
    let m = client.request_message(&action, &[5u8; 24]).unwrap();
    assert_eq!(m.action, "change-public-keys");
    assert_eq!(m.message, None);
    assert_eq!(m.public_key, Some(action.public_key.clone()));
    assert_eq!(m.nonce, base64_encode_checked(&[5u8; 24]).unwrap());
    assert_eq!(m.client_id, "foo");
    assert_eq!(m.request_id, None);
}

#[test]
fn handshake_opens_session_with_peer_key() {
    let client = shaken_client();
    let peer = public_key_of(&SERVER_SECRET);
    assert_eq!(client.peer_public_key, Some(peer));
    let keys = client.session.as_ref().unwrap();
    assert_eq!(keys.peer_public_key, peer);
    assert_eq!(keys.secret_key, CLIENT_SECRET);
}

#[test]
fn handshake_refusals() {
    let mut client = Client::new([1u8; 32], None);
    client.begin_handshake(&CLIENT_SECRET);

    let mut res = empty_response();
    res.success = Some("false".to_owned());
    res.public_key = Some(base64_encode_key(&[4u8; 32]));
    assert_eq!(client.complete_handshake(&CLIENT_SECRET, &res), Err(ProtocolError::InvalidResponse));
    assert_eq!(
        client.complete_handshake(&CLIENT_SECRET, &empty_response()),
        Err(ProtocolError::InvalidResponse)
    );

    res.success = Some("true".to_owned());
    res.public_key = Some("not base64!".to_owned());
    assert_eq!(client.complete_handshake(&CLIENT_SECRET, &res), Err(ProtocolError::InvalidBase64));

    res.public_key = Some(base64_encode_checked(&[4u8; 31]).unwrap());
    assert_eq!(client.complete_handshake(&CLIENT_SECRET, &res), Err(ProtocolError::InvalidKey));
    assert!(client.session.is_none());
    assert!(client.peer_public_key.is_none());
}

#[test]
fn sealed_request_opens_for_keepassxc() {
    let client = shaken_client();
    let action = client.test_association_request().unwrap();
    let nonce = [3u8; 24];
    let m = client.request_message(&action, &nonce).unwrap();
    assert_eq!(m.action, "test-associate");
    assert!(m.public_key.is_none());
    let sealed = base64_decode_bytes(m.message.as_ref().unwrap()).unwrap();
    let opened = server_box()
        .decrypt(crypto_box::Nonce::from_slice(&nonce), sealed.as_slice())
        .unwrap();
    assert_eq!(opened, action.payload().unwrap().into_bytes());
}

#[test]
fn sealed_reply_is_opened() {
    let client = shaken_client();
    let nonce = [8u8; 24];
    let reply = br#"{"success":"true","id":"ident"}"#;
    let sealed = server_box().encrypt(crypto_box::Nonce::from_slice(&nonce), &reply[..]).unwrap();
    let mut res = empty_response();
    res.nonce = Some(base64_encode_checked(&nonce).unwrap());
    res.message = Some(base64_encode_checked(&sealed).unwrap());
    match client.receive(true, &res).unwrap() {
        Reply::Opened(answer) => {
            assert_eq!(answer.success, Some("true".to_owned()));
            assert_eq!(answer.id, Some("ident".to_owned()));
            assert_eq!(answer.error, None);
        }
        Reply::Plain => panic!("expected an opened reply"),
    }
    assert!(matches!(client.receive(false, &res), Ok(Reply::Plain)));
}

#[test]
fn reply_errors() {
    let client = shaken_client();
    let mut res = empty_response();
    res.error = Some("\"Database not opened\"".to_owned());
    assert_eq!(
        client.receive(true, &res).err(),
        Some(ProtocolError::Remote("\"Database not opened\"".to_owned()))
    );

    let mut res = empty_response();
    res.nonce = Some(base64_encode_checked(&[1u8; 23]).unwrap());
    res.message = Some(base64_encode_checked(&[0u8; 20]).unwrap());
    assert_eq!(client.decrypt_message(&res).err(), Some(ProtocolError::InvalidNonce));

    res.nonce = Some(base64_encode_checked(&[1u8; 24]).unwrap());
    assert_eq!(client.decrypt_message(&res).err(), Some(ProtocolError::Decryption));

    res.message = Some("%%%".to_owned());
    assert_eq!(client.decrypt_message(&res).err(), Some(ProtocolError::InvalidBase64));
}

#[test]
fn association_sets_identity() {
    let mut client = shaken_client();
    let action = client.associate_request(&[6u8; 32]);
    assert_eq!(action.action, "associate");
    assert_eq!(action.key, base64_encode_key(&public_key_of(&CLIENT_SECRET)));
    assert_eq!(action.id_key, base64_encode_key(&public_key_of(&[6u8; 32])));
    let mut res = empty_response();
    res.id = Some("new-id".to_owned());
    assert_eq!(client.complete_association(&res), "new-id");
    assert_eq!(client.identity, Some("new-id".to_owned()));
}

#[test]
fn requests_need_identity() {
    let client = Client::new([1u8; 32], None);
    assert_eq!(client.get_logins_request("u".to_owned()).err(), Some(ProtocolError::NoIdentity));
    assert_eq!(client.test_association_request().err(), Some(ProtocolError::NoIdentity));

    let client = Client::new([1u8; 32], Some("me".to_owned()));
    let g = client.get_logins_request("vp://test".to_owned()).unwrap();
    assert_eq!(g.url, "vp://test");
    assert_eq!(g.keys.len(), 1);
    assert_eq!(g.keys[0].id, "me");
    assert_eq!(g.keys[0].key, base64_encode_key(&[1u8; 32]));
    let t = client.test_association_request().unwrap();
    assert_eq!(t.id, "me");
    assert_eq!(t.key, base64_encode_key(&[1u8; 32]));
}

#[test]
fn test_association_action_is_sealed() {
    let t = TestAssociation::new("a".to_owned(), "b".to_owned());
    assert!(t.needs_encryption());
}

fn sealed_reply(client_nonce: [u8; 24], plaintext: &[u8]) -> Response {
    let sealed = server_box().encrypt(crypto_box::Nonce::from_slice(&client_nonce), plaintext).unwrap();
    let mut res = empty_response();
    res.nonce = Some(base64_encode_checked(&client_nonce).unwrap());
    res.message = Some(base64_encode_checked(&sealed).unwrap());
    res
}

#[test]
fn opened_reply_must_be_json() {
    let client = shaken_client();
    let res = sealed_reply([2u8; 24], b"not json");
    assert_eq!(client.decrypt_message(&res).err(), Some(ProtocolError::InvalidJson));
    let res = sealed_reply([2u8; 24], &[0xff, 0xfe]);
    assert_eq!(client.decrypt_message(&res).err(), Some(ProtocolError::InvalidUtf8));
}

#[test]
fn reply_read_from_buffer() {
    let mut buf = [0u8; 64];
    let text = br#"{"action":"change-public-keys","publicKey":"QUJD","nonce":"bm9uY2U=","success":"true"}"#;
    let mut big = vec![0u8; 4096];
    big[..text.len()].copy_from_slice(text);
    let res = read_response(&big).unwrap();
    assert_eq!(res.success, Some("true".to_owned()));
    assert_eq!(res.public_key, Some("QUJD".to_owned()));
    assert_eq!(res.nonce, Some("bm9uY2U=".to_owned()));
    assert_eq!(res.message, None);
    assert_eq!(res.id, None);
    assert_eq!(res.error, None);
    buf[..2].copy_from_slice(b"{}");
    assert!(read_response(&buf).is_ok());
    assert_eq!(read_response(&[0u8; 8]).err(), Some(ProtocolError::InvalidJson));
    assert_eq!(read_response(&[0xc3, 0x28, 0, 0]).err(), Some(ProtocolError::InvalidUtf8));
}

#[test]
fn reply_members_that_are_not_strings() {
    let res = parse_response(r#"{"error":{"code":3},"success":true,"id":7}"#).unwrap();
    assert_eq!(res.error, Some(r#"{"code":3}"#.to_owned()));
    assert_eq!(res.success, None);
    assert_eq!(res.id, None);
    let res = parse_response(r#"{"error":"Database locked"}"#).unwrap();
    assert_eq!(res.error, Some("\"Database locked\"".to_owned()));
    let res = parse_response("[1, 2]").unwrap();
    assert_eq!(res.error, None);
    assert_eq!(res.success, None);
    assert_eq!(parse_response("{} x").err(), Some(ProtocolError::InvalidJson));
}

fn client_box() -> crypto_box::SalsaBox {
    crypto_box::SalsaBox::new(
        &crypto_box::PublicKey::from_bytes(public_key_of(&SERVER_SECRET)),
        &crypto_box::SecretKey::from_bytes(CLIENT_SECRET),
    )
}

#[test]
fn own_seal_opens_with_own_box() {
    let client = shaken_client();
    let action = client.test_association_request().unwrap();
    let nonce = [4u8; 24];
    let m = client.request_message(&action, &nonce).unwrap();
    let sealed = base64_decode_bytes(m.message.as_ref().unwrap()).unwrap();
    let opened = client_box()
        .decrypt(crypto_box::Nonce::from_slice(&nonce), sealed.as_slice())
        .unwrap();
    assert_eq!(opened, action.payload().unwrap().into_bytes());

    let reply = br#"{"id":"again"}"#;
    let sealed = client_box().encrypt(crypto_box::Nonce::from_slice(&nonce), &reply[..]).unwrap();
    let mut res = empty_response();
    res.nonce = Some(base64_encode_checked(&nonce).unwrap());
    res.message = Some(base64_encode_checked(&sealed).unwrap());
    assert_eq!(client.decrypt_message(&res).unwrap().id, Some("again".to_owned()));
}
