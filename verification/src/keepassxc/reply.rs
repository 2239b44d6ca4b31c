//! Reading KeePassXC's replies: JSON objects, of which the client reads a
//! few members.

use vstd::prelude::*;
use vstd::utf8::{decode_utf8, valid_utf8};
use crate::keepassxc::error::ProtocolError;
use crate::keepassxc::message::{nul_trimmed, trim_nul};

verus! {

/// The text is one JSON value, with nothing but whitespace around it.
pub uninterp spec fn spec_json_parses(text: Seq<char>) -> bool;

/// The member `key` of the JSON value in `text`, where that value is an
/// object with such a member and the member is a string: the string.
pub uninterp spec fn spec_json_member_str(text: Seq<char>, key: Seq<char>) -> Option<Seq<char>>;

/// The member `key` of the JSON value in `text`, where that value is an
/// object with such a member: the member written as compact JSON.
pub uninterp spec fn spec_json_member_text(text: Seq<char>, key: Seq<char>) -> Option<Seq<char>>;

#[verifier::external_type_specification]
#[verifier::external_body]
pub struct ExUtf8Error(core::str::Utf8Error);

/// `std::str::from_utf8`: the text of the bytes where they are valid UTF-8.
#[verifier::external_body]
fn utf8_text(bytes: &[u8]) -> (r: Result<&str, core::str::Utf8Error>)
    ensures
        r is Ok <==> valid_utf8(bytes@),
        r is Ok ==> r->Ok_0@ == decode_utf8(bytes@),
{
    std::str::from_utf8(bytes)
}

/// `serde_json::from_str::<serde_json::Value>` of `text`, then
/// `value[key].as_str()`: an error where the text is not JSON, else the
/// member's string, if the value is an object with a string member `key`.
#[verifier::external_body]
fn json_member_str(text: &str, key: &str) -> (r: Result<Option<String>, serde_json::Error>)
    ensures
        r is Ok <==> spec_json_parses(text@),
        r is Ok ==> opt_text(r->Ok_0) == spec_json_member_str(text@, key@),
{
    let value: serde_json::Value = serde_json::from_str(text)?;
    match value[key].as_str() {
        Some(s) => Ok(Some(s.to_owned())),
        None => Ok(None),
    }
}

/// `serde_json::from_str::<serde_json::Value>` of `text`, then
/// `value.get(key)` written with `to_string`: an error where the text is not
/// JSON, else the member's JSON text, if the value is an object with a member
/// `key`.
#[verifier::external_body]
fn json_member_text(text: &str, key: &str) -> (r: Result<Option<String>, serde_json::Error>)
    ensures
        r is Ok <==> spec_json_parses(text@),
        r is Ok ==> opt_text(r->Ok_0) == spec_json_member_text(text@, key@),
{
    let value: serde_json::Value = serde_json::from_str(text)?;
    match value.get(key) {
        Some(member) => Ok(Some(member.to_string())),
        None => Ok(None),
    }
}

/// The text of an optional string.
pub open spec fn opt_text(s: Option<String>) -> Option<Seq<char>> {
    match s {
        Some(t) => Some(t@),
        None => None,
    }
}

/// What the client reads from a reply. Each field holds the reply's member of
/// that name where it is a JSON string; `error` holds the JSON text of the
/// `error` member, whatever its type.
pub struct Response {
    pub error: Option<String>,
    pub success: Option<String>,
    pub public_key: Option<String>,
    pub nonce: Option<String>,
    pub message: Option<String>,
    pub id: Option<String>,
}

/// `res` holds what the client reads from the JSON text `text`.
pub open spec fn reads(res: Response, text: Seq<char>) -> bool {
    &&& opt_text(res.error) == spec_json_member_text(text, "error"@)
    &&& opt_text(res.success) == spec_json_member_str(text, "success"@)
    &&& opt_text(res.public_key) == spec_json_member_str(text, "publicKey"@)
    &&& opt_text(res.nonce) == spec_json_member_str(text, "nonce"@)
    &&& opt_text(res.message) == spec_json_member_str(text, "message"@)
    &&& opt_text(res.id) == spec_json_member_str(text, "id"@)
}

/// Reading a reply picks out each member by its own name: the string members
/// `success`, `publicKey`, `nonce`, `message` and `id` as the content of the
/// JSON string they hold, and `error` as its JSON text.
pub proof fn lemma_reads_members(res: Response, text: Seq<char>)
    requires
        reads(res, text),
    ensures
        opt_text(res.success) == spec_json_member_str(text, "success"@),
        opt_text(res.public_key) == spec_json_member_str(text, "publicKey"@),
        opt_text(res.nonce) == spec_json_member_str(text, "nonce"@),
        opt_text(res.message) == spec_json_member_str(text, "message"@),
        opt_text(res.id) == spec_json_member_str(text, "id"@),
        opt_text(res.error) == spec_json_member_text(text, "error"@),
{
}

/// `r` is what reading the reply bytes `bytes` gives: an error where they are
/// not UTF-8 or not JSON, else the members the client reads.
pub open spec fn read_from(bytes: Seq<u8>, r: Result<Response, ProtocolError>) -> bool {
    if !valid_utf8(bytes) {
        r == Err::<Response, ProtocolError>(ProtocolError::InvalidUtf8)
    } else if !spec_json_parses(decode_utf8(bytes)) {
        r == Err::<Response, ProtocolError>(ProtocolError::InvalidJson)
    } else {
        r matches Ok(res) && reads(res, decode_utf8(bytes))
    }
}

/// Reads one string member of a JSON text that parses.
fn member_str(text: &str, key: &str) -> (r: Option<String>)
    requires
        spec_json_parses(text@),
    ensures
        opt_text(r) == spec_json_member_str(text@, key@),
{
    match json_member_str(text, key) {
        Ok(m) => m,
        Err(_) => None,
    }
}

/// Reads the members the client needs from a JSON text.
pub fn parse_response(text: &str) -> (r: Result<Response, ProtocolError>)
    ensures
        spec_json_parses(text@) ==> (r matches Ok(res) && reads(res, text@)),
        r matches Ok(res) ==> opt_text(res.message) == spec_json_member_str(text@, "message"@)
            && opt_text(res.nonce) == spec_json_member_str(text@, "nonce"@)
            && opt_text(res.success) == spec_json_member_str(text@, "success"@)
            && opt_text(res.public_key) == spec_json_member_str(text@, "publicKey"@)
            && opt_text(res.id) == spec_json_member_str(text@, "id"@)
            && opt_text(res.error) == spec_json_member_text(text@, "error"@),
        !spec_json_parses(text@) ==> r == Err::<Response, ProtocolError>(ProtocolError::InvalidJson),
{
    let error = match json_member_text(text, "error") {
        Ok(m) => m,
        Err(_) => {
            return Err(ProtocolError::InvalidJson);
        },
    };
    Ok(Response {
        error,
        success: member_str(text, "success"),
        public_key: member_str(text, "publicKey"),
        nonce: member_str(text, "nonce"),
        message: member_str(text, "message"),
        id: member_str(text, "id"),
    })
}

/// Reads the members the client needs from JSON text in UTF-8.
pub fn parse_response_bytes(bytes: &[u8]) -> (r: Result<Response, ProtocolError>)
    ensures
        read_from(bytes@, r),
{
    match utf8_text(bytes) {
        Ok(text) => parse_response(text),
        Err(_) => Err(ProtocolError::InvalidUtf8),
    }
}

/// Reads a reply as it arrived in a zeroed buffer: the JSON text between the
/// NUL bytes.
pub fn read_response(reply: &[u8]) -> (r: Result<Response, ProtocolError>)
    ensures
        read_from(nul_trimmed(reply@), r),
{
    parse_response_bytes(trim_nul(reply))
}

} // verus!
