//! Base64 and JSON string encoding, as the protocol uses them.

use vstd::prelude::*;
use base64::Engine;

verus! {

/// The character of the standard base64 alphabet for the 6-bit value `n`.
pub open spec fn base64_char(n: int) -> char {
    if n < 26 {
        ('A' as int + n) as char
    } else if n < 52 {
        ('a' as int + (n - 26)) as char
    } else if n < 62 {
        ('0' as int + (n - 52)) as char
    } else if n == 62 {
        '+'
    } else {
        '/'
    }
}

/// The standard, padded base64 encoding of `bytes` (RFC 4648, section 4):
/// each group of three bytes becomes four characters of six bits each, and a
/// last group of one or two bytes is filled up with `=`.
pub open spec fn spec_base64_encode(bytes: Seq<u8>) -> Seq<char>
    decreases bytes.len(),
{
    if bytes.len() == 0 {
        Seq::empty()
    } else if bytes.len() == 1 {
        let b0 = bytes[0] as int;
        seq![base64_char(b0 / 4), base64_char((b0 % 4) * 16), '=', '=']
    } else if bytes.len() == 2 {
        let b0 = bytes[0] as int;
        let b1 = bytes[1] as int;
        seq![
            base64_char(b0 / 4),
            base64_char((b0 % 4) * 16 + b1 / 16),
            base64_char((b1 % 16) * 4),
            '=',
        ]
    } else {
        let b0 = bytes[0] as int;
        let b1 = bytes[1] as int;
        let b2 = bytes[2] as int;
        seq![
            base64_char(b0 / 4),
            base64_char((b0 % 4) * 16 + b1 / 16),
            base64_char((b1 % 16) * 4 + b2 / 64),
            base64_char(b2 % 64),
        ] + spec_base64_encode(bytes.skip(3))
    }
}

/// The lowercase hexadecimal digit of `n`, for `0 <= n < 16`.
pub open spec fn hex_digit(n: int) -> char {
    if n < 10 {
        ('0' as int + n) as char
    } else {
        ('a' as int + (n - 10)) as char
    }
}

/// How serde_json writes the character `c` inside a JSON string: `"` and `\`
/// and the control characters escaped (the short escapes where JSON has one,
/// else `\u00` and two lowercase hex digits), every other character as is.
pub open spec fn json_escape(c: char) -> Seq<char> {
    if c == '"' {
        seq!['\\', '"']
    } else if c == '\\' {
        seq!['\\', '\\']
    } else if c == '\u{8}' {
        seq!['\\', 'b']
    } else if c == '\t' {
        seq!['\\', 't']
    } else if c == '\n' {
        seq!['\\', 'n']
    } else if c == '\u{c}' {
        seq!['\\', 'f']
    } else if c == '\r' {
        seq!['\\', 'r']
    } else if (c as int) < 0x20 {
        seq!['\\', 'u', '0', '0', hex_digit((c as int) / 16), hex_digit((c as int) % 16)]
    } else {
        seq![c]
    }
}

/// The characters of `text`, each written as serde_json writes it in a string.
pub open spec fn json_escaped(text: Seq<char>) -> Seq<char>
    decreases text.len(),
{
    if text.len() == 0 {
        Seq::empty()
    } else {
        json_escaped(text.drop_last()) + json_escape(text.last())
    }
}

/// The JSON string literal that serde_json writes for `text`: the escaped
/// text in double quotes.
pub open spec fn spec_json_string(text: Seq<char>) -> Seq<char> {
    seq!['"'] + json_escaped(text) + seq!['"']
}

/// Length of the padded base64 encoding of `n` bytes.
pub open spec fn base64_len(n: nat) -> nat {
    4 * ((n + 2) / 3)
}

/// `bytes` has a padded base64 encoding whose length fits in a `usize`.
pub open spec fn base64_fits(bytes: Seq<u8>) -> bool {
    base64_len(bytes.len()) <= usize::MAX
}

#[verifier::external_type_specification]
#[verifier::external_body]
pub struct ExDecodeError(base64::DecodeError);

#[verifier::external_type_specification]
#[verifier::external_body]
pub struct ExJsonError(serde_json::Error);

/// `base64::engine::general_purpose::STANDARD.encode`: the padded standard
/// encoding, `4 * ceil(n / 3)` characters long. It panics when that length
/// overflows a `usize`, which `requires` leaves out.
#[verifier::external_body]
pub(crate) fn base64_encode(bytes: &[u8]) -> (r: String)
    requires
        base64_fits(bytes@),
    ensures
        r@ == spec_base64_encode(bytes@),
        r@.len() == base64_len(bytes@.len() as nat),
{
    base64::engine::general_purpose::STANDARD.encode(bytes)
}

/// `base64::engine::general_purpose::STANDARD.decode`: with canonical padding
/// required and trailing bits refused, it accepts exactly the texts that are
/// the standard encoding of some bytes, and gives back those bytes.
#[verifier::external_body]
pub(crate) fn base64_decode(text: &str) -> (r: Result<Vec<u8>, base64::DecodeError>)
    ensures
        r is Ok ==> spec_base64_encode(r->Ok_0@) == text@,
        forall|b: Seq<u8>| #[trigger] spec_base64_encode(b) == text@ ==> (r is Ok && r->Ok_0@ == b),
{
    base64::engine::general_purpose::STANDARD.decode(text)
}

/// `serde_json::to_string` on a `str`: writing a string into a byte vector
/// cannot fail, so the result is always `Ok`, and it holds the JSON string
/// literal of `text`.
#[verifier::external_body]
fn serde_json_string(text: &str) -> (r: Result<String, serde_json::Error>)
    ensures
        r is Ok,
        r is Ok ==> r->Ok_0@ == spec_json_string(text@),
{
    serde_json::to_string(text)
}

/// The JSON string literal of `text`, as serde_json writes it.
pub fn json_string(text: &str) -> (r: String)
    ensures
        r@ == spec_json_string(text@),
{
    match serde_json_string(text) {
        Ok(s) => s,
        Err(_) => String::new(),
    }
}

/// The padded standard base64 encoding of `bytes`, or `None` where its length
/// would not fit in a `usize`.
pub fn base64_encode_checked(bytes: &[u8]) -> (r: Option<String>)
    ensures
        match r {
            Some(s) => base64_fits(bytes@) && s@ == spec_base64_encode(bytes@),
            None => !base64_fits(bytes@),
        },
{
    let n = bytes.len();
    let groups: usize = n / 3 + if n % 3 > 0 { 1 } else { 0 };
    assert(groups == (n + 2) / 3) by (nonlinear_arith)
        requires
            groups == n / 3 + if n % 3 > 0 { 1int } else { 0int },
    ;
    assert(4 * groups <= usize::MAX <==> groups <= usize::MAX / 4) by (nonlinear_arith);
    if groups <= usize::MAX / 4 {
        Some(base64_encode(bytes))
    } else {
        None
    }
}

/// The padded standard base64 encoding of a 32-byte key.
pub fn base64_encode_key(key: &[u8; 32]) -> (r: String)
    ensures
        r@ == spec_base64_encode(key@),
{
    base64_encode(key.as_slice())
}

/// The bytes whose padded standard base64 encoding is `text`, if there are any.
pub open spec fn base64_decoded(text: Seq<char>) -> Option<Seq<u8>> {
    if exists|b: Seq<u8>| spec_base64_encode(b) == text {
        Some(choose|b: Seq<u8>| spec_base64_encode(b) == text)
    } else {
        None
    }
}

/// Decoded bytes encode back to the text they were decoded from.
pub proof fn lemma_decoded_encodes(text: Seq<char>)
    requires
        base64_decoded(text) is Some,
    ensures
        spec_base64_encode(base64_decoded(text)->0) == text,
{
}

/// Decodes padded standard base64: the bytes whose encoding `text` is, or
/// `None` where `text` is not the encoding of any bytes.
pub fn base64_decode_bytes(text: &str) -> (r: Option<Vec<u8>>)
    ensures
        match r {
            Some(v) => base64_decoded(text@) == Some(v@),
            None => base64_decoded(text@) is None,
        },
        forall|b: Seq<u8>| #[trigger] spec_base64_encode(b) == text@ ==> (r matches Some(v) && v@ == b),
{
    match base64_decode(text) {
        Ok(v) => {
            proof {
                let b = choose|b: Seq<u8>| spec_base64_encode(b) == text@;
                assert(spec_base64_encode(v@) == text@);
                assert(v@ == b);
            }
            Some(v)
        },
        Err(_) => {
            proof {
                if exists|b: Seq<u8>| spec_base64_encode(b) == text@ {
                    let b = choose|b: Seq<u8>| spec_base64_encode(b) == text@;
                    assert(spec_base64_encode(b) == text@);
                }
            }
            None
        },
    }
}

} // verus!
