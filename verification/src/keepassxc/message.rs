//! The envelope in which every request travels.

use vstd::prelude::*;
use crate::keepassxc::error::ProtocolError;
use crate::keepassxc::encoding::{json_escape, json_escaped};
use crate::keepassxc::json::{object, object_of, string_member, string_member_of, texts};

verus! {

/// A request as it goes over the socket. The optional fields are left out of
/// the JSON text when they are `None`.
#[derive(Debug)]
pub struct Message {
    pub action: String,
    pub message: Option<String>,
    pub public_key: Option<String>,
    pub nonce: String,
    pub client_id: String,
    pub request_id: Option<String>,
}

/// The member for an optional string field: none when the field is `None`.
pub open spec fn optional_member(key: Seq<char>, value: Option<String>) -> Seq<Seq<char>> {
    match value {
        Some(s) => seq![string_member(key, s@)],
        None => Seq::empty(),
    }
}

impl Message {
    /// The members of the message's JSON object, in field order.
    pub open spec fn members(&self) -> Seq<Seq<char>> {
        seq![string_member("action"@, self.action@)]
            + optional_member("message"@, self.message)
            + optional_member("publicKey"@, self.public_key)
            + seq![string_member("nonce"@, self.nonce@), string_member("clientID"@, self.client_id@)]
            + optional_member("request_id"@, self.request_id)
    }

    /// The message's JSON text.
    pub open spec fn spec_json(&self) -> Seq<char> {
        object(self.members())
    }

    /// Writes the message as compact JSON.
    pub fn json(&self) -> (r: Result<String, ProtocolError>)
        ensures
            r matches Ok(s) && s@ == self.spec_json(),
            self.message matches Some(v) ==> has_member(*self, "message"@, v@),
            self.message is None ==> !has_key(*self, "message"@),
            self.public_key matches Some(v) ==> has_member(*self, "publicKey"@, v@),
            self.public_key is None ==> !has_key(*self, "publicKey"@),
            self.request_id matches Some(v) ==> has_member(*self, "request_id"@, v@),
            self.request_id is None ==> !has_key(*self, "request_id"@),
    {
        proof {
            lemma_message_members(*self);
        }
        let mut members: Vec<String> = Vec::new();
        members.push(string_member_of("action", self.action.as_str()));
        proof {
            assert(texts(members@) =~= seq![string_member("action"@, self.action@)]);
        }
        let ghost expected = seq![string_member("action"@, self.action@)];
        Self::push_optional(&mut members, "message", &self.message);
        let ghost expected = expected + optional_member("message"@, self.message);
        Self::push_optional(&mut members, "publicKey", &self.public_key);
        let ghost expected = expected + optional_member("publicKey"@, self.public_key);
        let ghost before = members@;
        members.push(string_member_of("nonce", self.nonce.as_str()));
        members.push(string_member_of("clientID", self.client_id.as_str()));
        let ghost expected = expected + seq![
            string_member("nonce"@, self.nonce@),
            string_member("clientID"@, self.client_id@),
        ];
        proof {
            assert(texts(members@) =~= texts(before) + seq![
                string_member("nonce"@, self.nonce@),
                string_member("clientID"@, self.client_id@),
            ]);
        }
        Self::push_optional(&mut members, "request_id", &self.request_id);
        proof {
            assert(texts(members@) =~= self.members());
        }
        Ok(object_of(&members))
    }

    /// Appends the member for an optional string field, if it is present.
    fn push_optional(members: &mut Vec<String>, key: &str, value: &Option<String>)
        ensures
            texts(final(members)@) == texts(old(members)@) + optional_member(key@, *value),
    {
        let ghost before = members@;
        match value {
            Some(s) => {
                members.push(string_member_of(key, s.as_str()));
                proof {
                    assert(texts(members@) =~= texts(before) + optional_member(key@, *value));
                }
            },
            None => {
                proof {
                    assert(texts(members@) =~= texts(before) + optional_member(key@, *value));
                }
            },
        }
    }
}

/// The escaped text of a non-empty text starts with its first character,
/// where that character is written as is.
proof fn lemma_escaped_first(text: Seq<char>)
    requires
        text.len() > 0,
        json_escape(text[0]) == seq![text[0]],
    ensures
        json_escaped(text).len() > 0,
        json_escaped(text)[0] == text[0],
    decreases text.len(),
{
    if text.len() > 1 {
        assert(text.drop_last()[0] == text[0]);
        lemma_escaped_first(text.drop_last());
        assert(json_escaped(text) =~= json_escaped(text.drop_last()) + json_escape(text.last()));
    } else {
        assert(text.drop_last() =~= Seq::<char>::empty());
        assert(json_escaped(text.drop_last()) =~= Seq::<char>::empty());
        assert(text.last() == text[0]);
        assert(json_escaped(text) =~= json_escaped(text.drop_last()) + json_escape(text.last()));
    }
}

/// The second character of a string member is the first character of its
/// key, where that character is written as is.
proof fn lemma_member_key_char(key: Seq<char>, value: Seq<char>)
    requires
        key.len() > 0,
        json_escape(key[0]) == seq![key[0]],
    ensures
        string_member(key, value).len() > 1,
        string_member(key, value)[1] == key[0],
{
    lemma_escaped_first(key);
}

/// The keys of a message's members start with different letters.
proof fn lemma_member_keys()
    ensures
        "action"@[0] == 'a' && "message"@[0] == 'm' && "publicKey"@[0] == 'p' && "nonce"@[0] == 'n'
            && "clientID"@[0] == 'c' && "request_id"@[0] == 'r',
        forall|v: Seq<char>| #![trigger string_member("action"@, v)] string_member("action"@, v)[1] == 'a',
        forall|v: Seq<char>| #![trigger string_member("message"@, v)] string_member("message"@, v)[1] == 'm',
        forall|v: Seq<char>| #![trigger string_member("publicKey"@, v)] string_member("publicKey"@, v)[1] == 'p',
        forall|v: Seq<char>| #![trigger string_member("nonce"@, v)] string_member("nonce"@, v)[1] == 'n',
        forall|v: Seq<char>| #![trigger string_member("clientID"@, v)] string_member("clientID"@, v)[1] == 'c',
        forall|v: Seq<char>| #![trigger string_member("request_id"@, v)] string_member("request_id"@, v)[1] == 'r',
{
    reveal_strlit("action");
    reveal_strlit("message");
    reveal_strlit("publicKey");
    reveal_strlit("nonce");
    reveal_strlit("clientID");
    reveal_strlit("request_id");
    assert forall|v: Seq<char>| #![trigger string_member("action"@, v)] string_member("action"@, v)[1] == 'a' by {
        lemma_member_key_char("action"@, v);
    }
    assert forall|v: Seq<char>| #![trigger string_member("message"@, v)] string_member("message"@, v)[1] == 'm' by {
        lemma_member_key_char("message"@, v);
    }
    assert forall|v: Seq<char>| #![trigger string_member("publicKey"@, v)] string_member("publicKey"@, v)[1] == 'p' by {
        lemma_member_key_char("publicKey"@, v);
    }
    assert forall|v: Seq<char>| #![trigger string_member("nonce"@, v)] string_member("nonce"@, v)[1] == 'n' by {
        lemma_member_key_char("nonce"@, v);
    }
    assert forall|v: Seq<char>| #![trigger string_member("clientID"@, v)] string_member("clientID"@, v)[1] == 'c' by {
        lemma_member_key_char("clientID"@, v);
    }
    assert forall|v: Seq<char>| #![trigger string_member("request_id"@, v)] string_member("request_id"@, v)[1] == 'r' by {
        lemma_member_key_char("request_id"@, v);
    }
}

/// The message's JSON object has the member `key` with the string `value`.
pub open spec fn has_member(m: Message, key: Seq<char>, value: Seq<char>) -> bool {
    exists|i: int| 0 <= i < m.members().len() && m.members()[i] == string_member(key, value)
}

/// The message's JSON object has some member `key`.
pub open spec fn has_key(m: Message, key: Seq<char>) -> bool {
    exists|v: Seq<char>| has_member(m, key, v)
}

/// Each optional field of a message is written exactly when it is present,
/// whatever the other fields hold, and with its own value; the other fields
/// are always written.
pub proof fn lemma_message_members(m: Message)
    ensures
        m.spec_json() == object(m.members()),
        has_member(m, "action"@, m.action@),
        has_member(m, "nonce"@, m.nonce@),
        has_member(m, "clientID"@, m.client_id@),
        m.message matches Some(s) ==> has_member(m, "message"@, s@),
        m.message is None ==> !has_key(m, "message"@),
        m.public_key matches Some(s) ==> has_member(m, "publicKey"@, s@),
        m.public_key is None ==> !has_key(m, "publicKey"@),
        m.request_id matches Some(s) ==> has_member(m, "request_id"@, s@),
        m.request_id is None ==> !has_key(m, "request_id"@),
{
    lemma_member_keys();
    let ms = m.members();
    let a = seq![string_member("action"@, m.action@)];
    let b = optional_member("message"@, m.message);
    let c = optional_member("publicKey"@, m.public_key);
    let d = seq![string_member("nonce"@, m.nonce@), string_member("clientID"@, m.client_id@)];
    let e = optional_member("request_id"@, m.request_id);
    assert(ms == a + b + c + d + e);
    let ib = a.len() as int;
    let ic = ib + b.len();
    let id = ic + c.len();
    let ie = id + d.len();
    assert(ms[0] == string_member("action"@, m.action@));
    assert(ms[id] == string_member("nonce"@, m.nonce@));
    assert(ms[id + 1] == string_member("clientID"@, m.client_id@));
    if m.message is Some {
        assert(ms[ib] == string_member("message"@, m.message->0@));
    }
    if m.public_key is Some {
        assert(ms[ic] == string_member("publicKey"@, m.public_key->0@));
    }
    if m.request_id is Some {
        assert(ms[ie] == string_member("request_id"@, m.request_id->0@));
    }
    // A member's second character is its key's first, and every member's key
    // is one of the present fields.
    assert forall|i: int| 0 <= i < ms.len() implies
        (ms[i][1] == 'm' ==> m.message is Some)
        && (ms[i][1] == 'p' ==> m.public_key is Some)
        && (ms[i][1] == 'r' ==> m.request_id is Some) by {
        if i == 0 {
        } else if i < ic {
            assert(ms[i] == string_member("message"@, m.message->0@));
        } else if i < id {
            assert(ms[i] == string_member("publicKey"@, m.public_key->0@));
        } else if i < ie {
        } else {
            assert(ms[i] == string_member("request_id"@, m.request_id->0@));
        }
    }
    if m.message is None {
        assert forall|v: Seq<char>| !has_member(m, "message"@, v) by {
            if has_member(m, "message"@, v) {
                let i = choose|i: int| 0 <= i < ms.len() && ms[i] == string_member("message"@, v);
                assert(ms[i][1] == 'm');
            }
        }
    }
    if m.public_key is None {
        assert forall|v: Seq<char>| !has_member(m, "publicKey"@, v) by {
            if has_member(m, "publicKey"@, v) {
                let i = choose|i: int| 0 <= i < ms.len() && ms[i] == string_member("publicKey"@, v);
                assert(ms[i][1] == 'p');
            }
        }
    }
    if m.request_id is None {
        assert forall|v: Seq<char>| !has_member(m, "request_id"@, v) by {
            if has_member(m, "request_id"@, v) {
                let i = choose|i: int| 0 <= i < ms.len() && ms[i] == string_member("request_id"@, v);
                assert(ms[i][1] == 'r');
            }
        }
    }
}

/// `buf` with its leading and trailing NUL bytes removed is
/// `buf[start..end]`.
pub open spec fn nul_trimmed_at(buf: Seq<u8>, start: int, end: int) -> bool {
    &&& 0 <= start <= end <= buf.len()
    &&& forall|i: int| 0 <= i < start ==> buf[i] == 0
    &&& forall|i: int| end <= i < buf.len() ==> buf[i] == 0
    &&& start < end ==> buf[start] != 0 && buf[end - 1] != 0
}

/// `buf` without its leading and trailing NUL bytes.
pub open spec fn nul_trimmed(buf: Seq<u8>) -> Seq<u8> {
    let (start, end) = choose|start: int, end: int| nul_trimmed_at(buf, start, end);
    buf.subrange(start, end)
}

/// Any way of trimming the NUL bytes gives the same bytes.
pub proof fn lemma_nul_trimmed_unique(buf: Seq<u8>, start: int, end: int)
    requires
        nul_trimmed_at(buf, start, end),
    ensures
        nul_trimmed(buf) == buf.subrange(start, end),
{
    let (s, e) = choose|s: int, e: int| nul_trimmed_at(buf, s, e);
    if start < end {
        // Both ranges start at the first non-NUL byte and end after the last.
        if s < start || (start < s && s < e) {
            assert(buf[if s < start { s } else { start }] == 0);
        }
        if s == e {
            assert(buf[start] == 0);
        }
        if e < end {
            assert(buf[end - 1] == 0);
        }
        if end < e {
            assert(buf[e - 1] == 0);
        }
    } else {
        // All bytes are NUL, so both ranges are empty.
        if s < e {
            assert(buf[s] == 0);
        }
        assert(buf.subrange(s, e) =~= buf.subrange(start, end));
    }
}

/// A reply as read into a zeroed buffer, without the NUL bytes around it.
pub fn trim_nul(buf: &[u8]) -> (r: &[u8])
    ensures
        exists|start: int, end: int| nul_trimmed_at(buf@, start, end) && r@ == buf@.subrange(start, end),
        r@ == nul_trimmed(buf@),
{
    let n = buf.len();
    let mut start: usize = 0;
    while start < n && buf[start] == 0
        invariant
            n == buf@.len(),
            start <= n,
            forall|i: int| 0 <= i < start ==> buf@[i] == 0,
        decreases n - start,
    {
        start = start + 1;
    }
    let mut end: usize = n;
    while end > start && buf[end - 1] == 0
        invariant
            n == buf@.len(),
            start <= end <= n,
            forall|i: int| end <= i < n ==> buf@[i] == 0,
        decreases end,
    {
        end = end - 1;
    }
    let r = &buf[start..end];
    assert(nul_trimmed_at(buf@, start as int, end as int));
    proof {
        lemma_nul_trimmed_unique(buf@, start as int, end as int);
    }
    r
}

} // verus!
