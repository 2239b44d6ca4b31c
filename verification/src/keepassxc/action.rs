//! The requests ("actions") of the protocol and their JSON payloads.

use vstd::prelude::*;
use crate::keepassxc::error::ProtocolError;
use crate::keepassxc::json::{
    array, array_of, object, object_of, string_member, string_member_of, texts,
};

verus! {

/// A request to KeePassXC: its name, the JSON payload it carries, and whether
/// that payload travels sealed with the session keys.
pub trait Action {
    /// The action's name.
    spec fn spec_action(&self) -> Seq<char>;

    /// The action's JSON payload, `None` where it cannot be written.
    spec fn spec_payload(&self) -> Option<Seq<char>>;

    /// Whether the payload must be sealed.
    spec fn spec_needs_encryption(&self) -> bool;

    fn action(&self) -> (r: String)
        ensures
            r@ == self.spec_action(),
    ;

    fn payload(&self) -> (r: Result<String, ProtocolError>)
        ensures
            match r {
                Ok(s) => self.spec_payload() == Some(s@),
                Err(_) => self.spec_payload() is None,
            },
    ;

    fn needs_encryption(&self) -> (r: bool)
        ensures
            r == self.spec_needs_encryption(),
    ;
}

/// Asks KeePassXC to associate the client with the open database.
pub struct Associate {
    pub action: String,
    pub key: String,
    pub id_key: String,
}

impl Associate {
    pub fn new(key: String, id_key: String) -> (r: Self)
        ensures
            r.action@ == "associate"@,
            r.action@ == r.spec_action(),
            r.key == key,
            r.id_key == id_key,
    {
        Associate { action: "associate".to_owned(), key, id_key }
    }
}

impl Action for Associate {
    open spec fn spec_action(&self) -> Seq<char> {
        "associate"@
    }

    open spec fn spec_payload(&self) -> Option<Seq<char>> {
        Some(
            object(
                seq![
                    string_member("action"@, self.action@),
                    string_member("key"@, self.key@),
                    string_member("idKey"@, self.id_key@),
                ],
            ),
        )
    }

    open spec fn spec_needs_encryption(&self) -> bool {
        true
    }

    fn action(&self) -> (r: String) {
        "associate".to_owned()
    }

    fn payload(&self) -> (r: Result<String, ProtocolError>) {
        let mut members: Vec<String> = Vec::new();
        members.push(string_member_of("action", self.action.as_str()));
        members.push(string_member_of("key", self.key.as_str()));
        members.push(string_member_of("idKey", self.id_key.as_str()));
        let text = object_of(&members);
        proof {
            assert(texts(members@) =~= seq![
                string_member("action"@, self.action@),
                string_member("key"@, self.key@),
                string_member("idKey"@, self.id_key@),
            ]);
        }
        Ok(text)
    }

    fn needs_encryption(&self) -> (r: bool) {
        true
    }
}

/// Offers KeePassXC the client's public key for this session.
pub struct ChangePublicKey {
    pub public_key: String,
}

impl Action for ChangePublicKey {
    open spec fn spec_action(&self) -> Seq<char> {
        "change-public-keys"@
    }

    open spec fn spec_payload(&self) -> Option<Seq<char>> {
        Some(object(seq![string_member("publicKey"@, self.public_key@)]))
    }

    open spec fn spec_needs_encryption(&self) -> bool {
        false
    }

    fn action(&self) -> (r: String) {
        "change-public-keys".to_owned()
    }

    fn payload(&self) -> (r: Result<String, ProtocolError>) {
        let mut members: Vec<String> = Vec::new();
        members.push(string_member_of("publicKey", self.public_key.as_str()));
        let text = object_of(&members);
        proof {
            assert(texts(members@) =~= seq![string_member("publicKey"@, self.public_key@)]);
        }
        Ok(text)
    }

    fn needs_encryption(&self) -> (r: bool) {
        false
    }
}

/// One identity that a `get-logins` request presents: its id and its key.
pub struct Key {
    pub id: String,
    pub key: String,
}

impl Key {
    /// The JSON object of this key.
    pub open spec fn spec_json(&self) -> Seq<char> {
        object(seq![string_member("id"@, self.id@), string_member("key"@, self.key@)])
    }

    /// Writes this key as a JSON object.
    pub fn json(&self) -> (r: String)
        ensures
            r@ == self.spec_json(),
    {
        let mut members: Vec<String> = Vec::new();
        members.push(string_member_of("id", self.id.as_str()));
        members.push(string_member_of("key", self.key.as_str()));
        let text = object_of(&members);
        proof {
            assert(texts(members@) =~= seq![
                string_member("id"@, self.id@),
                string_member("key"@, self.key@),
            ]);
        }
        text
    }
}

/// The JSON texts of a sequence of keys.
pub open spec fn keys_json(keys: Seq<Key>) -> Seq<Seq<char>> {
    keys.map_values(|k: Key| k.spec_json())
}

/// Asks KeePassXC for the logins stored for a URL.
pub struct GetLogins {
    pub action: String,
    pub url: String,
    pub keys: Vec<Key>,
}

impl GetLogins {
    pub fn new(url: String, id: String, key: String) -> (r: Self)
        ensures
            r.action@ == "get-logins"@,
            r.action@ == r.spec_action(),
            r.url == url,
            r.keys@.len() == 1,
            r.keys@[0].id == id,
            r.keys@[0].key == key,
    {
        GetLogins { action: "get-logins".to_owned(), url, keys: vec![Key { id, key }] }
    }
}

impl Action for GetLogins {
    open spec fn spec_action(&self) -> Seq<char> {
        "get-logins"@
    }

    open spec fn spec_payload(&self) -> Option<Seq<char>> {
        Some(
            object(
                seq![
                    string_member("action"@, self.action@),
                    string_member("url"@, self.url@),
                    crate::keepassxc::json::member("keys"@, array(keys_json(self.keys@))),
                ],
            ),
        )
    }

    open spec fn spec_needs_encryption(&self) -> bool {
        true
    }

    fn action(&self) -> (r: String) {
        "get-logins".to_owned()
    }

    fn payload(&self) -> (r: Result<String, ProtocolError>) {
        let mut items: Vec<String> = Vec::new();
        let n = self.keys.len();
        let mut i: usize = 0;
        while i < n
            invariant
                n == self.keys@.len(),
                i <= n,
                texts(items@) == keys_json(self.keys@).take(i as int),
            decreases n - i,
        {
            let item = self.keys[i].json();
            proof {
                assert(item@ == keys_json(self.keys@)[i as int]);
            }
            let ghost before = items@;
            items.push(item);
            proof {
                assert(texts(items@) =~= texts(before).push(item@));
                assert(keys_json(self.keys@).take(i + 1) =~= keys_json(self.keys@).take(i as int).push(item@));
                assert(texts(items@) =~= keys_json(self.keys@).take(i + 1));
            }
            i = i + 1;
        }
        proof {
            assert(keys_json(self.keys@).take(n as int) =~= keys_json(self.keys@));
        }
        let keys = array_of(&items);
        let mut members: Vec<String> = Vec::new();
        members.push(string_member_of("action", self.action.as_str()));
        members.push(string_member_of("url", self.url.as_str()));
        members.push(crate::keepassxc::json::member_of("keys", keys.as_str()));
        let text = object_of(&members);
        proof {
            assert(texts(members@) =~= seq![
                string_member("action"@, self.action@),
                string_member("url"@, self.url@),
                crate::keepassxc::json::member("keys"@, array(keys_json(self.keys@))),
            ]);
        }
        Ok(text)
    }

    fn needs_encryption(&self) -> (r: bool) {
        true
    }
}

/// Asks KeePassXC whether an identity is still associated.
pub struct TestAssociation {
    pub action: String,
    pub id: String,
    pub key: String,
}

impl TestAssociation {
    pub fn new(id: String, key: String) -> (r: Self)
        ensures
            r.action@ == "test-associate"@,
            r.action@ == r.spec_action(),
            r.id == id,
            r.key == key,
    {
        TestAssociation { action: "test-associate".to_owned(), id, key }
    }
}

impl Action for TestAssociation {
    open spec fn spec_action(&self) -> Seq<char> {
        "test-associate"@
    }

    open spec fn spec_payload(&self) -> Option<Seq<char>> {
        Some(
            object(
                seq![
                    string_member("action"@, self.action@),
                    string_member("id"@, self.id@),
                    string_member("key"@, self.key@),
                ],
            ),
        )
    }

    open spec fn spec_needs_encryption(&self) -> bool {
        true
    }

    fn action(&self) -> (r: String) {
        "test-associate".to_owned()
    }

    fn payload(&self) -> (r: Result<String, ProtocolError>) {
        let mut members: Vec<String> = Vec::new();
        members.push(string_member_of("action", self.action.as_str()));
        members.push(string_member_of("id", self.id.as_str()));
        members.push(string_member_of("key", self.key.as_str()));
        let text = object_of(&members);
        proof {
            assert(texts(members@) =~= seq![
                string_member("action"@, self.action@),
                string_member("id"@, self.id@),
                string_member("key"@, self.key@),
            ]);
        }
        Ok(text)
    }

    fn needs_encryption(&self) -> (r: bool) {
        true
    }
}

} // verus!
