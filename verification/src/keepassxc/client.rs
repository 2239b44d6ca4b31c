//! The state of a client of KeePassXC, and the steps of its exchanges: each
//! step computes the request to send or takes in the reply that came back;
//! the caller moves the bytes over the socket in between.

use vstd::prelude::*;
use vstd::utf8::encode_utf8;
use crate::keepassxc::action::{Action, Associate, ChangePublicKey, GetLogins, TestAssociation};
use crate::keepassxc::crypto::{
    box_open, box_seal, public_key_from_bytes, spec_box_open, spec_box_seal, spec_public_key,
    to_array, x25519_public_key,
};
use crate::keepassxc::encoding::{
    base64_decode_bytes, base64_decoded, base64_encode, base64_encode_checked, base64_encode_key,
    base64_fits, lemma_decoded_encodes, spec_base64_encode,
};
use crate::keepassxc::error::ProtocolError;
use crate::keepassxc::message::Message;
use crate::keepassxc::reply::{parse_response_bytes, read_from, Response};

verus! {

/// The keys of an established session: KeePassXC's session public key and
/// the client's session secret key. Together they seal and open payloads.
pub struct SessionKeys {
    pub peer_public_key: [u8; 32],
    pub secret_key: [u8; 32],
}

/// How to read a reply that carried no error.
pub enum Reply {
    /// The reply itself is the answer.
    Plain,
    /// The answer is this reply, opened from the reply's sealed message.
    Opened(Response),
}

/// A client of KeePassXC's browser protocol.
pub struct Client {
    pub client_id: String,
    /// The client's public key for the current session.
    pub public_key: Option<[u8; 32]>,
    /// KeePassXC's public key for the current session.
    pub peer_public_key: Option<[u8; 32]>,
    /// The keys that seal and open payloads, once a handshake succeeded.
    pub session: Option<SessionKeys>,
    /// The public key of the client's long-term identity.
    pub id_public_key: [u8; 32],
    /// The identity KeePassXC gave the client when it associated.
    pub identity: Option<String>,
}

/// The answer of an opened reply, as a `Result` of the reply read.
pub open spec fn opened_answer(r: Result<Reply, ProtocolError>) -> Result<Response, ProtocolError> {
    match r {
        Ok(Reply::Opened(answer)) => Ok(answer),
        Ok(Reply::Plain) => Err(ProtocolError::InvalidResponse),
        Err(e) => Err(e),
    }
}

/// The handshake reply reports success.
pub open spec fn handshake_succeeded(res: Response) -> bool {
    res.success matches Some(s) && s@ == "true"@
}

/// The payload bytes that an action's message carries, before any sealing.
pub open spec fn payload_bytes(payload: Seq<char>) -> Seq<u8> {
    encode_utf8(payload)
}

impl Client {
    /// The session keys always belong with the peer key that was received.
    pub open spec fn wf(&self) -> bool {
        self.session matches Some(keys) ==> self.peer_public_key == Some(keys.peer_public_key)
    }

    /// The text of the `message` member of a request carrying `payload`.
    pub open spec fn message_text(&self, needs_encryption: bool, payload: Seq<char>, nonce: Seq<u8>) -> Seq<char> {
        if needs_encryption {
            spec_base64_encode(self.sealed(payload, nonce))
        } else {
            payload
        }
    }

    /// The sealed box of a payload under the session keys.
    pub open spec fn sealed(&self, payload: Seq<char>, nonce: Seq<u8>) -> Seq<u8> {
        spec_box_seal(
            self.session->0.peer_public_key@,
            self.session->0.secret_key@,
            nonce,
            payload_bytes(payload),
        )
    }

    /// A new client with the given identity key and identity, and no session.
    pub fn new(id_public_key: [u8; 32], identity: Option<String>) -> (r: Client)
        ensures
            r.wf(),
            r.client_id@ == "foo"@,
            r.public_key is None,
            r.peer_public_key is None,
            r.session is None,
            r.id_public_key == id_public_key,
            r.identity == identity,
    {
        Client {
            client_id: "foo".to_owned(),
            public_key: None,
            peer_public_key: None,
            session: None,
            id_public_key,
            identity,
        }
    }

    /// First step of the handshake: takes the fresh session secret key,
    /// records its public key, and returns the request that offers it.
    pub fn begin_handshake(&mut self, secret_key: &[u8; 32]) -> (r: ChangePublicKey)
        requires
            old(self).wf(),
        ensures
            final(self).wf(),
            final(self).public_key matches Some(k) && k@ == spec_public_key(secret_key@),
            r.public_key@ == spec_base64_encode(spec_public_key(secret_key@)),
            final(self).client_id == old(self).client_id,
            final(self).peer_public_key == old(self).peer_public_key,
            final(self).session == old(self).session,
            final(self).id_public_key == old(self).id_public_key,
            final(self).identity == old(self).identity,
    {
        let public_key = x25519_public_key(secret_key);
        self.public_key = Some(public_key);
        ChangePublicKey { public_key: base64_encode_key(&public_key) }
    }

    /// Last step of the handshake: checks KeePassXC's reply and, where it
    /// reports success with a well-formed key, opens the session with that
    /// key and the session secret key. On an error the client is unchanged.
    pub fn complete_handshake(&mut self, secret_key: &[u8; 32], res: &Response) -> (r: Result<(), ProtocolError>)
        requires
            old(self).wf(),
            handshake_succeeded(*res) ==> res.public_key is Some,
        ensures
            final(self).wf(),
            !handshake_succeeded(*res) ==> r == Err::<(), ProtocolError>(ProtocolError::InvalidResponse),
            handshake_succeeded(*res) ==> match base64_decoded(res.public_key->0@) {
                None => r == Err::<(), ProtocolError>(ProtocolError::InvalidBase64),
                Some(key) => if key.len() == 32 {
                    &&& r is Ok
                    &&& final(self).peer_public_key matches Some(p) && p@ == key
                        && spec_base64_encode(p@) == res.public_key->0@
                    &&& final(self).session matches Some(keys) && keys.peer_public_key@ == key
                        && keys.secret_key == *secret_key
                } else {
                    r == Err::<(), ProtocolError>(ProtocolError::InvalidKey)
                },
            },
            r is Err ==> *final(self) == *old(self),
            final(self).client_id == old(self).client_id,
            final(self).public_key == old(self).public_key,
            final(self).id_public_key == old(self).id_public_key,
            final(self).identity == old(self).identity,
    {
        let succeeded = match &res.success {
            Some(s) => *s == "true".to_owned(),
            None => false,
        };
        if !succeeded {
            return Err(ProtocolError::InvalidResponse);
        }
        let text = match &res.public_key {
            Some(t) => t,
            None => {
                return Err(ProtocolError::InvalidResponse);
            },
        };
        let decoded = match base64_decode_bytes(text.as_str()) {
            Some(v) => v,
            None => {
                return Err(ProtocolError::InvalidBase64);
            },
        };
        if decoded.len() != 32 {
            return Err(ProtocolError::InvalidKey);
        }
        let peer = match public_key_from_bytes(decoded.as_slice()) {
            Ok(key) => key,
            Err(e) => {
                return Err(e);
            },
        };
        proof {
            lemma_decoded_encodes(res.public_key->0@);
        }
        self.peer_public_key = Some(peer);
        self.session = Some(SessionKeys { peer_public_key: peer, secret_key: *secret_key });
        Ok(())
    }

    /// The request that associates the client, offering its session public
    /// key and the public key of a fresh identity secret key.
    pub fn associate_request(&self, id_secret_key: &[u8; 32]) -> (r: Associate)
        requires
            self.public_key is Some,
        ensures
            r.action@ == "associate"@,
            r.key@ == spec_base64_encode(self.public_key->0@),
            r.id_key@ == spec_base64_encode(spec_public_key(id_secret_key@)),
    {
        let public_key = match &self.public_key {
            Some(k) => *k,
            None => [0u8; 32],
        };
        let id_public_key = x25519_public_key(id_secret_key);
        Associate::new(base64_encode_key(&public_key), base64_encode_key(&id_public_key))
    }

    /// Takes in the reply to an association: the identity it names becomes
    /// the client's identity, which is returned.
    pub fn complete_association(&mut self, res: &Response) -> (r: String)
        requires
            old(self).wf(),
            res.id is Some,
        ensures
            final(self).wf(),
            r == res.id->0,
            final(self).identity == Some(r),
            final(self).client_id == old(self).client_id,
            final(self).public_key == old(self).public_key,
            final(self).peer_public_key == old(self).peer_public_key,
            final(self).session == old(self).session,
            final(self).id_public_key == old(self).id_public_key,
    {
        let id = match &res.id {
            Some(id) => id.clone(),
            None => String::new(),
        };
        self.identity = Some(id.clone());
        id
    }

    /// The request for the logins stored for `url`, presenting the client's
    /// identity; a client without identity cannot ask.
    pub fn get_logins_request(&self, url: String) -> (r: Result<GetLogins, ProtocolError>)
        ensures
            match self.identity {
                None => r == Err::<GetLogins, ProtocolError>(ProtocolError::NoIdentity),
                Some(id) => r matches Ok(g) && {
                    &&& g.action@ == "get-logins"@
                    &&& g.url == url
                    &&& g.keys@.len() == 1
                    &&& g.keys@[0].id == id
                    &&& g.keys@[0].key@ == spec_base64_encode(self.id_public_key@)
                },
            },
    {
        let identity = match &self.identity {
            Some(id) => id.clone(),
            None => {
                return Err(ProtocolError::NoIdentity);
            },
        };
        Ok(GetLogins::new(url, identity, base64_encode_key(&self.id_public_key)))
    }

    /// The request that tests whether the client's identity is still
    /// associated; a client without identity cannot ask.
    pub fn test_association_request(&self) -> (r: Result<TestAssociation, ProtocolError>)
        ensures
            match self.identity {
                None => r == Err::<TestAssociation, ProtocolError>(ProtocolError::NoIdentity),
                Some(id) => r matches Ok(t) && {
                    &&& t.action@ == "test-associate"@
                    &&& t.id == id
                    &&& t.key@ == spec_base64_encode(self.id_public_key@)
                },
            },
    {
        let identity = match &self.identity {
            Some(id) => id.clone(),
            None => {
                return Err(ProtocolError::NoIdentity);
            },
        };
        Ok(TestAssociation::new(identity, base64_encode_key(&self.id_public_key)))
    }

    /// The message that carries `action` with `nonce`: the payload, sealed
    /// under the session keys and base64-encoded where the action needs it.
    /// A `change-public-keys` request carries the client's public key in
    /// place of a payload.
    pub fn request_message<A: Action>(&self, action: &A, nonce: &[u8; 24]) -> (r: Result<Message, ProtocolError>)
        requires
            self.wf(),
            action.spec_needs_encryption() ==> self.session is Some,
            action.spec_action() == "change-public-keys"@ ==> self.public_key is Some,
        ensures
            match action.spec_payload() {
                None => r is Err,
                Some(payload) => if action.spec_needs_encryption() && !base64_fits(self.sealed(payload, nonce@)) {
                    r == Err::<Message, ProtocolError>(ProtocolError::TooLarge)
                } else {
                    r matches Ok(m) && {
                        &&& m.action@ == action.spec_action()
                        &&& m.nonce@ == spec_base64_encode(nonce@)
                        &&& m.client_id == self.client_id
                        &&& m.request_id is None
                        &&& if action.spec_action() == "change-public-keys"@ {
                            &&& m.message is None
                            &&& m.public_key matches Some(k) && k@ == spec_base64_encode(self.public_key->0@)
                        } else {
                            &&& m.public_key is None
                            &&& m.message matches Some(t)
                                && t@ == self.message_text(action.spec_needs_encryption(), payload, nonce@)
                        }
                        &&& action.spec_needs_encryption() ==> spec_box_open(
                            self.session->0.peer_public_key@,
                            self.session->0.secret_key@,
                            nonce@,
                            self.sealed(payload, nonce@),
                        ) == Some(payload_bytes(payload))
                        &&& action.spec_needs_encryption() ==> forall|peer_secret_key: Seq<u8>|
                            #[trigger] spec_public_key(peer_secret_key) == self.session->0.peer_public_key@
                                ==> spec_box_open(
                                spec_public_key(self.session->0.secret_key@),
                                peer_secret_key,
                                nonce@,
                                self.sealed(payload, nonce@),
                            ) == Some(payload_bytes(payload))
                    }
                },
            },
    {
        let payload = match action.payload() {
            Ok(p) => p,
            Err(e) => {
                return Err(e);
            },
        };
        let text = if action.needs_encryption() {
            let (peer, secret) = match &self.session {
                Some(keys) => (keys.peer_public_key, keys.secret_key),
                None => ([0u8; 32], [0u8; 32]),
            };
            let sealed = match box_seal(&peer, &secret, nonce, payload.as_str().as_bytes()) {
                Ok(c) => c,
                Err(_) => {
                    return Err(ProtocolError::Encryption);
                },
            };
            match base64_encode_checked(sealed.as_slice()) {
                Some(t) => t,
                None => {
                    return Err(ProtocolError::TooLarge);
                },
            }
        } else {
            payload
        };
        let name = action.action();
        let mut message = Message {
            action: name,
            message: Some(text),
            public_key: None,
            nonce: base64_encode(nonce.as_slice()),
            client_id: self.client_id.clone(),
            request_id: None,
        };
        if action.action() == "change-public-keys".to_owned() {
            let public_key = match &self.public_key {
                Some(k) => *k,
                None => [0u8; 32],
            };
            message.message = None;
            message.public_key = Some(base64_encode_key(&public_key));
        }
        Ok(message)
    }

    /// Takes in a reply: an `error` member fails the exchange with that error;
    /// otherwise the reply of an action that needed encryption is opened.
    pub fn receive(&self, needs_encryption: bool, res: &Response) -> (r: Result<Reply, ProtocolError>)
        requires
            self.wf(),
            res.error is None && needs_encryption ==> {
                &&& self.session is Some
                &&& res.nonce is Some
                &&& res.message is Some
            },
        ensures
            match res.error {
                Some(e) => r == Err::<Reply, ProtocolError>(ProtocolError::Remote(e)),
                None => if needs_encryption {
                    &&& (r is Ok ==> opened_answer(r) is Ok)
                    &&& match self.opened(*res) {
                        Ok(p) => read_from(p, opened_answer(r)),
                        Err(e) => r == Err::<Reply, ProtocolError>(e),
                    }
                } else {
                    r matches Ok(Reply::Plain)
                },
            },
    {
        match &res.error {
            Some(e) => {
                return Err(ProtocolError::Remote(e.clone()));
            },
            None => {},
        }
        if needs_encryption {
            match self.decrypt_message(res) {
                Ok(answer) => Ok(Reply::Opened(answer)),
                Err(e) => Err(e),
            }
        } else {
            Ok(Reply::Plain)
        }
    }

    /// The result of reading the opened reply of a sealed exchange.
    pub open spec fn is_opened_read(&self, res: Response, r: Result<Response, ProtocolError>) -> bool {
        match self.opened(res) {
            Ok(p) => read_from(p, r),
            Err(e) => r == Err::<Response, ProtocolError>(e),
        }
    }

    /// What opening a reply's sealed message gives: its plaintext, or the
    /// error that stops it.
    pub open spec fn opened(&self, res: Response) -> Result<Seq<u8>, ProtocolError> {
        match (base64_decoded(res.nonce->0@), base64_decoded(res.message->0@)) {
            (Some(nonce), Some(ciphertext)) => if nonce.len() == 24 {
                match spec_box_open(
                    self.session->0.peer_public_key@,
                    self.session->0.secret_key@,
                    nonce,
                    ciphertext,
                ) {
                    Some(p) => Ok(p),
                    None => Err(ProtocolError::Decryption),
                }
            } else {
                Err(ProtocolError::InvalidNonce)
            },
            _ => Err(ProtocolError::InvalidBase64),
        }
    }

    /// Opens the sealed message of a reply with the session keys and the
    /// reply's nonce, and reads the JSON reply inside. A nonce that is not
    /// 24 bytes long is refused. What KeePassXC sealed for the client's
    /// session key opens to what it sealed.
    pub fn decrypt_message(&self, res: &Response) -> (r: Result<Response, ProtocolError>)
        requires
            self.session is Some,
            res.nonce is Some,
            res.message is Some,
        ensures
            self.is_opened_read(*res, r),
            forall|peer_secret_key: Seq<u8>, nonce: Seq<u8>, plaintext: Seq<u8>|
                #![trigger spec_box_seal(spec_public_key(self.session->0.secret_key@), peer_secret_key, nonce, plaintext)]
                spec_public_key(peer_secret_key) == self.session->0.peer_public_key@
                && nonce.len() == 24
                && spec_base64_encode(nonce) == res.nonce->0@
                && spec_base64_encode(spec_box_seal(spec_public_key(self.session->0.secret_key@), peer_secret_key, nonce, plaintext)) == res.message->0@
                ==> self.opened(*res) == Ok::<Seq<u8>, ProtocolError>(plaintext),
            forall|nonce: Seq<u8>, plaintext: Seq<u8>|
                #![trigger spec_box_seal(self.session->0.peer_public_key@, self.session->0.secret_key@, nonce, plaintext)]
                nonce.len() == 24
                && spec_base64_encode(nonce) == res.nonce->0@
                && spec_base64_encode(spec_box_seal(self.session->0.peer_public_key@, self.session->0.secret_key@, nonce, plaintext)) == res.message->0@
                ==> self.opened(*res) == Ok::<Seq<u8>, ProtocolError>(plaintext),
    {
        let (peer, secret) = match &self.session {
            Some(keys) => (keys.peer_public_key, keys.secret_key),
            None => ([0u8; 32], [0u8; 32]),
        };
        let nonce_text = match &res.nonce {
            Some(t) => t.as_str(),
            None => "",
        };
        let message_text = match &res.message {
            Some(t) => t.as_str(),
            None => "",
        };
        let ghost own_public = spec_public_key(secret@);
        let nonce = match base64_decode_bytes(nonce_text) {
            Some(v) => v,
            None => {
                proof {
                    assert forall|ps: Seq<u8>, n: Seq<u8>, t: Seq<u8>|
                        spec_public_key(ps) == peer@ && n.len() == 24 && spec_base64_encode(n) == nonce_text@
                        && #[trigger] spec_box_seal(own_public, ps, n, t) == spec_box_seal(own_public, ps, n, t)
                        implies false by {
                    }
                }
                return Err(ProtocolError::InvalidBase64);
            },
        };
        let ciphertext = match base64_decode_bytes(message_text) {
            Some(v) => v,
            None => {
                proof {
                    assert forall|ps: Seq<u8>, n: Seq<u8>, t: Seq<u8>|
                        spec_base64_encode(#[trigger] spec_box_seal(own_public, ps, n, t)) == message_text@
                        implies false by {
                    }
                    assert forall|n: Seq<u8>, t: Seq<u8>|
                        spec_base64_encode(#[trigger] spec_box_seal(peer@, secret@, n, t)) == message_text@
                        implies false by {
                    }
                }
                return Err(ProtocolError::InvalidBase64);
            },
        };
        if nonce.len() != 24 {
            return Err(ProtocolError::InvalidNonce);
        }
        let nonce_array: [u8; 24] = to_array(nonce.as_slice());
        match box_open(&peer, &secret, &nonce_array, ciphertext.as_slice()) {
            Ok(p) => parse_response_bytes(p.as_slice()),
            Err(_) => Err(ProtocolError::Decryption),
        }
    }
}

} // verus!
