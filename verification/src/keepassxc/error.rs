//! What can go wrong while talking to KeePassXC.

use vstd::prelude::*;

verus! {

/// A failure of the browser protocol.
#[derive(Debug, PartialEq, Eq)]
pub enum ProtocolError {
    /// A request payload could not be written as JSON.
    Json,
    /// The handshake reply did not report success.
    InvalidResponse,
    /// A key did not have the length of a public key.
    InvalidKey,
    /// A reply field that should hold base64 did not.
    InvalidBase64,
    /// A reply nonce did not have the length of a nonce.
    InvalidNonce,
    /// The client has no identity yet: it must associate first.
    NoIdentity,
    /// KeePassXC answered with an error; it is kept as JSON text.
    Remote(String),
    /// A reply was not UTF-8.
    InvalidUtf8,
    /// A reply was not JSON.
    InvalidJson,
    /// A payload could not be sealed with the session keys.
    Encryption,
    /// A sealed reply did not open with the session keys.
    Decryption,
    /// A sealed payload is too long to be written in base64.
    TooLarge,
}

} // verus!
