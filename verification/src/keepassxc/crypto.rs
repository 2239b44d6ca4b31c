//! The public-key authenticated encryption of the protocol (X25519,
//! XSalsa20-Poly1305), as the `crypto_box` crate provides it.

use vstd::prelude::*;
use crypto_box::aead::Aead;
use crate::keepassxc::error::ProtocolError;

verus! {

/// The X25519 public key that belongs to a secret key.
pub uninterp spec fn spec_public_key(secret_key: Seq<u8>) -> Seq<u8>;

/// The sealed box of `plaintext` from the owner of `secret_key` to the owner
/// of `peer_public_key`, under `nonce`: the Poly1305 tag followed by the
/// XSalsa20 ciphertext.
pub uninterp spec fn spec_box_seal(
    peer_public_key: Seq<u8>,
    secret_key: Seq<u8>,
    nonce: Seq<u8>,
    plaintext: Seq<u8>,
) -> Seq<u8>;

/// The plaintext of a sealed box, or `None` where its tag does not verify
/// under these keys and nonce.
pub uninterp spec fn spec_box_open(
    peer_public_key: Seq<u8>,
    secret_key: Seq<u8>,
    nonce: Seq<u8>,
    ciphertext: Seq<u8>,
) -> Option<Seq<u8>>;

#[verifier::external_type_specification]
#[verifier::external_body]
pub struct ExAeadError(crypto_box::aead::Error);

/// `crypto_box::SecretKey::public_key`, on the key made from these bytes.
#[verifier::external_body]
pub(crate) fn x25519_public_key(secret_key: &[u8; 32]) -> (r: [u8; 32])
    ensures
        r@ == spec_public_key(secret_key@),
{
    crypto_box::SecretKey::from_bytes(*secret_key).public_key().to_bytes()
}

/// `Aead::encrypt` of a `crypto_box::SalsaBox` built from the two keys. With
/// no associated data it cannot fail; the result is the 16-byte tag followed
/// by the ciphertext, so it is 16 bytes longer than the plaintext. The same
/// box opens it again; and since both sides of an X25519 exchange derive the
/// same shared key, so does the owner of the peer key, with its secret key
/// and this side's public key.
#[verifier::external_body]
pub(crate) fn box_seal(
    peer_public_key: &[u8; 32],
    secret_key: &[u8; 32],
    nonce: &[u8; 24],
    plaintext: &[u8],
) -> (r: Result<Vec<u8>, crypto_box::aead::Error>)
    ensures
        r is Ok,
        r is Ok ==> r->Ok_0@ == spec_box_seal(peer_public_key@, secret_key@, nonce@, plaintext@),
        r is Ok ==> r->Ok_0@.len() == plaintext@.len() + 16,
        r is Ok ==> spec_box_open(peer_public_key@, secret_key@, nonce@, r->Ok_0@) == Some(plaintext@),
        r is Ok ==> forall|peer_secret_key: Seq<u8>|
            #[trigger] spec_public_key(peer_secret_key) == peer_public_key@ ==> spec_box_open(
                spec_public_key(secret_key@),
                peer_secret_key,
                nonce@,
                r->Ok_0@,
            ) == Some(plaintext@),
{
    let sealer = crypto_box::SalsaBox::new(
        &crypto_box::PublicKey::from_bytes(*peer_public_key),
        &crypto_box::SecretKey::from_bytes(*secret_key),
    );
    sealer.encrypt(crypto_box::Nonce::from_slice(nonce.as_slice()), plaintext)
}

/// `Aead::decrypt` of a `crypto_box::SalsaBox` built from the two keys: the
/// plaintext where the tag verifies, an error where it does not. A box that
/// the same keys sealed opens to what was sealed; so does one that the owner
/// of the peer key sealed for this side's public key, since both sides derive
/// the same shared key.
#[verifier::external_body]
pub(crate) fn box_open(
    peer_public_key: &[u8; 32],
    secret_key: &[u8; 32],
    nonce: &[u8; 24],
    ciphertext: &[u8],
) -> (r: Result<Vec<u8>, crypto_box::aead::Error>)
    ensures
        r is Ok ==> spec_box_open(peer_public_key@, secret_key@, nonce@, ciphertext@) == Some(
            r->Ok_0@,
        ),
        r is Err ==> spec_box_open(peer_public_key@, secret_key@, nonce@, ciphertext@) is None,
        forall|plaintext: Seq<u8>|
            #[trigger] spec_box_seal(peer_public_key@, secret_key@, nonce@, plaintext) == ciphertext@
                ==> (r is Ok && r->Ok_0@ == plaintext),
        forall|peer_secret_key: Seq<u8>, plaintext: Seq<u8>|
            spec_public_key(peer_secret_key) == peer_public_key@ && #[trigger] spec_box_seal(
                spec_public_key(secret_key@),
                peer_secret_key,
                nonce@,
                plaintext,
            ) == ciphertext@ ==> (r is Ok && r->Ok_0@ == plaintext),
{
    let opener = crypto_box::SalsaBox::new(
        &crypto_box::PublicKey::from_bytes(*peer_public_key),
        &crypto_box::SecretKey::from_bytes(*secret_key),
    );
    opener.decrypt(crypto_box::Nonce::from_slice(nonce.as_slice()), ciphertext)
}

/// Reads a public key from its bytes, as `crypto_box::PublicKey::from_slice`
/// does: exactly 32 bytes make a key, and the key is those bytes.
pub fn public_key_from_bytes(bytes: &[u8]) -> (r: Result<[u8; 32], ProtocolError>)
    ensures
        match r {
            Ok(key) => bytes@.len() == 32 && key@ == bytes@,
            Err(e) => bytes@.len() != 32 && e == ProtocolError::InvalidKey,
        },
{
    if bytes.len() == 32 {
        Ok(to_array(bytes))
    } else {
        Err(ProtocolError::InvalidKey)
    }
}

/// The X25519 public key of a secret key.
pub fn public_key_of(secret_key: &[u8; 32]) -> (r: [u8; 32])
    ensures
        r@ == spec_public_key(secret_key@),
{
    x25519_public_key(secret_key)
}

/// The first `N` bytes of `bytes`, as an array.
pub(crate) fn to_array<const N: usize>(bytes: &[u8]) -> (r: [u8; N])
    requires
        bytes@.len() == N,
    ensures
        r@ == bytes@,
{
    let mut out = [0u8; N];
    let mut i: usize = 0;
    while i < N
        invariant
            bytes@.len() == N,
            i <= N,
            out@.len() == N,
            forall|j: int| 0 <= j < i ==> out@[j] == bytes@[j],
        decreases N - i,
    {
        out[i] = bytes[i];
        i = i + 1;
    }
    assert(out@ =~= bytes@);
    out
}

} // verus!
