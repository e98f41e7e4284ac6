//! The calls into the cryptographic crates. Nothing in this file is proved:
//! each function makes one call and its contract names what comes back.

use vstd::prelude::*;

verus! {

/// The Ed25519 public key of a secret key.
pub uninterp spec fn ed25519_public_spec(secret: Seq<u8>) -> Seq<u8>;

/// The Ed25519 signature of a secret key over a message.
pub uninterp spec fn ed25519_sign_spec(secret: Seq<u8>, msg: Seq<u8>) -> Seq<u8>;

/// Whether an Ed25519 signature over a message verifies under a public key;
/// `None` where the 32 bytes are no public key.
pub uninterp spec fn ed25519_verify_spec(public: Seq<u8>, signature: Seq<u8>, msg: Seq<u8>) -> Option<
    bool,
>;

/// The X25519 public key of a secret key.
pub uninterp spec fn x25519_public_spec(secret: Seq<u8>) -> Seq<u8>;

/// The X25519 secret that two parties share.
pub uninterp spec fn x25519_shared_spec(secret: Seq<u8>, public: Seq<u8>) -> Seq<u8>;

/// The X25519 secret key that belongs to an Ed25519 secret key.
pub uninterp spec fn x25519_secret_of_ed25519_spec(secret: Seq<u8>) -> Seq<u8>;

/// The X25519 public key that belongs to an Ed25519 public key; `None` where
/// the 32 bytes are no point of the curve.
pub uninterp spec fn x25519_public_of_ed25519_spec(public: Seq<u8>) -> Option<Seq<u8>>;

/// Calls `crypto::signatures::ed25519::SecretKey::public_key` on the key made
/// of `secret`. The result depends on `secret` alone and is named, not stated.
#[verifier::external_body]
pub(crate) fn ed25519_public_key(secret: &[u8; 32]) -> (r: [u8; 32])
    ensures
        r@ == ed25519_public_spec(secret@),
{
    crypto::signatures::ed25519::SecretKey::from_bytes(secret).public_key().to_bytes()
}

/// Calls `crypto::signatures::ed25519::SecretKey::sign`. Ed25519 signing draws
/// no randomness: the 64 bytes depend on the key and the message alone and are
/// named, not stated.
#[verifier::external_body]
pub(crate) fn ed25519_sign(secret: &[u8; 32], msg: &[u8]) -> (r: [u8; 64])
    ensures
        r@ == ed25519_sign_spec(secret@, msg@),
{
    crypto::signatures::ed25519::SecretKey::from_bytes(secret).sign(msg).to_bytes()
}

/// Calls `crypto::signatures::ed25519::PublicKey::verify` with the key that
/// `try_from_bytes` makes of `public`; `None` where it makes none. The answer
/// depends on the three arguments alone and is named, not stated.
#[verifier::external_body]
pub(crate) fn ed25519_verify(public: &[u8; 32], signature: &[u8; 64], msg: &[u8]) -> (r: Option<
    bool,
>)
    ensures
        r == ed25519_verify_spec(public@, signature@, msg@),
{
    match crypto::signatures::ed25519::PublicKey::try_from_bytes(*public) {
        Ok(key) => Some(
            key.verify(&crypto::signatures::ed25519::Signature::from_bytes(*signature), msg),
        ),
        Err(_) => None,
    }
}

/// Calls `crypto::keys::x25519::SecretKey::public_key` on the key made of
/// `secret`. The result is named, not stated.
#[verifier::external_body]
pub(crate) fn x25519_public_key(secret: &[u8; 32]) -> (r: [u8; 32])
    ensures
        r@ == x25519_public_spec(secret@),
{
    crypto::keys::x25519::SecretKey::from_bytes(*secret).public_key().to_bytes()
}

/// Calls `crypto::keys::x25519::SecretKey::diffie_hellman`. The shared secret
/// is named, not stated.
#[verifier::external_body]
pub(crate) fn x25519_diffie_hellman(secret: &[u8; 32], public: &[u8; 32]) -> (r: [u8; 32])
    ensures
        r@ == x25519_shared_spec(secret@, public@),
{
    crypto::keys::x25519::SecretKey::from_bytes(*secret).diffie_hellman(
        &crypto::keys::x25519::PublicKey::from_bytes(*public),
    ).to_bytes()
}

/// Converts an Ed25519 secret key with the `From` impl of
/// `crypto::keys::x25519::SecretKey`. The result is named, not stated.
#[verifier::external_body]
pub(crate) fn x25519_secret_of_ed25519(secret: &[u8; 32]) -> (r: [u8; 32])
    ensures
        r@ == x25519_secret_of_ed25519_spec(secret@),
{
    crypto::keys::x25519::SecretKey::from(
        &crypto::signatures::ed25519::SecretKey::from_bytes(secret),
    ).to_bytes()
}

/// Converts an Ed25519 public key with the `TryFrom` impl of
/// `crypto::keys::x25519::PublicKey`; `None` where the bytes are no public key
/// or the conversion fails. The result is named, not stated.
#[verifier::external_body]
pub(crate) fn x25519_public_of_ed25519(public: &[u8; 32]) -> (r: Option<[u8; 32]>)
    ensures
        r is Some <==> x25519_public_of_ed25519_spec(public@) is Some,
        r is Some ==> r->0@ == x25519_public_of_ed25519_spec(public@)->0,
{
    match crypto::signatures::ed25519::PublicKey::try_from_bytes(*public) {
        Ok(key) => match crypto::keys::x25519::PublicKey::try_from(&key) {
            Ok(converted) => Some(converted.to_bytes()),
            Err(_) => None,
        },
        Err(_) => None,
    }
}

/// Seeds `rand::rngs::StdRng` from the system and draws 32 bytes; `None`
/// where the system gives no randomness. Nothing is known of the bytes.
#[verifier::external_body]
pub(crate) fn random_key() -> (r: Option<[u8; 32]>) {
    match <rand::rngs::StdRng as rand::SeedableRng>::from_rng(rand::rngs::OsRng) {
        Ok(mut rng) => Some(rand::Rng::gen(&mut rng)),
        Err(_) => None,
    }
}

} // verus!
