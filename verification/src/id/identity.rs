//! The private side of an identifier: the keys that sign and exchange.

use vstd::prelude::*;
use vstd::string::StringSliceAdditionalSpecFns;
use crate::crypto::ed25519_public_key;
use crate::crypto::ed25519_public_spec;
use crate::crypto::ed25519_sign;
use crate::crypto::ed25519_sign_spec;
use crate::crypto::ed25519_verify_spec;
use crate::crypto::x25519_public_key;
use crate::crypto::x25519_public_spec;
use crate::crypto::x25519_secret_of_ed25519;
use crate::crypto::x25519_secret_of_ed25519_spec;
use crate::ddml::sizeof;
use crate::ddml::types::array_from;
use crate::ddml::types::lemma_put_wf;
use crate::ddml::types::lemma_take_put;
use crate::ddml::types::lemma_take_put_u8;
use crate::ddml::types::Mode;
use crate::ddml::types::put;
use crate::ddml::types::put_u8;
use crate::ddml::types::take;
use crate::ddml::types::take_u8;
use crate::ddml::types::Taken;
use crate::ddml::unwrap;
use crate::ddml::wrap;
use crate::error::Error;
use crate::id::identifier::HASH_SIZE;
use crate::id::identifier::Identifier;
use crate::id::identifier::is_identifier;
use crate::id::identifier::lemma_identifier;
use crate::id::identifier::lemma_identifier_eq;
use crate::id::identifier::lemma_take_put_identifier;
use crate::id::identifier::put_identifier;
use crate::id::identifier::SIGNATURE_SIZE;
use crate::id::identifier::TAG_ED25519;
use crate::id::identifier::take_identifier;
use crate::id::identifier::take_signature;
use crate::id::psk::Psk;
use crate::id::psk::PskId;
use crate::spongos::lemma_squeeze_wf;
use crate::spongos::Sponge;
use crate::spongos::Spongos;

verus! {

/// The signature key pair and the key-exchange key pair of a user, each as
/// the secret key and the public key.
#[derive(Clone, Copy, Debug)]
pub struct KeyPairs {
    pub sig: ([u8; 32], [u8; 32]),
    pub key_exchange: ([u8; 32], [u8; 32]),
}

/// The keys that an identity holds.
#[derive(Clone, Copy, Debug)]
pub enum Keys {
    Keypair(KeyPairs),
    Psk(Psk),
}

/// A participant with their keys.
#[derive(Clone, Copy, Debug)]
pub struct UserIdentity {
    pub id: Identifier,
    pub keys: Keys,
}

/// The secret key that a seed stands for: what a fresh sponge squeezes after
/// a label, the seed and a nonce.
pub open spec fn secret_of_seed(seed: Seq<u8>) -> Seq<u8> {
    Sponge::init().absorb("IOTA Streams Channels user sig keypair".spec_bytes()).absorb(
        seed,
    ).absorb("TANGLEUSERNONCE".spec_bytes()).commit().squeeze(32).1
}

/// The hash that a signature made from the sponge `s` is over.
pub open spec fn signed_hash(s: Sponge) -> Seq<u8> {
    put_u8(s, Mode::Absorb, TAG_ED25519).0.commit().squeeze(HASH_SIZE as nat).1
}

/// The sponge and the wire bytes after a signature has been written: the tag
/// 0 absorbed, a commit, a hash of 64 bytes squeezed from the sponge, and the
/// signature of `secret` over the hash.
pub open spec fn put_signature(s: Sponge, secret: Seq<u8>) -> (Sponge, Seq<u8>) {
    let (s1, a) = put_u8(s, Mode::Absorb, TAG_ED25519);
    let (s2, hash) = s1.commit().squeeze(HASH_SIZE as nat);
    (s2, a + ed25519_sign_spec(secret, hash))
}

/// Number of bytes that a signature takes on the wire, with its tag.
pub open spec fn signature_len() -> nat {
    1 + SIGNATURE_SIZE as nat
}

/// The signature that `secret` makes from the sponge `s` has 64 bytes and
/// verifies under `public`.
pub open spec fn signs(s: Sponge, secret: Seq<u8>, public: Seq<u8>) -> bool {
    let sig = ed25519_sign_spec(secret, signed_hash(s));
    sig.len() == SIGNATURE_SIZE && ed25519_verify_spec(public, sig, signed_hash(s)) == Some(true)
}

/// A signature that verifies is accepted when read back from the sponge that
/// it was written from, and reading leaves the sponge that writing left.
pub proof fn lemma_take_put_signature(s: Sponge, secret: Seq<u8>, public: Seq<u8>, rest: Seq<u8>)
    requires
        s.wf(),
        signs(s, secret, public),
    ensures
        take_signature(s, seq![TAG_ED25519] + public, put_signature(s, secret).1 + rest) == Ok::<
            Taken<()>,
            Error,
        >(Taken { sponge: put_signature(s, secret).0, value: (), rest }),
        put_signature(s, secret).0.wf(),
        put_signature(s, secret).1.len() == signature_len(),
{
    let (s1, a) = put_u8(s, Mode::Absorb, TAG_ED25519);
    let (s2, hash) = s1.commit().squeeze(HASH_SIZE as nat);
    let sig = ed25519_sign_spec(secret, hash);
    let id = seq![TAG_ED25519] + public;
    lemma_take_put_u8(s, Mode::Absorb, TAG_ED25519, sig + rest);
    lemma_squeeze_wf(s1.commit(), HASH_SIZE as nat);
    assert((a + sig) + rest =~= a + (sig + rest));
    assert(id.skip(1) =~= public);
    reveal(put);
    assert(put(s2, Mode::Skip, sig) == (s2, sig));
    lemma_take_put(s2, Mode::Skip, sig, rest);
}

impl Default for UserIdentity {
    /// The identity whose signature key is all zeros.
    fn default() -> (r: UserIdentity)
        ensures
            r.keys is Keypair,
            r.keys->Keypair_0.sig.0@ == Seq::new(32, |i: int| 0u8),
            r.keys->Keypair_0.sig.1@ == ed25519_public_spec(r.keys->Keypair_0.sig.0@),
            r.id == Identifier::Ed25519(r.keys->Keypair_0.sig.1),
    {
        let secret = [0u8; 32];
        assert(secret@ =~= Seq::new(32, |i: int| 0u8));
        UserIdentity::from_secret_key(secret)
    }
}

impl UserIdentity {
    /// The identity whose signature key is `secret`; the other keys are
    /// derived from it.
    pub fn from_secret_key(secret: [u8; 32]) -> (r: UserIdentity)
        ensures
            r.keys is Keypair,
            r.keys->Keypair_0.sig.0@ == secret@,
            r.keys->Keypair_0.sig.1@ == ed25519_public_spec(secret@),
            r.keys->Keypair_0.key_exchange.0@ == x25519_secret_of_ed25519_spec(secret@),
            r.keys->Keypair_0.key_exchange.1@ == x25519_public_spec(
                x25519_secret_of_ed25519_spec(secret@),
            ),
            r.id == Identifier::Ed25519(r.keys->Keypair_0.sig.1),
    {
        let public = ed25519_public_key(&secret);
        let ke_secret = x25519_secret_of_ed25519(&secret);
        let ke_public = x25519_public_key(&ke_secret);
        UserIdentity {
            id: Identifier::Ed25519(public),
            keys: Keys::Keypair(KeyPairs { sig: (secret, public), key_exchange: (ke_secret, ke_public) }),
        }
    }

    /// The identity that `seed` stands for.
    pub fn new(seed: &str) -> (r: UserIdentity)
        ensures
            r.keys is Keypair,
            r.keys->Keypair_0.sig.0@ == secret_of_seed(seed.spec_bytes()),
            r.keys->Keypair_0.sig.1@ == ed25519_public_spec(r.keys->Keypair_0.sig.0@),
            r.keys->Keypair_0.key_exchange.0@ == x25519_secret_of_ed25519_spec(
                r.keys->Keypair_0.sig.0@,
            ),
            r.keys->Keypair_0.key_exchange.1@ == x25519_public_spec(
                r.keys->Keypair_0.key_exchange.0@,
            ),
            r.id == Identifier::Ed25519(r.keys->Keypair_0.sig.1),
    {
        let mut s = Spongos::init();
        s.absorb("IOTA Streams Channels user sig keypair".as_bytes());
        s.absorb(seed.as_bytes());
        s.absorb("TANGLEUSERNONCE".as_bytes());
        s.commit();
        let y = s.squeeze(32);
        UserIdentity::from_secret_key(array_from::<32>(y.as_slice()))
    }

    /// The identity of the holder of a pre-shared key.
    pub fn new_from_psk(pskid: PskId, psk: Psk) -> (r: UserIdentity)
        ensures
            r.id == Identifier::PskId(pskid),
            r.keys == Keys::Psk(psk),
    {
        UserIdentity { id: Identifier::PskId(pskid), keys: Keys::Psk(psk) }
    }

    /// The identifier of the identity.
    pub fn to_identifier(&self) -> (r: Identifier)
        ensures
            r == self.id,
    {
        self.id
    }

    /// The key-exchange key pair, secret key first. An identity that holds a
    /// pre-shared key has none.
    pub fn get_ke_kp(&self) -> (r: Result<([u8; 32], [u8; 32]), Error>)
        ensures
            r == match self.keys {
                Keys::Keypair(kp) => Ok::<([u8; 32], [u8; 32]), Error>(kp.key_exchange),
                Keys::Psk(_) => Err::<([u8; 32], [u8; 32]), Error>(Error::NoSignatureKeyPair),
            },
    {
        match &self.keys {
            Keys::Keypair(kp) => Ok(kp.key_exchange),
            Keys::Psk(_) => Err(Error::NoSignatureKeyPair),
        }
    }

    /// The secret key that signs. An identity that holds a pre-shared key has
    /// none.
    pub fn get_sig_sk(&self) -> (r: Result<[u8; 32], Error>)
        ensures
            r == match self.keys {
                Keys::Keypair(kp) => Ok::<[u8; 32], Error>(kp.sig.0),
                Keys::Psk(_) => Err::<[u8; 32], Error>(Error::NoSignatureKeyPair),
            },
    {
        match &self.keys {
            Keys::Keypair(kp) => Ok(kp.sig.0),
            Keys::Psk(_) => Err(Error::NoSignatureKeyPair),
        }
    }

    /// The key-exchange secret key. An identity that holds a pre-shared key
    /// has none.
    pub fn _ke_sk(&self) -> (r: Option<[u8; 32]>)
        ensures
            r == match self.keys {
                Keys::Keypair(kp) => Some(kp.key_exchange.0),
                Keys::Psk(_) => None,
            },
    {
        match &self.keys {
            Keys::Keypair(kp) => Some(kp.key_exchange.0),
            Keys::Psk(_) => None,
        }
    }

    /// Measures the signature of the identity.
    pub fn sign_sizeof(&self, ctx: &mut sizeof::Context) -> (r: Result<(), Error>)
        ensures
            self.keys is Keypair ==> final(ctx).grown(*old(ctx), signature_len(), r),
            self.keys is Psk ==> r == Err::<(), Error>(Error::NoSignatureKeyPair) && *final(ctx)
                == *old(ctx),
    {
        self.sizeof(ctx)
    }

    /// Measures the signature of the identity.
    pub fn sizeof(&self, ctx: &mut sizeof::Context) -> (r: Result<(), Error>)
        ensures
            self.keys is Keypair ==> final(ctx).grown(*old(ctx), signature_len(), r),
            self.keys is Psk ==> r == Err::<(), Error>(Error::NoSignatureKeyPair) && *final(ctx)
                == *old(ctx),
    {
        match &self.keys {
            Keys::Keypair(_) => ctx.add(1 + SIGNATURE_SIZE),
            Keys::Psk(_) => Err(Error::NoSignatureKeyPair),
        }
    }

    /// Signs what has passed through `ctx` and writes the signature. An
    /// identity that holds a pre-shared key cannot sign.
    pub fn sign(&self, ctx: &mut wrap::Context) -> (r: Result<(), Error>)
        requires
            old(ctx).wf(),
        ensures
            final(ctx).wf(),
            match self.keys {
                Keys::Keypair(kp) => r == Ok::<(), Error>(()) && final(ctx)@ == old(ctx)@.after(
                    put_signature(old(ctx)@.sponge, kp.sig.0@),
                ) && put_signature(old(ctx)@.sponge, kp.sig.0@).1.len() == signature_len(),
                Keys::Psk(_) => r == Err::<(), Error>(Error::NoSignatureKeyPair) && final(ctx)@
                    == old(ctx)@,
            },
    {
        match &self.keys {
            Keys::Keypair(kp) => {
                ctx.put_u8(Mode::Absorb, TAG_ED25519);
                ctx.commit();
                let hash = ctx.squeeze_external(HASH_SIZE);
                let signature = ed25519_sign(&kp.sig.0, hash.as_slice());
                ctx.put(Mode::Skip, signature.as_slice());
                proof {
                    lemma_put_wf(old(ctx)@.sponge, Mode::Absorb, seq![TAG_ED25519]);
                    reveal(put);
                    assert(ctx@.bytes =~= old(ctx)@.after(
                        put_signature(old(ctx)@.sponge, kp.sig.0@),
                    ).bytes);
                }
                Ok(())
            },
            Keys::Psk(_) => Err(Error::NoSignatureKeyPair),
        }
    }

    /// Checks the signature that follows in `ctx` against the identifier of
    /// the identity.
    pub fn verify(&self, ctx: &mut unwrap::Context) -> (r: Result<(), Error>)
        requires
            old(ctx).wf(),
        ensures
            final(ctx)@.follows(take_signature(old(ctx)@.sponge, self.id@, old(ctx)@.bytes), r),
            final(ctx).wf(),
    {
        self.id.verify(ctx)
    }
}

/// The tag of keys that are a key pair.
pub const TAG_KEYPAIR: u8 = 0;

/// The tag of keys that are a pre-shared key.
pub const TAG_PSK_KEYS: u8 = 2;

/// An identity as a value: the identifier, the tag of the keys and the keys
/// one after the other.
pub struct Secrets {
    pub id: Seq<u8>,
    pub tag: u8,
    pub keys: Seq<u8>,
}

impl Secrets {
    /// The identifier is one, and the keys have the length that their tag
    /// asks for: four keys of a key pair, or one pre-shared key.
    pub open spec fn wf(self) -> bool {
        is_identifier(self.id) && keys_len(self.tag) == Some(self.keys.len())
    }

    /// Number of bytes that the identity takes on the wire.
    pub open spec fn len(self) -> nat {
        self.id.len() + 1 + self.keys.len()
    }
}

/// Number of bytes of the keys, if their tag is known.
pub open spec fn keys_len(tag: u8) -> Option<nat> {
    if tag == TAG_KEYPAIR {
        Some(128nat)
    } else if tag == TAG_PSK_KEYS {
        Some(32nat)
    } else {
        None
    }
}

impl View for UserIdentity {
    type V = Secrets;

    open spec fn view(&self) -> Secrets {
        match self.keys {
            Keys::Keypair(kp) => Secrets {
                id: self.id@,
                tag: TAG_KEYPAIR,
                keys: kp.sig.0@ + kp.sig.1@ + kp.key_exchange.0@ + kp.key_exchange.1@,
            },
            Keys::Psk(psk) => Secrets { id: self.id@, tag: TAG_PSK_KEYS, keys: psk@ },
        }
    }
}

/// The sponge and the wire bytes after an identity has passed: the
/// identifier, the tag of the keys, the keys.
pub open spec fn put_identity(s: Sponge, mode: Mode, v: Secrets) -> (Sponge, Seq<u8>) {
    let (s1, a) = put_identifier(s, mode, v.id);
    let (s2, b) = put_u8(s1, mode, v.tag);
    let (s3, c) = put(s2, mode, v.keys);
    (s3, a + b + c)
}

/// Reads an identity.
pub open spec fn take_identity(s: Sponge, mode: Mode, input: Seq<u8>) -> Result<Taken<Secrets>, Error> {
    match take_identifier(s, mode, input) {
        Ok(t) => match take_u8(t.sponge, mode, t.rest) {
            Ok(u) => match keys_len(u.value) {
                Some(n) => match take(u.sponge, mode, u.rest, n) {
                    Ok(v) => Ok(
                        Taken {
                            sponge: v.sponge,
                            value: Secrets { id: t.value, tag: u.value, keys: v.value },
                            rest: v.rest,
                        },
                    ),
                    Err(e) => Err(e),
                },
                None => Err(Error::BadOneof),
            },
            Err(e) => Err(e),
        },
        Err(e) => Err(e),
    }
}

/// An identity read back.
pub proof fn lemma_take_put_identity(s: Sponge, mode: Mode, v: Secrets, rest: Seq<u8>)
    requires
        s.wf(),
        v.wf(),
    ensures
        take_identity(s, mode, put_identity(s, mode, v).1 + rest) == Ok::<Taken<Secrets>, Error>(
            Taken { sponge: put_identity(s, mode, v).0, value: v, rest },
        ),
        put_identity(s, mode, v).0.wf(),
        put_identity(s, mode, v).1.len() == v.len(),
{
    let (s1, a) = put_identifier(s, mode, v.id);
    let (s2, b) = put_u8(s1, mode, v.tag);
    let (s3, c) = put(s2, mode, v.keys);
    lemma_take_put_identifier(s, mode, v.id, b + c + rest);
    lemma_take_put_u8(s1, mode, v.tag, c + rest);
    lemma_put_wf(s2, mode, v.keys);
    lemma_take_put(s2, mode, v.keys, rest);
    assert((a + b + c) + rest =~= a + (b + c + rest));
    assert(b + c + rest =~= b + (c + rest));
}

/// Identities with the same view are the same.
pub proof fn lemma_identity_eq(a: UserIdentity, b: UserIdentity)
    requires
        a@ == b@,
    ensures
        a == b,
{
    lemma_identifier_eq(a.id, b.id);
    match (a.keys, b.keys) {
        (Keys::Keypair(x), Keys::Keypair(y)) => {
            let p = a@.keys;
            assert(x.sig.0@ =~= p.subrange(0, 32));
            assert(y.sig.0@ =~= p.subrange(0, 32));
            assert(x.sig.1@ =~= p.subrange(32, 64));
            assert(y.sig.1@ =~= p.subrange(32, 64));
            assert(x.key_exchange.0@ =~= p.subrange(64, 96));
            assert(y.key_exchange.0@ =~= p.subrange(64, 96));
            assert(x.key_exchange.1@ =~= p.subrange(96, 128));
            assert(y.key_exchange.1@ =~= p.subrange(96, 128));
            assert(x.sig.0 =~= y.sig.0);
            assert(x.sig.1 =~= y.sig.1);
            assert(x.key_exchange.0 =~= y.key_exchange.0);
            assert(x.key_exchange.1 =~= y.key_exchange.1);
        },
        (Keys::Psk(x), Keys::Psk(y)) => {
            assert(x.bytes =~= y.bytes);
        },
        _ => {},
    }
}

impl UserIdentity {
    /// The identity is well formed as a value.
    pub proof fn lemma_wf(&self)
        ensures
            self@.wf(),
            self@.len() <= 162,
    {
        lemma_identifier(self.id);
        match self.keys {
            Keys::Keypair(kp) => {
                assert(kp.sig.0@.len() == 32);
                assert(kp.sig.1@.len() == 32);
                assert(kp.key_exchange.0@.len() == 32);
                assert(kp.key_exchange.1@.len() == 32);
            },
            Keys::Psk(psk) => {
                assert(psk@.len() == 32);
            },
        }
    }

    /// The keys one after the other.
    pub fn key_bytes(&self) -> (r: Vec<u8>)
        ensures
            r@ == self@.keys,
    {
        let mut r: Vec<u8> = Vec::new();
        match &self.keys {
            Keys::Keypair(kp) => {
                crate::ddml::types::append(&mut r, kp.sig.0.as_slice());
                crate::ddml::types::append(&mut r, kp.sig.1.as_slice());
                crate::ddml::types::append(&mut r, kp.key_exchange.0.as_slice());
                crate::ddml::types::append(&mut r, kp.key_exchange.1.as_slice());
                assert(r@ =~= self@.keys);
            },
            Keys::Psk(psk) => {
                let b = psk.to_bytes();
                crate::ddml::types::append(&mut r, b.as_slice());
                assert(r@ =~= self@.keys);
            },
        }
        r
    }

    /// Measures the identity with its keys.
    pub fn sizeof_secrets(&self, ctx: &mut sizeof::Context) -> (r: Result<(), Error>)
        ensures
            final(ctx).grown(*old(ctx), self@.len(), r),
    {
        self.id.sizeof(ctx)?;
        let k = self.key_bytes();
        proof {
            self.lemma_wf();
        }
        ctx.add(1 + k.len())
    }

    /// Writes the identity with its keys.
    pub fn wrap_secrets(&self, ctx: &mut wrap::Context, mode: Mode)
        requires
            old(ctx).wf(),
        ensures
            final(ctx)@ == old(ctx)@.after(put_identity(old(ctx)@.sponge, mode, self@)),
            final(ctx).wf(),
    {
        self.id.wrap(ctx, mode);
        let tag = match &self.keys {
            Keys::Keypair(_) => TAG_KEYPAIR,
            Keys::Psk(_) => TAG_PSK_KEYS,
        };
        ctx.put_u8(mode, tag);
        let k = self.key_bytes();
        ctx.put(mode, k.as_slice());
        assert(ctx@.bytes =~= old(ctx)@.after(put_identity(old(ctx)@.sponge, mode, self@)).bytes);
    }

    /// Reads an identity with its keys.
    pub fn unwrap_secrets(ctx: &mut unwrap::Context, mode: Mode) -> (r: Result<UserIdentity, Error>)
        requires
            old(ctx).wf(),
        ensures
            final(ctx)@.follows(
                take_identity(old(ctx)@.sponge, mode, old(ctx)@.bytes),
                crate::ddml::unwrap::viewed(r),
            ),
            final(ctx).wf(),
    {
        let id = Identifier::unwrap(ctx, mode)?;
        let tag = ctx.take_u8(mode)?;
        if tag == TAG_KEYPAIR {
            let k = ctx.take(mode, 128)?;
            let sig_secret = array_from::<32>(vstd::slice::slice_subrange(k.as_slice(), 0, 32));
            let sig_public = array_from::<32>(vstd::slice::slice_subrange(k.as_slice(), 32, 64));
            let ke_secret = array_from::<32>(vstd::slice::slice_subrange(k.as_slice(), 64, 96));
            let ke_public = array_from::<32>(vstd::slice::slice_subrange(k.as_slice(), 96, 128));
            let r = UserIdentity {
                id,
                keys: Keys::Keypair(
                    KeyPairs { sig: (sig_secret, sig_public), key_exchange: (ke_secret, ke_public) },
                ),
            };
            assert(r@.keys =~= k@);
            Ok(r)
        } else if tag == TAG_PSK_KEYS {
            let k = ctx.take(mode, 32)?;
            Ok(UserIdentity { id, keys: Keys::Psk(Psk::new(array_from::<32>(k.as_slice()))) })
        } else {
            Err(Error::BadOneof)
        }
    }
}

} // verus!
