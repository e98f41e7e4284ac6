//! Sealing a key for the holder of an X25519 secret key.

use vstd::prelude::*;
use crate::crypto::x25519_diffie_hellman;
use crate::crypto::x25519_public_key;
use crate::crypto::x25519_public_spec;
use crate::crypto::x25519_shared_spec;
use crate::ddml::types::array_from;
use crate::ddml::types::lemma_put_wf;
use crate::ddml::types::lemma_take_put;
use crate::ddml::types::Mode;
use crate::ddml::types::put;
use crate::ddml::types::take;
use crate::ddml::types::Taken;
use crate::ddml::unwrap;
use crate::ddml::wrap;
use crate::error::Error;
use crate::spongos::lemma_absorb_wf;
use crate::spongos::Sponge;

verus! {

/// Number of bytes of a key.
pub const KEY_SIZE: usize = 32;

/// Number of bytes that a sealed key takes on the wire: the ephemeral public
/// key and the masked key.
pub open spec fn sealed_len() -> nat {
    64
}

/// The sponge and the wire bytes after `key` has been sealed for the holder
/// of `recipient`'s secret key: the public key of `ephemeral` absorbed, the
/// secret that `ephemeral` shares with `recipient` absorbed without being
/// written, a commit, and the key masked.
pub open spec fn put_sealed(s: Sponge, ephemeral: Seq<u8>, recipient: Seq<u8>, key: Seq<u8>) -> (
    Sponge,
    Seq<u8>,
) {
    let (s1, a) = put(s, Mode::Absorb, x25519_public_spec(ephemeral));
    let s2 = s1.absorb(x25519_shared_spec(ephemeral, recipient)).commit();
    let (s3, b) = put(s2, Mode::Mask, key);
    (s3, a + b)
}

/// Opens a sealed key with `secret`.
pub open spec fn take_sealed(s: Sponge, secret: Seq<u8>, input: Seq<u8>) -> Result<
    Taken<Seq<u8>>,
    Error,
> {
    match take(s, Mode::Absorb, input, KEY_SIZE as nat) {
        Ok(t) => take(
            t.sponge.absorb(x25519_shared_spec(secret, t.value)).commit(),
            Mode::Mask,
            t.rest,
            KEY_SIZE as nat,
        ),
        Err(e) => Err(e),
    }
}

/// The public key of `ephemeral` has 32 bytes, and `ephemeral` shares with
/// `public` the secret that `secret` shares with the public key of
/// `ephemeral`.
pub open spec fn agree(ephemeral: Seq<u8>, secret: Seq<u8>, public: Seq<u8>) -> bool {
    x25519_public_spec(ephemeral).len() == KEY_SIZE && x25519_shared_spec(ephemeral, public)
        == x25519_shared_spec(secret, x25519_public_spec(ephemeral))
}

/// A key sealed for `public` is opened by `secret` where the two parties
/// agree on the shared secret, and opening leaves the sponge that sealing
/// left.
pub proof fn lemma_take_put_sealed(
    s: Sponge,
    ephemeral: Seq<u8>,
    secret: Seq<u8>,
    public: Seq<u8>,
    key: Seq<u8>,
    rest: Seq<u8>,
)
    requires
        s.wf(),
        key.len() == KEY_SIZE,
        agree(ephemeral, secret, public),
    ensures
        take_sealed(s, secret, put_sealed(s, ephemeral, public, key).1 + rest) == Ok::<
            Taken<Seq<u8>>,
            Error,
        >(Taken { sponge: put_sealed(s, ephemeral, public, key).0, value: key, rest }),
        put_sealed(s, ephemeral, public, key).0.wf(),
        put_sealed(s, ephemeral, public, key).1.len() == sealed_len(),
{
    let pk = x25519_public_spec(ephemeral);
    let (s1, a) = put(s, Mode::Absorb, pk);
    let s2 = s1.absorb(x25519_shared_spec(ephemeral, public)).commit();
    let (s3, b) = put(s2, Mode::Mask, key);
    lemma_put_wf(s, Mode::Absorb, pk);
    lemma_absorb_wf(s1, x25519_shared_spec(ephemeral, public));
    lemma_put_wf(s2, Mode::Mask, key);
    assert((a + b) + rest =~= a + (b + rest));
    lemma_take_put(s, Mode::Absorb, pk, b + rest);
    lemma_take_put(s2, Mode::Mask, key, rest);
}

/// Seals `key` for the holder of the secret key of `recipient`.
pub fn seal(ctx: &mut wrap::Context, ephemeral: &[u8; 32], recipient: &[u8; 32], key: &[u8; 32])
    requires
        old(ctx).wf(),
    ensures
        final(ctx)@ == old(ctx)@.after(put_sealed(old(ctx)@.sponge, ephemeral@, recipient@, key@)),
        put_sealed(old(ctx)@.sponge, ephemeral@, recipient@, key@).1.len() == sealed_len(),
        final(ctx).wf(),
{
    let public = x25519_public_key(ephemeral);
    let shared = x25519_diffie_hellman(ephemeral, recipient);
    proof {
        lemma_put_wf(ctx@.sponge, Mode::Absorb, public@);
    }
    ctx.put(Mode::Absorb, public.as_slice());
    ctx.absorb_external(shared.as_slice());
    ctx.commit();
    proof {
        lemma_put_wf(ctx@.sponge, Mode::Mask, key@);
    }
    ctx.put(Mode::Mask, key.as_slice());
    assert(ctx@.bytes =~= old(ctx)@.after(
        put_sealed(old(ctx)@.sponge, ephemeral@, recipient@, key@),
    ).bytes);
}

/// Opens a sealed key with `secret`.
pub fn unseal(ctx: &mut unwrap::Context, secret: &[u8; 32]) -> (r: Result<[u8; 32], Error>)
    requires
        old(ctx).wf(),
    ensures
        final(ctx)@.follows(
            take_sealed(old(ctx)@.sponge, secret@, old(ctx)@.bytes),
            crate::ddml::unwrap::viewed(r),
        ),
        final(ctx).wf(),
{
    let public = ctx.take(Mode::Absorb, KEY_SIZE)?;
    let public = array_from::<32>(public.as_slice());
    let shared = x25519_diffie_hellman(secret, &public);
    ctx.absorb_external(shared.as_slice());
    ctx.commit();
    let key = ctx.take(Mode::Mask, KEY_SIZE)?;
    Ok(array_from::<32>(key.as_slice()))
}

} // verus!
