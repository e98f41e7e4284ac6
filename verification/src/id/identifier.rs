//! The public handle of a participant.

use vstd::prelude::*;
use crate::crypto::ed25519_verify;
use crate::crypto::ed25519_verify_spec;
use crate::crypto::x25519_public_of_ed25519;
use crate::crypto::x25519_public_of_ed25519_spec;
use crate::ddml::sizeof;
use crate::ddml::types::array_from;
use crate::ddml::types::lemma_put_wf;
use crate::ddml::types::lemma_take_put;
use crate::ddml::types::lemma_take_put_u8;
use crate::ddml::types::Mode;
use crate::ddml::types::put;
use crate::ddml::types::put_u8;
use crate::ddml::types::same_bytes;
use crate::ddml::types::take;
use crate::ddml::types::take_u8;
use crate::ddml::types::Taken;
use crate::ddml::unwrap;
use crate::ddml::unwrap::viewed;
use crate::ddml::wrap;
use crate::error::Error;
use crate::id::psk::PskId;
use crate::spongos::Sponge;

verus! {

/// The tag of an identifier that is an Ed25519 public key.
pub const TAG_ED25519: u8 = 0;

/// The tag of an identifier that is the method id of a decentralized
/// identifier.
pub const TAG_DID: u8 = 1;

/// The tag of an identifier that is the identifier of a pre-shared key.
pub const TAG_PSK: u8 = 2;

/// Number of bytes of a signature.
pub const SIGNATURE_SIZE: usize = 64;

/// Number of bytes of the hash that is signed.
pub const HASH_SIZE: usize = 64;

/// The public handle of a participant. Its view is the tag followed by the
/// content; identifiers are equal where their views are, and ordered as their
/// views are, byte by byte.
#[derive(Clone, Copy, Debug, PartialEq, Eq, PartialOrd, Ord, Hash)]
pub enum Identifier {
    /// An Ed25519 public key.
    Ed25519([u8; 32]),
    /// The method id of a decentralized identifier.
    DID([u8; 32]),
    /// The identifier of a pre-shared key.
    PskId(PskId),
}

impl View for Identifier {
    type V = Seq<u8>;

    open spec fn view(&self) -> Seq<u8> {
        match self {
            Identifier::Ed25519(key) => seq![TAG_ED25519] + key@,
            Identifier::DID(method_id) => seq![TAG_DID] + method_id@,
            Identifier::PskId(pskid) => seq![TAG_PSK] + pskid@,
        }
    }
}

/// As many zero bytes.
pub open spec fn zeros(n: nat) -> Seq<u8> {
    Seq::new(n, |i: int| 0u8)
}

/// The view of the identifier that stands where none has been read yet: the
/// Ed25519 key of 32 zero bytes.
pub open spec fn default_identifier() -> Seq<u8> {
    seq![TAG_ED25519] + zeros(32)
}

impl Default for Identifier {
    /// The identifier that stands where none has been read yet.
    fn default() -> (r: Identifier)
        ensures
            r@ == default_identifier(),
            r is Ed25519,
    {
        let key = [0u8; 32];
        assert(key@ =~= zeros(32));
        Identifier::Ed25519(key)
    }
}

/// Number of bytes that follow the tag, if the tag is known.
pub open spec fn content_len(tag: u8) -> Option<nat> {
    if tag == TAG_ED25519 || tag == TAG_DID {
        Some(32nat)
    } else if tag == TAG_PSK {
        Some(16nat)
    } else {
        None
    }
}

/// The bytes are the view of an identifier.
pub open spec fn is_identifier(id: Seq<u8>) -> bool {
    id.len() >= 1 && content_len(id[0]) == Some((id.len() - 1) as nat)
}

/// The sponge and the wire bytes after an identifier has passed: the tag,
/// then the content.
pub open spec fn put_identifier(s: Sponge, mode: Mode, id: Seq<u8>) -> (Sponge, Seq<u8>) {
    let (s1, a) = put_u8(s, mode, id[0]);
    let (s2, b) = put(s1, mode, id.skip(1));
    (s2, a + b)
}

/// Reads an identifier. An unknown tag is refused.
pub open spec fn take_identifier(s: Sponge, mode: Mode, input: Seq<u8>) -> Result<
    Taken<Seq<u8>>,
    Error,
> {
    match take_u8(s, mode, input) {
        Ok(t) => match content_len(t.value) {
            Some(n) => match take(t.sponge, mode, t.rest, n) {
                Ok(u) => Ok(Taken { sponge: u.sponge, value: seq![t.value] + u.value, rest: u.rest }),
                Err(e) => Err(e),
            },
            None => Err(Error::BadOneof),
        },
        Err(e) => Err(e),
    }
}

/// An identifier read back.
pub proof fn lemma_take_put_identifier(s: Sponge, mode: Mode, id: Seq<u8>, rest: Seq<u8>)
    requires
        s.wf(),
        is_identifier(id),
    ensures
        take_identifier(s, mode, put_identifier(s, mode, id).1 + rest) == Ok::<
            Taken<Seq<u8>>,
            Error,
        >(Taken { sponge: put_identifier(s, mode, id).0, value: id, rest }),
        put_identifier(s, mode, id).0.wf(),
        put_identifier(s, mode, id).1.len() == id.len(),
{
    let (s1, a) = put_u8(s, mode, id[0]);
    let (s2, b) = put(s1, mode, id.skip(1));
    lemma_take_put_u8(s, mode, id[0], b + rest);
    lemma_put_wf(s1, mode, id.skip(1));
    assert((a + b) + rest =~= a + (b + rest));
    lemma_take_put(s1, mode, id.skip(1), rest);
    assert(seq![id[0]] + id.skip(1) =~= id);
}

/// The sponge and the wire bytes after a signature check has passed, or why
/// it has not: the tag 0, then a commit, a hash of 64 bytes squeezed from the
/// sponge, and 64 bytes that must be a signature over the hash under the
/// Ed25519 key that `id` holds.
pub open spec fn take_signature(s: Sponge, id: Seq<u8>, input: Seq<u8>) -> Result<Taken<()>, Error> {
    match take_u8(s, Mode::Absorb, input) {
        Ok(t) => if t.value == TAG_ED25519 {
            if id[0] != TAG_ED25519 {
                Err(Error::BadIdentifier)
            } else {
                let (s1, hash) = t.sponge.commit().squeeze(HASH_SIZE as nat);
                match take(s1, Mode::Skip, t.rest, SIGNATURE_SIZE as nat) {
                    Ok(u) => match ed25519_verify_spec(id.skip(1), u.value, hash) {
                        Some(valid) => if valid {
                            Ok(Taken { sponge: u.sponge, value: (), rest: u.rest })
                        } else {
                            Err(Error::BadSignature)
                        },
                        None => Err(Error::BadIdentifier),
                    },
                    Err(e) => Err(e),
                }
            }
        } else if t.value == TAG_DID {
            Err(Error::NotSupported)
        } else {
            Err(Error::BadOneof)
        },
        Err(e) => Err(e),
    }
}

impl Identifier {
    /// The tag of the identifier.
    pub fn tag(&self) -> (r: u8)
        ensures
            r == self@[0],
            content_len(r) == Some((self@.len() - 1) as nat),
            is_identifier(self@),
    {
        match self {
            Identifier::Ed25519(key) => {
                assert(key@.len() == 32);
                TAG_ED25519
            },
            Identifier::DID(method_id) => {
                assert(method_id@.len() == 32);
                TAG_DID
            },
            Identifier::PskId(pskid) => {
                assert(pskid@.len() == 16);
                TAG_PSK
            },
        }
    }

    /// The bytes that follow the tag.
    pub fn content(&self) -> (r: Vec<u8>)
        ensures
            r@ == self@.skip(1),
    {
        let r = match self {
            Identifier::Ed25519(key) => vstd::slice::slice_to_vec(key.as_slice()),
            Identifier::DID(method_id) => vstd::slice::slice_to_vec(method_id.as_slice()),
            Identifier::PskId(pskid) => {
                let b = pskid.to_bytes();
                vstd::slice::slice_to_vec(b.as_slice())
            },
        };
        assert(r@ =~= self@.skip(1));
        r
    }

    /// The tag followed by the content.
    pub fn to_bytes(&self) -> (r: Vec<u8>)
        ensures
            r@ == self@,
            is_identifier(r@),
    {
        let mut r: Vec<u8> = Vec::new();
        r.push(self.tag());
        let c = self.content();
        crate::ddml::types::append(&mut r, c.as_slice());
        assert(r@ =~= self@);
        r
    }

    /// The identifier with this tag and content, if the tag is known and the
    /// content has the length that the tag asks for.
    pub fn from_parts(tag: u8, content: &[u8]) -> (r: Option<Identifier>)
        ensures
            r is Some <==> content_len(tag) == Some(content@.len()),
            r is Some ==> r->0@ == seq![tag] + content@,
    {
        if tag == TAG_ED25519 && content.len() == 32 {
            Some(Identifier::Ed25519(array_from::<32>(content)))
        } else if tag == TAG_DID && content.len() == 32 {
            Some(Identifier::DID(array_from::<32>(content)))
        } else if tag == TAG_PSK && content.len() == 16 {
            Some(Identifier::PskId(PskId::new(array_from::<16>(content))))
        } else {
            None
        }
    }

    /// Whether two identifiers are the same.
    pub fn same(&self, other: &Identifier) -> (r: bool)
        ensures
            r == (self@ == other@),
    {
        let a = self.to_bytes();
        let b = other.to_bytes();
        same_bytes(a.as_slice(), b.as_slice())
    }

    /// The X25519 public key that belongs to the identifier, where it is an
    /// Ed25519 key that converts to one.
    pub fn _ke_pk(&self) -> (r: Option<[u8; 32]>)
        ensures
            self@[0] != TAG_ED25519 ==> r is None,
            self@[0] == TAG_ED25519 ==> (r is Some <==> x25519_public_of_ed25519_spec(
                self@.skip(1),
            ) is Some),
            self@[0] == TAG_ED25519 && r is Some ==> r->0@ == x25519_public_of_ed25519_spec(
                self@.skip(1),
            )->0,
    {
        match self {
            Identifier::Ed25519(key) => {
                assert(self@.skip(1) =~= key@);
                x25519_public_of_ed25519(key)
            },
            _ => None,
        }
    }

    /// Measures the identifier.
    pub fn sizeof(&self, ctx: &mut sizeof::Context) -> (r: Result<(), Error>)
        ensures
            final(ctx).grown(*old(ctx), self@.len(), r),
    {
        let t = self.tag();
        let c = self.content();
        ctx.add(1 + c.len())
    }

    /// Writes the identifier.
    pub fn wrap(&self, ctx: &mut wrap::Context, mode: Mode)
        requires
            old(ctx).wf(),
        ensures
            final(ctx)@ == old(ctx)@.after(put_identifier(old(ctx)@.sponge, mode, self@)),
            final(ctx).wf(),
    {
        ctx.put_u8(mode, self.tag());
        let c = self.content();
        ctx.put(mode, c.as_slice());
        assert(ctx@.bytes =~= old(ctx)@.after(put_identifier(old(ctx)@.sponge, mode, self@)).bytes);
    }

    /// Reads an identifier.
    pub fn unwrap(ctx: &mut unwrap::Context, mode: Mode) -> (r: Result<Identifier, Error>)
        requires
            old(ctx).wf(),
        ensures
            final(ctx)@.follows(
                take_identifier(old(ctx)@.sponge, mode, old(ctx)@.bytes),
                viewed(r),
            ),
            final(ctx).wf(),
    {
        let tag = ctx.take_u8(mode)?;
        let n: usize = if tag == TAG_ED25519 || tag == TAG_DID {
            32
        } else if tag == TAG_PSK {
            16
        } else {
            return Err(Error::BadOneof);
        };
        let c = ctx.take(mode, n)?;
        match Identifier::from_parts(tag, c.as_slice()) {
            Some(id) => Ok(id),
            None => Err(Error::BadOneof),
        }
    }

    /// Checks the signature that follows in `ctx` against the identifier.
    pub fn verify(&self, ctx: &mut unwrap::Context) -> (r: Result<(), Error>)
        requires
            old(ctx).wf(),
        ensures
            final(ctx)@.follows(take_signature(old(ctx)@.sponge, self@, old(ctx)@.bytes), r),
            final(ctx).wf(),
    {
        let tag = ctx.take_u8(Mode::Absorb)?;
        if tag == TAG_ED25519 {
            match self {
                Identifier::Ed25519(key) => {
                    assert(self@.skip(1) =~= key@);
                    ctx.commit();
                    let hash = ctx.squeeze_external(HASH_SIZE);
                    let sig = ctx.take(Mode::Skip, SIGNATURE_SIZE)?;
                    let signature = array_from::<64>(sig.as_slice());
                    check_signature(ed25519_verify(key, &signature, hash.as_slice()))
                },
                _ => Err(Error::BadIdentifier),
            }
        } else if tag == TAG_DID {
            Err(Error::NotSupported)
        } else {
            Err(Error::BadOneof)
        }
    }
}

/// What a signature check comes to: success where the signature verified,
/// `BadSignature` where it did not, `BadIdentifier` where the identifier held
/// no key.
pub fn check_signature(verdict: Option<bool>) -> (r: Result<(), Error>)
    ensures
        r == match verdict {
            Some(valid) => if valid {
                Ok::<(), Error>(())
            } else {
                Err::<(), Error>(Error::BadSignature)
            },
            None => Err::<(), Error>(Error::BadIdentifier),
        },
{
    match verdict {
        Some(true) => Ok(()),
        Some(false) => Err(Error::BadSignature),
        None => Err(Error::BadIdentifier),
    }
}

/// The view of an identifier is the tag and as many bytes as the tag asks
/// for.
pub proof fn lemma_identifier(id: Identifier)
    ensures
        is_identifier(id@),
        id@.len() <= 33,
{
    match id {
        Identifier::Ed25519(key) => {
            assert(key@.len() == 32);
        },
        Identifier::DID(method_id) => {
            assert(method_id@.len() == 32);
        },
        Identifier::PskId(pskid) => {
            assert(pskid@.len() == 16);
        },
    }
}

/// Identifiers with the same view are the same.
pub proof fn lemma_identifier_eq(a: Identifier, b: Identifier)
    requires
        a@ == b@,
    ensures
        a == b,
{
    lemma_identifier(a);
    lemma_identifier(b);
    assert(a@[0] == b@[0]);
    match (a, b) {
        (Identifier::Ed25519(x), Identifier::Ed25519(y)) => {
            assert(x@ =~= a@.skip(1));
            assert(y@ =~= b@.skip(1));
            assert(x =~= y);
        },
        (Identifier::DID(x), Identifier::DID(y)) => {
            assert(x@ =~= a@.skip(1));
            assert(y@ =~= b@.skip(1));
            assert(x =~= y);
        },
        (Identifier::PskId(x), Identifier::PskId(y)) => {
            assert(x@ =~= a@.skip(1));
            assert(y@ =~= b@.skip(1));
            assert(x.bytes =~= y.bytes);
        },
        _ => {
            assert(a@[0] != b@[0]);
        },
    }
}

/// Whether the bytes are the view of an identifier.
pub fn is_identifier_bytes(k: &[u8]) -> (r: bool)
    ensures
        r == is_identifier(k@),
{
    if k.len() == 0 {
        return false;
    }
    let tag = k[0];
    if tag == TAG_ED25519 || tag == TAG_DID {
        k.len() == 33
    } else if tag == TAG_PSK {
        k.len() == 17
    } else {
        false
    }
}

} // verus!
