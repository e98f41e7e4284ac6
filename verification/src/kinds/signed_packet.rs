//! A payload signed by its publisher: bound to an earlier message, it holds
//! a public part and a masked part.

use vstd::prelude::*;
use crate::ddml::sizeof;
use crate::ddml::types::bytes_len;
use crate::ddml::types::lemma_take_put_bytes;
use crate::ddml::types::lemma_take_put_masked;
use crate::ddml::types::Mode;
use crate::ddml::types::put_bytes;
use crate::ddml::types::put_masked;
use crate::ddml::types::take_bytes;
use crate::ddml::types::take_masked;
use crate::ddml::types::Taken;
use crate::ddml::unwrap;
use crate::ddml::wrap;
use crate::error::Error;
use crate::id::identifier::Identifier;
use crate::id::identifier::TAG_ED25519;
use crate::id::identifier::take_signature;
use crate::id::identity::Keys;
use crate::id::identity::lemma_take_put_signature;
use crate::id::identity::put_signature;
use crate::id::identity::signature_len;
use crate::id::identity::signs;
use crate::id::identity::UserIdentity;
use crate::message::content::ContentWrap;
use crate::spongos::lemma_join_wf;
use crate::spongos::Sponge;
use crate::spongos::Spongos;

verus! {

/// The two parts of a payload.
pub struct Payload {
    pub public: Seq<u8>,
    pub masked: Seq<u8>,
}

/// Number of bytes that a payload takes on the wire.
pub open spec fn payload_len(p: Payload) -> nat {
    bytes_len(p.public) + bytes_len(p.masked)
}

/// The sponge and the wire bytes after a payload has passed: the sponge of
/// the linked message joined, the public part absorbed, the masked part
/// masked behind its absorbed length, and a commit.
pub open spec fn put_payload(s: Sponge, initial: Sponge, p: Payload) -> (Sponge, Seq<u8>) {
    let (s1, x) = put_bytes(s.join(initial), Mode::Absorb, p.public);
    let (s2, y) = put_masked(s1, p.masked);
    (s2.commit(), x + y)
}

/// Reads a payload linked to the message whose sponge is `initial`.
pub open spec fn take_payload(s: Sponge, initial: Sponge, input: Seq<u8>) -> Result<
    Taken<Payload>,
    Error,
> {
    match take_bytes(s.join(initial), Mode::Absorb, input) {
        Ok(t) => match take_masked(t.sponge, t.rest) {
            Ok(u) => Ok(
                Taken {
                    sponge: u.sponge.commit(),
                    value: Payload { public: t.value, masked: u.value },
                    rest: u.rest,
                },
            ),
            Err(e) => Err(e),
        },
        Err(e) => Err(e),
    }
}

/// A payload read back against the same linked sponge.
pub proof fn lemma_take_put_payload(s: Sponge, initial: Sponge, p: Payload, rest: Seq<u8>)
    requires
        s.wf(),
        initial.wf(),
        p.public.len() <= u64::MAX,
        p.masked.len() <= u64::MAX,
    ensures
        take_payload(s, initial, put_payload(s, initial, p).1 + rest) == Ok::<Taken<Payload>, Error>(
            Taken { sponge: put_payload(s, initial, p).0, value: p, rest },
        ),
        put_payload(s, initial, p).0.wf(),
        put_payload(s, initial, p).1.len() == payload_len(p),
{
    lemma_join_wf(s, initial);
    let (s1, x) = put_bytes(s.join(initial), Mode::Absorb, p.public);
    let (s2, y) = put_masked(s1, p.masked);
    lemma_take_put_bytes(s.join(initial), Mode::Absorb, p.public, y + rest);
    lemma_take_put_masked(s1, p.masked, rest);
    assert((x + y) + rest =~= x + (y + rest));
}

/// The sponge and the wire bytes after a signed packet has passed: the
/// payload, then the publisher's signature.
pub open spec fn put_signed_packet(s: Sponge, initial: Sponge, p: Payload, secret: Seq<u8>) -> (
    Sponge,
    Seq<u8>,
) {
    let (s1, x) = put_payload(s, initial, p);
    let (s2, y) = put_signature(s1, secret);
    (s2, x + y)
}

/// Reads a signed packet linked to the message whose sponge is `initial` and
/// checks the signature of `publisher`.
pub open spec fn take_signed_packet(
    s: Sponge,
    initial: Sponge,
    publisher: Seq<u8>,
    input: Seq<u8>,
) -> Result<Taken<Payload>, Error> {
    match take_payload(s, initial, input) {
        Ok(t) => match take_signature(t.sponge, publisher, t.rest) {
            Ok(u) => Ok(Taken { sponge: u.sponge, value: t.value, rest: u.rest }),
            Err(e) => Err(e),
        },
        Err(e) => Err(e),
    }
}

/// Number of bytes that a signed packet takes on the wire.
pub open spec fn signed_packet_len(p: Payload) -> nat {
    payload_len(p) + signature_len()
}

/// A signed packet whose signature verifies is read back as it was written,
/// against the same linked sponge, and reading leaves the sponge that
/// writing left.
pub proof fn lemma_take_put_signed_packet(
    s: Sponge,
    initial: Sponge,
    p: Payload,
    secret: Seq<u8>,
    public: Seq<u8>,
    rest: Seq<u8>,
)
    requires
        s.wf(),
        initial.wf(),
        p.public.len() <= u64::MAX,
        p.masked.len() <= u64::MAX,
        signs(put_payload(s, initial, p).0, secret, public),
    ensures
        take_signed_packet(
            s,
            initial,
            seq![TAG_ED25519] + public,
            put_signed_packet(s, initial, p, secret).1 + rest,
        ) == Ok::<Taken<Payload>, Error>(
            Taken { sponge: put_signed_packet(s, initial, p, secret).0, value: p, rest },
        ),
        put_signed_packet(s, initial, p, secret).1.len() == signed_packet_len(p),
{
    let (s1, x) = put_payload(s, initial, p);
    let (s2, y) = put_signature(s1, secret);
    lemma_take_put_payload(s, initial, p, y + rest);
    lemma_take_put_signature(s1, secret, public, rest);
    assert((x + y) + rest =~= x + (y + rest));
}

/// Measures a payload.
pub fn sizeof_payload(ctx: &mut sizeof::Context, public: &[u8], masked: &[u8]) -> (r: Result<
    (),
    Error,
>)
    ensures
        final(ctx).grown(*old(ctx), payload_len(Payload { public: public@, masked: masked@ }), r),
{
    ctx.add_bytes(public)?;
    ctx.add_bytes(masked)
}

/// Writes a payload linked to the message whose sponge is `initial`.
pub fn wrap_payload(ctx: &mut wrap::Context, initial: &Spongos, public: &[u8], masked: &[u8])
    requires
        old(ctx).wf(),
        initial.wf(),
    ensures
        final(ctx)@ == old(ctx)@.after(
            put_payload(old(ctx)@.sponge, initial@, Payload { public: public@, masked: masked@ }),
        ),
        put_payload(
            old(ctx)@.sponge,
            initial@,
            Payload { public: public@, masked: masked@ },
        ).1.len() == payload_len(Payload { public: public@, masked: masked@ }),
        final(ctx).wf(),
{
    let public_len: usize = public.len();
    let masked_len: usize = masked.len();
    proof {
        lemma_take_put_payload(
            ctx@.sponge,
            initial@,
            Payload { public: public@, masked: masked@ },
            Seq::empty(),
        );
    }
    ctx.join(initial);
    ctx.put_bytes(Mode::Absorb, public);
    ctx.put_masked(masked);
    ctx.commit();
    assert(ctx@.bytes =~= old(ctx)@.after(
        put_payload(old(ctx)@.sponge, initial@, Payload { public: public@, masked: masked@ }),
    ).bytes);
}

/// Reads a payload linked to the message whose sponge is `initial`: the
/// public part and the masked part.
pub fn unwrap_payload(ctx: &mut unwrap::Context, initial: &Spongos) -> (r: Result<
    (Vec<u8>, Vec<u8>),
    Error,
>)
    requires
        old(ctx).wf(),
        initial.wf(),
    ensures
        final(ctx)@.follows(
            take_payload(old(ctx)@.sponge, initial@, old(ctx)@.bytes),
            match r {
                Ok(p) => Ok::<Payload, Error>(Payload { public: p.0@, masked: p.1@ }),
                Err(e) => Err::<Payload, Error>(e),
            },
        ),
        final(ctx).wf(),
{
    ctx.join(initial);
    let public = ctx.take_bytes(Mode::Absorb)?;
    let masked = ctx.take_masked()?;
    ctx.commit();
    Ok((public, masked))
}

/// The signed packet that a publisher writes.
pub struct Wrap<'a> {
    initial_state: Spongos,
    user_id: UserIdentity,
    public_payload: &'a [u8],
    masked_payload: &'a [u8],
}

impl<'a> Wrap<'a> {
    /// The sponge of the linked message.
    pub closed spec fn spec_initial_state(&self) -> Spongos {
        self.initial_state
    }

    /// The publisher.
    pub closed spec fn spec_user_id(&self) -> UserIdentity {
        self.user_id
    }

    /// The payload.
    pub closed spec fn spec_payload(&self) -> Payload {
        Payload { public: self.public_payload@, masked: self.masked_payload@ }
    }

    /// The signed packet of `user_id` with this payload, linked to the
    /// message whose sponge is `initial_state`.
    pub fn new(
        initial_state: &Spongos,
        user_id: &UserIdentity,
        public_payload: &'a [u8],
        masked_payload: &'a [u8],
    ) -> (r: Wrap<'a>)
        ensures
            r.spec_initial_state() == *initial_state,
            r.spec_user_id() == *user_id,
            r.spec_payload() == (Payload { public: public_payload@, masked: masked_payload@ }),
    {
        Wrap { initial_state: *initial_state, user_id: *user_id, public_payload, masked_payload }
    }
}

impl<'a> ContentWrap for Wrap<'a> {
    open spec fn wf(&self) -> bool {
        self.spec_initial_state().wf()
    }

    open spec fn refusal(&self) -> Option<Error> {
        match self.spec_user_id().keys {
            Keys::Keypair(_) => None,
            Keys::Psk(_) => Some(Error::NoSignatureKeyPair),
        }
    }

    open spec fn spec_size(&self) -> nat {
        signed_packet_len(self.spec_payload())
    }

    open spec fn spec_wire(&self, s: Sponge) -> (Sponge, Seq<u8>) {
        match self.spec_user_id().keys {
            Keys::Keypair(kp) => put_signed_packet(
                s,
                self.spec_initial_state()@,
                self.spec_payload(),
                kp.sig.0@,
            ),
            Keys::Psk(_) => (s, Seq::empty()),
        }
    }

    fn sizeof(&self, ctx: &mut sizeof::Context) -> (r: Result<(), Error>) {
        match &self.user_id.keys {
            Keys::Keypair(_) => {
                sizeof_payload(ctx, self.public_payload, self.masked_payload)?;
                self.user_id.sizeof(ctx)
            },
            Keys::Psk(_) => Err(Error::NoSignatureKeyPair),
        }
    }

    fn wrap(&self, ctx: &mut wrap::Context) -> (r: Result<(), Error>) {
        match &self.user_id.keys {
            Keys::Keypair(kp) => {
                wrap_payload(ctx, &self.initial_state, self.public_payload, self.masked_payload);
                self.user_id.sign(ctx)?;
                proof {
                    assert(ctx@.bytes =~= old(ctx)@.after(self.spec_wire(old(ctx)@.sponge)).bytes);
                }
                Ok(())
            },
            Keys::Psk(_) => Err(Error::NoSignatureKeyPair),
        }
    }
}

/// The signed packet that a reader reads.
pub struct Unwrap {
    initial_state: Spongos,
    publisher: Identifier,
    public_payload: Vec<u8>,
    masked_payload: Vec<u8>,
}

impl Unwrap {
    /// The sponge of the linked message.
    pub closed spec fn spec_initial_state(&self) -> Spongos {
        self.initial_state
    }

    /// The publisher whose signature is checked.
    pub closed spec fn spec_publisher(&self) -> Identifier {
        self.publisher
    }

    /// The payload.
    pub closed spec fn spec_payload(&self) -> Payload {
        Payload { public: self.public_payload@, masked: self.masked_payload@ }
    }

    /// A signed packet of `publisher` that has not been read yet, linked to
    /// the message whose sponge is `initial_state`; its payload is empty.
    pub fn new(initial_state: &Spongos, publisher: Identifier) -> (r: Unwrap)
        ensures
            r.spec_initial_state() == *initial_state,
            r.spec_publisher() == publisher,
            r.spec_payload() == (Payload { public: Seq::empty(), masked: Seq::empty() }),
    {
        Unwrap {
            initial_state: *initial_state,
            publisher,
            public_payload: Vec::new(),
            masked_payload: Vec::new(),
        }
    }

    /// The public part of the payload.
    pub fn public_payload(&self) -> (r: &Vec<u8>)
        ensures
            r@ == self.spec_payload().public,
    {
        &self.public_payload
    }

    /// The masked part of the payload, in the clear.
    pub fn masked_payload(&self) -> (r: &Vec<u8>)
        ensures
            r@ == self.spec_payload().masked,
    {
        &self.masked_payload
    }

    /// The two parts of the payload, out of the packet.
    pub fn into_payloads(self) -> (r: (Vec<u8>, Vec<u8>))
        ensures
            r.0@ == self.spec_payload().public,
            r.1@ == self.spec_payload().masked,
    {
        (self.public_payload, self.masked_payload)
    }

    /// Reads the packet and checks the publisher's signature.
    pub fn unwrap(&mut self, ctx: &mut unwrap::Context) -> (r: Result<(), Error>)
        requires
            old(ctx).wf(),
            old(self).spec_initial_state().wf(),
        ensures
            final(ctx)@.follows(
                take_signed_packet(
                    old(ctx)@.sponge,
                    old(self).spec_initial_state()@,
                    old(self).spec_publisher()@,
                    old(ctx)@.bytes,
                ),
                match r {
                    Ok(()) => Ok::<Payload, Error>(final(self).spec_payload()),
                    Err(e) => Err::<Payload, Error>(e),
                },
            ),
            final(ctx).wf(),
    {
        let (public, masked) = unwrap_payload(ctx, &self.initial_state)?;
        self.publisher.verify(ctx)?;
        self.public_payload = public;
        self.masked_payload = masked;
        Ok(())
    }
}

} // verus!
