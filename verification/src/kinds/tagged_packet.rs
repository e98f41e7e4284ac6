//! A payload authenticated by the sponge alone: bound to an earlier message,
//! it holds a public part and a masked part and ends in a code squeezed from
//! the sponge.

use vstd::prelude::*;
use crate::ddml::sizeof;
use crate::ddml::types::lemma_take_put_mac;
use crate::ddml::types::put_mac;
use crate::ddml::types::take_mac;
use crate::ddml::types::Taken;
use crate::ddml::unwrap;
use crate::ddml::wrap;
use crate::error::Error;
use crate::kinds::signed_packet::lemma_take_put_payload;
use crate::kinds::signed_packet::Payload;
use crate::kinds::signed_packet::payload_len;
use crate::kinds::signed_packet::put_payload;
use crate::kinds::signed_packet::sizeof_payload;
use crate::kinds::signed_packet::take_payload;
use crate::kinds::signed_packet::unwrap_payload;
use crate::kinds::signed_packet::wrap_payload;
use crate::message::content::ContentWrap;
use crate::spongos::Sponge;
use crate::spongos::Spongos;

verus! {

/// Number of bytes of the code that ends a tagged packet.
pub const MAC_SIZE: usize = 32;

/// The sponge and the wire bytes after a tagged packet has passed: the
/// payload, then the code.
pub open spec fn put_tagged_packet(s: Sponge, initial: Sponge, p: Payload) -> (Sponge, Seq<u8>) {
    let (s1, x) = put_payload(s, initial, p);
    let (s2, y) = put_mac(s1, MAC_SIZE as nat);
    (s2, x + y)
}

/// Reads a tagged packet linked to the message whose sponge is `initial` and
/// checks the code.
pub open spec fn take_tagged_packet(s: Sponge, initial: Sponge, input: Seq<u8>) -> Result<
    Taken<Payload>,
    Error,
> {
    match take_payload(s, initial, input) {
        Ok(t) => match take_mac(t.sponge, t.rest, MAC_SIZE as nat) {
            Ok(u) => Ok(Taken { sponge: u.sponge, value: t.value, rest: u.rest }),
            Err(e) => Err(e),
        },
        Err(e) => Err(e),
    }
}

/// Number of bytes that a tagged packet takes on the wire.
pub open spec fn tagged_packet_len(p: Payload) -> nat {
    payload_len(p) + MAC_SIZE as nat
}

/// A tagged packet is read back as it was written, against the same linked
/// sponge, and reading leaves the sponge that writing left.
pub proof fn lemma_take_put_tagged_packet(s: Sponge, initial: Sponge, p: Payload, rest: Seq<u8>)
    requires
        s.wf(),
        initial.wf(),
        p.public.len() <= u64::MAX,
        p.masked.len() <= u64::MAX,
    ensures
        take_tagged_packet(s, initial, put_tagged_packet(s, initial, p).1 + rest) == Ok::<
            Taken<Payload>,
            Error,
        >(Taken { sponge: put_tagged_packet(s, initial, p).0, value: p, rest }),
        put_tagged_packet(s, initial, p).0.wf(),
        put_tagged_packet(s, initial, p).1.len() == tagged_packet_len(p),
{
    let (s1, x) = put_payload(s, initial, p);
    let (s2, y) = put_mac(s1, MAC_SIZE as nat);
    lemma_take_put_payload(s, initial, p, y + rest);
    lemma_take_put_mac(s1, MAC_SIZE as nat, rest);
    assert((x + y) + rest =~= x + (y + rest));
}

/// The tagged packet that a publisher writes.
pub struct Wrap<'a> {
    initial_state: Spongos,
    public_payload: &'a [u8],
    masked_payload: &'a [u8],
}

impl<'a> Wrap<'a> {
    /// The sponge of the linked message.
    pub closed spec fn spec_initial_state(&self) -> Spongos {
        self.initial_state
    }

    /// The payload.
    pub closed spec fn spec_payload(&self) -> Payload {
        Payload { public: self.public_payload@, masked: self.masked_payload@ }
    }

    /// The tagged packet with this payload, linked to the message whose
    /// sponge is `initial_state`.
    pub fn new(initial_state: &Spongos, public_payload: &'a [u8], masked_payload: &'a [u8]) -> (r:
        Wrap<'a>)
        ensures
            r.spec_initial_state() == *initial_state,
            r.spec_payload() == (Payload { public: public_payload@, masked: masked_payload@ }),
    {
        Wrap { initial_state: *initial_state, public_payload, masked_payload }
    }
}

impl<'a> ContentWrap for Wrap<'a> {
    open spec fn wf(&self) -> bool {
        self.spec_initial_state().wf()
    }

    open spec fn refusal(&self) -> Option<Error> {
        None
    }

    open spec fn spec_size(&self) -> nat {
        tagged_packet_len(self.spec_payload())
    }

    open spec fn spec_wire(&self, s: Sponge) -> (Sponge, Seq<u8>) {
        put_tagged_packet(s, self.spec_initial_state()@, self.spec_payload())
    }

    fn sizeof(&self, ctx: &mut sizeof::Context) -> (r: Result<(), Error>) {
        sizeof_payload(ctx, self.public_payload, self.masked_payload)?;
        ctx.add(MAC_SIZE)
    }

    fn wrap(&self, ctx: &mut wrap::Context) -> (r: Result<(), Error>) {
        wrap_payload(ctx, &self.initial_state, self.public_payload, self.masked_payload);
        proof {
            crate::spongos::lemma_squeeze_wf(ctx@.sponge, MAC_SIZE as nat);
        }
        ctx.squeeze(MAC_SIZE);
        proof {
            assert(ctx@.bytes =~= old(ctx)@.after(self.spec_wire(old(ctx)@.sponge)).bytes);
        }
        Ok(())
    }
}

/// The tagged packet that a reader reads.
pub struct Unwrap {
    initial_state: Spongos,
    public_payload: Vec<u8>,
    masked_payload: Vec<u8>,
}

impl Unwrap {
    /// The sponge of the linked message.
    pub closed spec fn spec_initial_state(&self) -> Spongos {
        self.initial_state
    }

    /// The payload.
    pub closed spec fn spec_payload(&self) -> Payload {
        Payload { public: self.public_payload@, masked: self.masked_payload@ }
    }

    /// A tagged packet that has not been read yet, linked to the message
    /// whose sponge is `initial_state`; its payload is empty.
    pub fn new(initial_state: &Spongos) -> (r: Unwrap)
        ensures
            r.spec_initial_state() == *initial_state,
            r.spec_payload() == (Payload { public: Seq::empty(), masked: Seq::empty() }),
    {
        Unwrap { initial_state: *initial_state, public_payload: Vec::new(), masked_payload: Vec::new() }
    }

    /// The public part of the payload.
    pub fn public_payload(&self) -> (r: &Vec<u8>)
        ensures
            r@ == self.spec_payload().public,
    {
        &self.public_payload
    }

    /// The masked part of the payload, in the clear.
    pub fn masked_payload(&self) -> (r: &Vec<u8>)
        ensures
            r@ == self.spec_payload().masked,
    {
        &self.masked_payload
    }

    /// The two parts of the payload, out of the packet.
    pub fn into_payloads(self) -> (r: (Vec<u8>, Vec<u8>))
        ensures
            r.0@ == self.spec_payload().public,
            r.1@ == self.spec_payload().masked,
    {
        (self.public_payload, self.masked_payload)
    }

    /// Reads the packet and checks the code.
    pub fn unwrap(&mut self, ctx: &mut unwrap::Context) -> (r: Result<(), Error>)
        requires
            old(ctx).wf(),
            old(self).spec_initial_state().wf(),
        ensures
            final(ctx)@.follows(
                take_tagged_packet(
                    old(ctx)@.sponge,
                    old(self).spec_initial_state()@,
                    old(ctx)@.bytes,
                ),
                match r {
                    Ok(()) => Ok::<Payload, Error>(final(self).spec_payload()),
                    Err(e) => Err::<Payload, Error>(e),
                },
            ),
            final(ctx).wf(),
    {
        let (public, masked) = unwrap_payload(ctx, &self.initial_state)?;
        ctx.take_mac(MAC_SIZE)?;
        self.public_payload = public;
        self.masked_payload = masked;
        Ok(())
    }
}

} // verus!
