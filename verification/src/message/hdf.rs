//! The header of a message: who published it, where it stands in the
//! publisher's sequence and what it is linked to.

use vstd::prelude::*;
use crate::address::AppAddr;
use crate::address::APPADDR_SIZE;
use crate::address::MsgId;
use crate::address::MSGID_SIZE;
use crate::ddml::sizeof;
use crate::ddml::types::array_from;
use crate::ddml::types::lemma_digits_len;
use crate::ddml::types::lemma_put_wf;
use crate::ddml::types::lemma_take_put;
use crate::ddml::types::lemma_take_put_size;
use crate::ddml::types::lemma_take_put_u8;
use crate::ddml::types::Mode;
use crate::ddml::types::put;
use crate::ddml::types::put_size;
use crate::ddml::types::put_u8;
use crate::ddml::types::size_len;
use crate::ddml::types::take;
use crate::ddml::types::take_size;
use crate::ddml::types::take_u8;
use crate::ddml::types::Taken;
use crate::ddml::unwrap;
use crate::ddml::wrap;
use crate::error::Error;
use crate::id::identifier::Identifier;
use crate::id::identifier::is_identifier;
use crate::id::identifier::lemma_identifier;
use crate::id::identifier::lemma_take_put_identifier;
use crate::id::identifier::put_identifier;
use crate::id::identifier::take_identifier;
use crate::message::version::HDF_ID;
use crate::message::version::STREAMS_VERSION;
use crate::spongos::lemma_absorb_wf;
use crate::spongos::Sponge;

verus! {

/// A header as a value.
pub struct Header {
    pub version: u8,
    pub message_type: u8,
    pub frame_type: u8,
    pub payload_length: u16,
    pub publisher: Seq<u8>,
    pub sequence: u64,
    pub linked: Option<Seq<u8>>,
    pub address: Seq<u8>,
}

impl Header {
    /// The version is the one that this library speaks, the publisher is an
    /// identifier, and the addresses have their widths.
    pub open spec fn wf(self) -> bool {
        &&& self.version == STREAMS_VERSION
        &&& is_identifier(self.publisher)
        &&& self.address.len() == APPADDR_SIZE
        &&& self.linked is Some ==> self.linked->0.len() == MSGID_SIZE
    }

    /// Number of bytes that the header takes on the wire.
    pub open spec fn len(self) -> nat {
        5 + self.publisher.len() + size_len(self.sequence) + link_len(self.linked)
    }
}

/// The three bytes that describe the frame: the frame type and the payload
/// length, the most significant byte first.
pub open spec fn descriptor(frame_type: u8, payload_length: u16) -> Seq<u8> {
    seq![frame_type, (payload_length / 256) as u8, (payload_length % 256) as u8]
}

/// Number of bytes that an optional link takes on the wire.
pub open spec fn link_len(linked: Option<Seq<u8>>) -> nat {
    match linked {
        Some(l) => 1 + l.len(),
        None => 1,
    }
}

/// The sponge and the wire bytes after an optional link has been skipped: a
/// flag, and the link where there is one.
pub open spec fn put_link(s: Sponge, linked: Option<Seq<u8>>) -> (Sponge, Seq<u8>) {
    match linked {
        Some(l) => {
            let (s1, a) = put_u8(s, Mode::Skip, 1);
            let (s2, b) = put(s1, Mode::Skip, l);
            (s2, a + b)
        },
        None => put_u8(s, Mode::Skip, 0),
    }
}

/// Reads an optional link.
pub open spec fn take_link(s: Sponge, input: Seq<u8>) -> Result<Taken<Option<Seq<u8>>>, Error> {
    match take_u8(s, Mode::Skip, input) {
        Ok(t) => if t.value == 0 {
            Ok(Taken { sponge: t.sponge, value: None, rest: t.rest })
        } else if t.value == 1 {
            match take(t.sponge, Mode::Skip, t.rest, MSGID_SIZE as nat) {
                Ok(u) => Ok(Taken { sponge: u.sponge, value: Some(u.value), rest: u.rest }),
                Err(e) => Err(e),
            }
        } else {
            Err(Error::BadOneof)
        },
        Err(e) => Err(e),
    }
}

/// The first three fields of a header on the wire: the version and the
/// message type absorbed, the frame descriptor skipped.
pub open spec fn put_preamble(s: Sponge, h: Header) -> (Sponge, Seq<u8>) {
    let (s1, a) = put_u8(s, Mode::Absorb, h.version);
    let (s2, b) = put_u8(s1, Mode::Absorb, h.message_type);
    let (s3, c) = put(s2, Mode::Skip, descriptor(h.frame_type, h.payload_length));
    (s3, a + b + c)
}

/// The sponge and the wire bytes after a header has passed: the preamble,
/// the publisher absorbed, the sequence number and the link skipped; the
/// address of the stream is absorbed and not written.
pub open spec fn put_header(s: Sponge, h: Header) -> (Sponge, Seq<u8>) {
    let (s3, abc) = put_preamble(s, h);
    let (s4, d) = put_identifier(s3, Mode::Absorb, h.publisher);
    let (s5, e) = put_size(s4, Mode::Skip, h.sequence);
    let (s6, f) = put_link(s5, h.linked);
    (s6.absorb(h.address), abc + d + e + f)
}

/// What reading the first three fields of a header leaves: the sponge, the
/// version, the message type, the frame type and the payload length.
pub open spec fn take_preamble(s: Sponge, input: Seq<u8>) -> Result<Taken<(u8, u8, u8, u16)>, Error> {
    match take_u8(s, Mode::Absorb, input) {
        Ok(t) => if t.value != STREAMS_VERSION {
            Err(Error::BadHeader)
        } else {
            match take_u8(t.sponge, Mode::Absorb, t.rest) {
                Ok(u) => match take(u.sponge, Mode::Skip, u.rest, 3) {
                    Ok(v) => Ok(
                        Taken {
                            sponge: v.sponge,
                            value: (
                                t.value,
                                u.value,
                                v.value[0],
                                (v.value[1] as u16 * 256 + v.value[2] as u16) as u16,
                            ),
                            rest: v.rest,
                        },
                    ),
                    Err(e) => Err(e),
                },
                Err(e) => Err(e),
            }
        },
        Err(e) => Err(e),
    }
}

/// Reads a header of the stream at `address`. Another version than the one
/// that this library speaks is refused.
pub open spec fn take_header(s: Sponge, address: Seq<u8>, input: Seq<u8>) -> Result<
    Taken<Header>,
    Error,
> {
    match take_preamble(s, input) {
        Ok(p) => match take_identifier(p.sponge, Mode::Absorb, p.rest) {
            Ok(w) => match take_size(w.sponge, Mode::Skip, w.rest) {
                Ok(x) => match take_link(x.sponge, x.rest) {
                    Ok(y) => Ok(
                        Taken {
                            sponge: y.sponge.absorb(address),
                            value: Header {
                                version: p.value.0,
                                message_type: p.value.1,
                                frame_type: p.value.2,
                                payload_length: p.value.3,
                                publisher: w.value,
                                sequence: x.value,
                                linked: y.value,
                                address,
                            },
                            rest: y.rest,
                        },
                    ),
                    Err(e) => Err(e),
                },
                Err(e) => Err(e),
            },
            Err(e) => Err(e),
        },
        Err(e) => Err(e),
    }
}

/// An optional link read back.
pub proof fn lemma_take_put_link(s: Sponge, linked: Option<Seq<u8>>, rest: Seq<u8>)
    requires
        s.wf(),
        linked is Some ==> linked->0.len() == MSGID_SIZE,
    ensures
        take_link(s, put_link(s, linked).1 + rest) == Ok::<Taken<Option<Seq<u8>>>, Error>(
            Taken { sponge: put_link(s, linked).0, value: linked, rest },
        ),
        put_link(s, linked).0.wf(),
        put_link(s, linked).1.len() == link_len(linked),
{
    match linked {
        Some(l) => {
            let (s1, a) = put_u8(s, Mode::Skip, 1);
            let (s2, b) = put(s1, Mode::Skip, l);
            lemma_take_put_u8(s, Mode::Skip, 1, b + rest);
            lemma_put_wf(s1, Mode::Skip, l);
            assert((a + b) + rest =~= a + (b + rest));
            lemma_take_put(s1, Mode::Skip, l, rest);
        },
        None => {
            lemma_take_put_u8(s, Mode::Skip, 0, rest);
        },
    }
}

/// The first three fields of a header read back.
pub proof fn lemma_take_put_preamble(s: Sponge, h: Header, rest: Seq<u8>)
    requires
        s.wf(),
        h.version == STREAMS_VERSION,
    ensures
        take_preamble(s, put_preamble(s, h).1 + rest) == Ok::<Taken<(u8, u8, u8, u16)>, Error>(
            Taken {
                sponge: put_preamble(s, h).0,
                value: (h.version, h.message_type, h.frame_type, h.payload_length),
                rest,
            },
        ),
        put_preamble(s, h).0.wf(),
        put_preamble(s, h).1.len() == 5,
{
    let (s1, a) = put_u8(s, Mode::Absorb, h.version);
    let (s2, b) = put_u8(s1, Mode::Absorb, h.message_type);
    let desc = descriptor(h.frame_type, h.payload_length);
    let (s3, c) = put(s2, Mode::Skip, desc);
    lemma_take_put_u8(s, Mode::Absorb, h.version, b + c + rest);
    lemma_take_put_u8(s1, Mode::Absorb, h.message_type, c + rest);
    lemma_put_wf(s2, Mode::Skip, desc);
    lemma_take_put(s2, Mode::Skip, desc, rest);
    assert((a + b + c) + rest =~= a + (b + c + rest));
    assert(b + c + rest =~= b + (c + rest));
}

/// A header read back.
#[verifier::rlimit(40)]
pub proof fn lemma_take_put_header(s: Sponge, h: Header, rest: Seq<u8>)
    requires
        s.wf(),
        h.wf(),
    ensures
        take_header(s, h.address, put_header(s, h).1 + rest) == Ok::<Taken<Header>, Error>(
            Taken { sponge: put_header(s, h).0, value: h, rest },
        ),
        put_header(s, h).0.wf(),
        put_header(s, h).1.len() == h.len(),
{
    let (s3, abc) = put_preamble(s, h);
    let (s4, d) = put_identifier(s3, Mode::Absorb, h.publisher);
    let (s5, e) = put_size(s4, Mode::Skip, h.sequence);
    let (s6, f) = put_link(s5, h.linked);
    lemma_take_put_preamble(s, h, d + e + f + rest);
    lemma_take_put_identifier(s3, Mode::Absorb, h.publisher, e + f + rest);
    lemma_take_put_size(s4, Mode::Skip, h.sequence, f + rest);
    lemma_take_put_link(s5, h.linked, rest);
    lemma_absorb_wf(s6, h.address);
    assert((abc + d + e + f) + rest =~= abc + (d + e + f + rest));
    assert(d + e + f + rest =~= d + (e + f + rest));
    assert(e + f + rest =~= e + (f + rest));
}

/// A header takes `len` bytes on the wire, whatever stands in it.
pub proof fn lemma_header_len(s: Sponge, h: Header)
    requires
        s.wf(),
        is_identifier(h.publisher),
        h.linked is Some ==> h.linked->0.len() == MSGID_SIZE,
    ensures
        put_header(s, h).1.len() == h.len(),
{
    let (s1, a) = put_u8(s, Mode::Absorb, h.version);
    let (s2, b) = put_u8(s1, Mode::Absorb, h.message_type);
    let desc = descriptor(h.frame_type, h.payload_length);
    let (s3, c) = put(s2, Mode::Skip, desc);
    let (s4, d) = put_identifier(s3, Mode::Absorb, h.publisher);
    let (s5, e) = put_size(s4, Mode::Skip, h.sequence);
    lemma_take_put_u8(s, Mode::Absorb, h.version, Seq::empty());
    lemma_take_put_u8(s1, Mode::Absorb, h.message_type, Seq::empty());
    lemma_put_wf(s2, Mode::Skip, desc);
    lemma_take_put_identifier(s3, Mode::Absorb, h.publisher, Seq::empty());
    lemma_take_put_size(s4, Mode::Skip, h.sequence, Seq::empty());
    lemma_take_put_link(s5, h.linked, Seq::empty());
}

/// The header of a message.
#[derive(Clone, Copy, Debug)]
#[allow(clippy::upper_case_acronyms)]
pub struct HDF {
    version: u8,
    message_type: u8,
    frame_type: u8,
    payload_length: u16,
    publisher: Identifier,
    sequence: u64,
    linked_msg_address: Option<MsgId>,
    address: AppAddr,
}

impl View for HDF {
    type V = Header;

    closed spec fn view(&self) -> Header {
        Header {
            version: self.version,
            message_type: self.message_type,
            frame_type: self.frame_type,
            payload_length: self.payload_length,
            publisher: self.publisher@,
            sequence: self.sequence,
            linked: match self.linked_msg_address {
                Some(l) => Some(l@),
                None => None,
            },
            address: self.address@,
        }
    }
}

impl HDF {
    /// The header is well formed as a value.
    pub open spec fn wf(&self) -> bool {
        self@.wf()
    }

    /// The publisher is an identifier and the link has its width.
    pub proof fn lemma_shape(&self)
        ensures
            is_identifier(self@.publisher),
            self@.linked is Some ==> self@.linked->0.len() == MSGID_SIZE,
            self@.address.len() == APPADDR_SIZE,
            self@.len() <= 60,
    {
        lemma_identifier(self.publisher);
        lemma_digits_len(self.sequence as nat);
        match self.linked_msg_address {
            Some(l) => {
                assert(l@.len() == MSGID_SIZE);
            },
            None => {},
        }
        assert(self.address@.len() == APPADDR_SIZE);
    }

    /// The header of a message of this type, with this sequence number, by
    /// this publisher, in the stream at `address`; it names no linked
    /// message.
    pub fn new(message_type: u8, sequence: u64, publisher: Identifier, address: AppAddr) -> (r: HDF)
        ensures
            r@ == (Header {
                version: STREAMS_VERSION,
                message_type,
                frame_type: HDF_ID,
                payload_length: 0,
                publisher: publisher@,
                sequence,
                linked: None,
                address: address@,
            }),
            r.wf(),
    {
        proof {
            lemma_identifier(publisher);
        }
        HDF {
            version: STREAMS_VERSION,
            message_type,
            frame_type: HDF_ID,
            payload_length: 0,
            publisher,
            sequence,
            linked_msg_address: None,
            address,
        }
    }

    /// The same header, linked to the message at `address`.
    pub fn with_linked_msg_address(self, address: MsgId) -> (r: HDF)
        ensures
            r@ == (Header { linked: Some(address@), ..self@ }),
            self.wf() ==> r.wf(),
    {
        HDF { linked_msg_address: Some(address), ..self }
    }

    /// The same header, with this payload length.
    pub fn with_payload_length(self, payload_length: u16) -> (r: HDF)
        ensures
            r@ == (Header { payload_length, ..self@ }),
            self.wf() ==> r.wf(),
    {
        HDF { payload_length, ..self }
    }

    /// The type of the message.
    pub fn message_type(&self) -> (r: u8)
        ensures
            r == self@.message_type,
    {
        self.message_type
    }

    /// The payload length.
    pub fn payload_length(&self) -> (r: u16)
        ensures
            r == self@.payload_length,
    {
        self.payload_length
    }

    /// The publisher of the message.
    pub fn publisher(&self) -> (r: Identifier)
        ensures
            r@ == self@.publisher,
    {
        self.publisher
    }

    /// The sequence number of the message.
    pub fn sequence(&self) -> (r: u64)
        ensures
            r == self@.sequence,
    {
        self.sequence
    }

    /// The message that this one is linked to, if it names one.
    pub fn linked_msg_address(&self) -> (r: Option<MsgId>)
        ensures
            r is Some <==> self@.linked is Some,
            r is Some ==> r->0@ == self@.linked->0,
    {
        self.linked_msg_address
    }

    /// The address of the stream.
    pub fn address(&self) -> (r: AppAddr)
        ensures
            r@ == self@.address,
    {
        self.address
    }

    /// Measures the header.
    pub fn sizeof(&self, ctx: &mut sizeof::Context) -> (r: Result<(), Error>)
        ensures
            final(ctx).grown(*old(ctx), self@.len(), r),
    {
        ctx.add(5)?;
        self.publisher.sizeof(ctx)?;
        ctx.add_size(self.sequence)?;
        match self.linked_msg_address {
            Some(l) => {
                assert(l@.len() == MSGID_SIZE);
                ctx.add(1 + MSGID_SIZE)
            },
            None => ctx.add(1),
        }
    }

    /// Writes the header.
    pub fn wrap(&self, ctx: &mut wrap::Context)
        requires
            old(ctx).wf(),
        ensures
            final(ctx)@ == old(ctx)@.after(put_header(old(ctx)@.sponge, self@)),
            final(ctx).wf(),
    {
        ctx.put_u8(Mode::Absorb, self.version);
        ctx.put_u8(Mode::Absorb, self.message_type);
        let desc: [u8; 3] = [
            self.frame_type,
            (self.payload_length / 256) as u8,
            (self.payload_length % 256) as u8,
        ];
        assert(desc@ =~= descriptor(self.frame_type, self.payload_length));
        ctx.put(Mode::Skip, desc.as_slice());
        assert(ctx@.bytes =~= old(ctx)@.after(put_preamble(old(ctx)@.sponge, self@)).bytes);
        self.publisher.wrap(ctx, Mode::Absorb);
        ctx.put_size(Mode::Skip, self.sequence);
        match self.linked_msg_address {
            Some(l) => {
                ctx.put_u8(Mode::Skip, 1);
                ctx.put(Mode::Skip, l.bytes.as_slice());
            },
            None => {
                ctx.put_u8(Mode::Skip, 0);
            },
        }
        ctx.absorb_external(self.address.bytes.as_slice());
        assert(ctx@.bytes =~= old(ctx)@.after(put_header(old(ctx)@.sponge, self@)).bytes);
    }

    /// Reads the header of a message of the stream at `address`.
    #[verifier::rlimit(40)]
    pub fn unwrap(ctx: &mut unwrap::Context, address: AppAddr) -> (r: Result<HDF, Error>)
        requires
            old(ctx).wf(),
        ensures
            final(ctx)@.follows(
                take_header(old(ctx)@.sponge, address@, old(ctx)@.bytes),
                crate::ddml::unwrap::viewed(r),
            ),
            final(ctx).wf(),
    {
        let version = ctx.take_u8(Mode::Absorb)?;
        if version != STREAMS_VERSION {
            return Err(Error::BadHeader);
        }
        let message_type = ctx.take_u8(Mode::Absorb)?;
        let desc = ctx.take(Mode::Skip, 3)?;
        let frame_type = desc[0];
        let payload_length: u16 = desc[1] as u16 * 256 + desc[2] as u16;
        let publisher = Identifier::unwrap(ctx, Mode::Absorb)?;
        let sequence = ctx.take_size(Mode::Skip)?;
        let flag = ctx.take_u8(Mode::Skip)?;
        let linked_msg_address = if flag == 0 {
            None
        } else if flag == 1 {
            let l = ctx.take(Mode::Skip, MSGID_SIZE)?;
            Some(MsgId::new(array_from::<12>(l.as_slice())))
        } else {
            return Err(Error::BadOneof);
        };
        ctx.absorb_external(address.bytes.as_slice());
        Ok(
            HDF {
                version,
                message_type,
                frame_type,
                payload_length,
                publisher,
                sequence,
                linked_msg_address,
                address,
            },
        )
    }
}

} // verus!
