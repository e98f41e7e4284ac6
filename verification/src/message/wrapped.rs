//! A message ready to be written: a header and a payload frame around a
//! content.

use vstd::prelude::*;
use crate::ddml::sizeof;
use crate::ddml::wrap;
use crate::error::Error;
use crate::message::content::ContentWrap;
use crate::message::hdf::HDF;
use crate::message::hdf::Header;
use crate::message::hdf::put_header;
use crate::message::pcf::Frame;
use crate::message::pcf::frame_len;
use crate::message::pcf::PCF;
use crate::message::pcf::put_frame;
use crate::message::transport::TransportMessage;
use crate::spongos::Sponge;
use crate::spongos::Spongos;

verus! {

/// A header and a payload frame around a content.
#[derive(Clone, Copy, Debug)]
pub struct Message<Content> {
    hdf: HDF,
    pcf: PCF<Content>,
}

/// Number of bytes that a message takes on the wire.
pub open spec fn message_len<Content: ContentWrap>(h: Header, content: Content) -> nat {
    h.len() + frame_len() + content.spec_size()
}

/// The sponge and the bytes of what frames a message, written from a fresh
/// sponge: the header, then the payload frame.
pub open spec fn framed(h: Header, f: Frame) -> (Sponge, Seq<u8>) {
    let (s1, a) = put_header(Sponge::init(), h);
    let (s2, b) = put_frame(s1, f);
    (s2, a + b)
}

/// The sponge and the bytes of a message written from a fresh sponge: the
/// header, the payload frame, the content.
pub open spec fn message_wire<Content: ContentWrap>(h: Header, f: Frame, content: Content) -> (
    Sponge,
    Seq<u8>,
) {
    let (s2, ab) = framed(h, f);
    let (s3, c) = content.spec_wire(s2);
    (s3, ab + c)
}

impl<Content> Message<Content> {
    /// The header.
    pub closed spec fn spec_header(&self) -> HDF {
        self.hdf
    }

    /// The payload frame.
    pub closed spec fn spec_payload(&self) -> PCF<Content> {
        self.pcf
    }

    /// The message with this header and this payload frame.
    pub fn new(hdf: HDF, pcf: PCF<Content>) -> (r: Self)
        ensures
            r.spec_header() == hdf,
            r.spec_payload() == pcf,
    {
        Message { hdf, pcf }
    }

    /// Replaces the header and hands the message back.
    pub fn with_header(&mut self, header: HDF) -> (r: &mut Self)
        ensures
            r.spec_header() == header,
            r.spec_payload() == old(self).spec_payload(),
            *final(self) == *final(r),
    {
        self.hdf = header;
        self
    }

    /// Replaces the content and hands the message back.
    pub fn with_content(&mut self, content: Content) -> (r: &mut Self)
        ensures
            r.spec_header() == old(self).spec_header(),
            r.spec_payload().frame() == old(self).spec_payload().frame(),
            r.spec_payload().spec_content() == content,
            *final(self) == *final(r),
    {
        self.pcf.change_content(content);
        self
    }

    /// The header.
    pub fn header(&self) -> (r: &HDF)
        ensures
            *r == self.spec_header(),
    {
        &self.hdf
    }

    /// The payload frame.
    pub fn payload(&self) -> (r: &PCF<Content>)
        ensures
            *r == self.spec_payload(),
    {
        &self.pcf
    }
}

impl<Content: ContentWrap> Message<Content> {
    /// Measures the message, writes it into a buffer of that size from a
    /// fresh sponge, and hands out the bytes and the committed sponge. What
    /// is written fills the buffer exactly. Fails where the content refuses
    /// or the size does not fit the machine.
    pub fn wrap(&self) -> (r: Result<(TransportMessage, Spongos), Error>)
        requires
            self.spec_payload().wf(),
            self.spec_payload().spec_content().wf(),
        ensures
            match self.spec_payload().spec_content().refusal() {
                Some(e) => r == Err::<(TransportMessage, Spongos), Error>(e),
                None => {
                    let content = self.spec_payload().spec_content();
                    let h = self.spec_header()@;
                    let w = message_wire(h, self.spec_payload().frame(), content);
                    if message_len(h, content) <= usize::MAX {
                        r is Ok && r->Ok_0.0@ == w.1 && r->Ok_0.1@ == w.0.commit() && r->Ok_0.1.wf()
                            && r->Ok_0.0@.len() == message_len(h, content)
                    } else {
                        r is Err && r->Err_0 == Error::SizeOverflow
                    }
                },
            },
    {
        proof {
            self.hdf.lemma_shape();
        }
        let mut size = sizeof::Context::new();
        self.hdf.sizeof(&mut size)?;
        self.pcf.sizeof_frame(&mut size)?;
        self.pcf.content().sizeof(&mut size)?;
        let buf_size = size.size();
        let mut ctx = wrap::Context::new(buf_size);
        self.hdf.wrap(&mut ctx);
        self.pcf.wrap_frame(&mut ctx);
        proof {
            self.hdf.lemma_shape();
            crate::message::hdf::lemma_header_len(Sponge::init(), self.hdf@);
            crate::message::pcf::lemma_frame_len(put_header(Sponge::init(), self.hdf@).0, self.pcf.frame());
        }
        self.pcf.content().wrap(&mut ctx)?;
        proof {
            let content = self.spec_payload().spec_content();
            let w = message_wire(self.hdf@, self.pcf.frame(), content);
            assert(ctx@.bytes =~= w.1);
        }
        let (spongos, bytes) = ctx.finalize();
        Ok((TransportMessage::new(bytes), spongos))
    }
}

} // verus!
