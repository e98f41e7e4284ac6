//! A message whose header has been read.

use vstd::prelude::*;
use crate::ddml::unwrap;
use crate::error::Error;
use crate::message::hdf::HDF;
use crate::message::pcf::PCF;
use crate::message::pcf::take_frame;
use crate::spongos::Sponge;

verus! {

/// A message whose header has been read: the header and the context that
/// stands behind it.
pub struct PreparsedMessage {
    header: HDF,
    ctx: unwrap::Context,
}

impl PreparsedMessage {
    /// The header.
    pub closed spec fn spec_header(&self) -> HDF {
        self.header
    }

    /// The sponge after the header.
    pub closed spec fn spec_sponge(&self) -> Sponge {
        self.ctx@.sponge
    }

    /// The bytes that follow the header.
    pub closed spec fn spec_rest(&self) -> Seq<u8> {
        self.ctx@.bytes
    }

    /// The context is well formed.
    pub closed spec fn wf(&self) -> bool {
        self.ctx.wf()
    }

    /// The header with the context that stands behind it.
    pub fn new(header: HDF, ctx: unwrap::Context) -> (r: PreparsedMessage)
        requires
            ctx.wf(),
        ensures
            r.spec_header() == header,
            r.spec_sponge() == ctx@.sponge,
            r.spec_rest() == ctx@.bytes,
            r.wf(),
    {
        PreparsedMessage { header, ctx }
    }

    /// The header.
    pub fn header(&self) -> (r: &HDF)
        ensures
            *r == self.spec_header(),
    {
        &self.header
    }

    /// Reads the payload frame and hands out the header, the frame and the
    /// context that stands at the content.
    pub fn into_parts(self) -> (r: Result<(HDF, PCF<()>, unwrap::Context), Error>)
        requires
            self.wf(),
        ensures
            match take_frame(self.spec_sponge(), self.spec_rest()) {
                Ok(t) => r is Ok && r->Ok_0.0 == self.spec_header() && r->Ok_0.1.frame() == t.value
                    && r->Ok_0.1.wf() && r->Ok_0.2@.sponge == t.sponge && r->Ok_0.2@.bytes
                    == t.rest && r->Ok_0.2.wf(),
                Err(e) => r is Err && r->Err_0 == e,
            },
    {
        let mut ctx = self.ctx;
        match PCF::unwrap_frame(&mut ctx) {
            Ok(pcf) => Ok((self.header, pcf, ctx)),
            Err(e) => Err(e),
        }
    }
}

} // verus!
