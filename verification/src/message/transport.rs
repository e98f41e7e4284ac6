//! A message as the transport carries it.

use vstd::prelude::*;
use crate::address::AppAddr;
use crate::ddml::unwrap;
use crate::error::Error;
use crate::message::hdf::HDF;
use crate::message::hdf::take_header;
use crate::message::preparsed::PreparsedMessage;
use crate::spongos::Sponge;

verus! {

/// The bytes of a message.
#[derive(Clone, Debug, PartialEq, Eq, Hash, Default)]
pub struct TransportMessage {
    body: Vec<u8>,
}

impl View for TransportMessage {
    type V = Seq<u8>;

    closed spec fn view(&self) -> Seq<u8> {
        self.body@
    }
}

impl TransportMessage {
    /// The message with these bytes.
    pub fn new(body: Vec<u8>) -> (r: TransportMessage)
        ensures
            r@ == body@,
    {
        TransportMessage { body }
    }

    /// The bytes of the message.
    pub fn body(&self) -> (r: &Vec<u8>)
        ensures
            r@ == self@,
    {
        &self.body
    }

    /// The bytes of the message, out of it.
    pub fn into_body(self) -> (r: Vec<u8>)
        ensures
            r@ == self@,
    {
        self.body
    }

    /// Reads the header of the message, which belongs to the stream at
    /// `address`, and keeps what follows it for later.
    pub fn parse_header(self, address: AppAddr) -> (r: Result<PreparsedMessage, Error>)
        ensures
            match take_header(Sponge::init(), address@, self@) {
                Ok(t) => r is Ok && r->Ok_0.spec_header()@ == t.value && r->Ok_0.spec_sponge()
                    == t.sponge && r->Ok_0.spec_rest() == t.rest && r->Ok_0.wf(),
                Err(e) => r is Err && r->Err_0 == e,
            },
    {
        let mut ctx = unwrap::Context::new(self.body);
        match HDF::unwrap(&mut ctx, address) {
            Ok(hdf) => Ok(PreparsedMessage::new(hdf, ctx)),
            Err(e) => Err(e),
        }
    }
}

} // verus!
