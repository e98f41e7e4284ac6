//! What carries the messages of a stream.

use vstd::prelude::*;
use crate::address::Address;
use crate::error::Error;
use crate::message::transport::TransportMessage;

verus! {

/// A store of messages by their addresses. The library promises nothing of
/// it: whatever it answers, the user's state stays consistent.
pub trait Transport {
    /// What the transport answers when it has accepted a message.
    type SendResponse;

    /// Keeps `msg` at `address`.
    fn send_message(&mut self, address: Address, msg: TransportMessage) -> (r: Result<
        Self::SendResponse,
        Error,
    >);

    /// The message at `address`.
    fn recv_message(&mut self, address: Address) -> (r: Result<TransportMessage, Error>);
}

/// What sending a message hands back: where the message lives and what the
/// transport answered.
#[derive(Debug)]
pub struct SendResponse<TSR> {
    address: Address,
    response: TSR,
}

impl<TSR> SendResponse<TSR> {
    /// Where the message lives.
    pub closed spec fn spec_address(&self) -> Address {
        self.address
    }

    /// What the transport answered.
    pub closed spec fn spec_response(&self) -> TSR {
        self.response
    }

    /// The answer of the transport for the message at `address`.
    pub fn new(address: Address, response: TSR) -> (r: Self)
        ensures
            r.spec_address() == address,
            r.spec_response() == response,
    {
        SendResponse { address, response }
    }

    /// Where the message lives.
    pub fn address(&self) -> (r: Address)
        ensures
            r == self.spec_address(),
    {
        self.address
    }

    /// What the transport answered.
    pub fn response(&self) -> (r: &TSR)
        ensures
            *r == self.spec_response(),
    {
        &self.response
    }

    /// What the transport answered, out of the response.
    pub fn into_response(self) -> (r: TSR)
        ensures
            r == self.spec_response(),
    {
        self.response
    }
}

} // verus!
