//! The failures that the library reports.

use vstd::prelude::*;

verus! {

/// Why an operation of the library did not succeed.
#[derive(Clone, Copy, Debug, PartialEq, Eq, Structural)]
pub enum Error {
    /// The user is already bound to a stream.
    AlreadySubscribed,
    /// The user is not bound to a stream yet.
    NoStream,
    /// The user holds no identity.
    NoIdentity,
    /// The user has no cursor of their own, so they cannot publish.
    NotPublisher,
    /// The message that a new message is linked to is not in the store.
    UnknownLink,
    /// A header that must name a linked message names none.
    MissingLink,
    /// The transport already holds a message at the address.
    AddressConflict,
    /// A signature did not verify.
    BadSignature,
    /// The identifier cannot be used for the operation.
    BadIdentifier,
    /// A tag on the wire names no known variant.
    BadOneof,
    /// A message authentication code did not match.
    BadMac,
    /// The header names a message type that the user does not handle.
    UnknownMessageType,
    /// A payload frame number does not fit in 22 bits.
    FrameNumberOutOfRange,
    /// A header field holds a value outside its range.
    BadHeader,
    /// The input ended before the message did.
    UnexpectedEnd,
    /// A size on the wire does not fit the machine.
    SizeOverflow,
    /// The identity holds no signature key pair.
    NoSignatureKeyPair,
    /// A keyload names a subscriber whose exchange key is unknown.
    UnknownSubscriber,
    /// A keyload names a pre-shared key that is not in the store.
    UnknownPsk,
    /// The system gave no randomness.
    NoEntropy,
    /// The identity is bound to a decentralized identifier, which this
    /// library cannot sign or verify with.
    NotSupported,
    /// A restored state is inconsistent.
    BadState,
    /// The size computed for a message and the bytes written disagree.
    SizeMismatch,
    /// The transport failed.
    Transport,
}

} // verus!
