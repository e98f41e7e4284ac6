//! What handling a message hands back.

use vstd::prelude::*;
use crate::address::Address;
use crate::id::identifier::Identifier;
use crate::id::permission::Permissioned;
use crate::id::psk::PskId;
use crate::kinds::announcement::Announcement;
use crate::kinds::keyload::key_view;
use crate::kinds::keyload::Keyload;
use crate::kinds::keyload::permission_views;
use crate::kinds::keyload::pskid_views;
use crate::kinds::signed_packet::Payload;
use crate::kinds::subscription::Subscription;
use crate::message::hdf::HDF;
use crate::message::transport::TransportMessage;

verus! {

/// What a message said, as a value.
pub enum Received {
    Announcement(Announcement),
    Keyload(Keyload),
    SignedPacket(Payload),
    TaggedPacket(Payload),
    Subscription(Subscription),
    Unsubscription(Seq<u8>),
    /// The message is linked to one that the user has not seen.
    Orphan,
}

/// What a message said.
#[derive(Debug)]
pub enum MessageContent {
    Announcement { author_identifier: Identifier, author_ke_pk: [u8; 32] },
    Keyload {
        nonce: [u8; 16],
        subscribers: Vec<Permissioned<Identifier>>,
        psks: Vec<PskId>,
        key: Option<[u8; 32]>,
    },
    SignedPacket { public_payload: Vec<u8>, masked_payload: Vec<u8> },
    TaggedPacket { public_payload: Vec<u8>, masked_payload: Vec<u8> },
    Subscription {
        unsubscribe_key: [u8; 32],
        subscriber_identifier: Identifier,
        subscriber_ke_pk: [u8; 32],
    },
    Unsubscription { subscriber_identifier: Identifier },
    /// The message is linked to one that the user has not seen; its bytes
    /// are kept so that it can be handled again later.
    Orphan { message: TransportMessage },
}

impl View for MessageContent {
    type V = Received;

    open spec fn view(&self) -> Received {
        match self {
            MessageContent::Announcement { author_identifier, author_ke_pk } => {
                Received::Announcement(
                    Announcement { author_id: author_identifier@, author_ke_pk: author_ke_pk@ },
                )
            },
            MessageContent::Keyload { nonce, subscribers, psks, key } => Received::Keyload(
                Keyload {
                    nonce: nonce@,
                    subscribers: permission_views(subscribers@),
                    psks: pskid_views(psks@),
                    key: key_view(*key),
                },
            ),
            MessageContent::SignedPacket { public_payload, masked_payload } => {
                Received::SignedPacket(
                    Payload { public: public_payload@, masked: masked_payload@ },
                )
            },
            MessageContent::TaggedPacket { public_payload, masked_payload } => {
                Received::TaggedPacket(
                    Payload { public: public_payload@, masked: masked_payload@ },
                )
            },
            MessageContent::Subscription {
                unsubscribe_key,
                subscriber_identifier,
                subscriber_ke_pk,
            } => Received::Subscription(
                Subscription {
                    unsubscribe_key: unsubscribe_key@,
                    subscriber_id: subscriber_identifier@,
                    subscriber_ke_pk: subscriber_ke_pk@,
                },
            ),
            MessageContent::Unsubscription { subscriber_identifier } => Received::Unsubscription(
                subscriber_identifier@,
            ),
            MessageContent::Orphan { message } => Received::Orphan,
        }
    }
}

/// A message that a user has handled: where it lives, its header and what it
/// said.
#[derive(Debug)]
pub struct Message {
    pub address: Address,
    pub header: HDF,
    pub content: MessageContent,
}

impl Message {
    /// The message at `address` with this header and content.
    pub fn new(address: Address, header: HDF, content: MessageContent) -> (r: Message)
        ensures
            r.address == address,
            r.header == header,
            r.content == content,
    {
        Message { address, header, content }
    }

    /// A message that is linked to one that the user has not seen.
    pub fn orphan(address: Address, header: HDF, message: TransportMessage) -> (r: Message)
        ensures
            r.address == address,
            r.header == header,
            r.content == (MessageContent::Orphan { message }),
    {
        Message { address, header, content: MessageContent::Orphan { message } }
    }

    /// Whether the message is linked to one that the user has not seen.
    pub fn is_orphan(&self) -> (r: bool)
        ensures
            r == (self.content@ is Orphan),
    {
        match &self.content {
            MessageContent::Orphan { .. } => true,
            _ => false,
        }
    }

    /// Where the message lives.
    pub fn address(&self) -> (r: Address)
        ensures
            r == self.address,
    {
        self.address
    }

    /// The header of the message.
    pub fn header(&self) -> (r: &HDF)
        ensures
            *r == self.header,
    {
        &self.header
    }

    /// What the message said.
    pub fn content(&self) -> (r: &MessageContent)
        ensures
            *r == self.content,
    {
        &self.content
    }
}

} // verus!
