//! What sending a message takes: the message and the state that the sender
//! commits once the transport has accepted it.

use vstd::prelude::*;
use crate::address::Address;
use crate::address::AppAddr;
use crate::address::appaddr_of;
use crate::address::MsgId;
use crate::address::msgid_of;
use crate::api::state::ANN_MESSAGE_NUM;
use crate::api::state::INIT_MESSAGE_NUM;
use crate::api::state::next_cursor_of;
use crate::api::state::State;
use crate::api::state::StateView;
use crate::api::state::SUB_MESSAGE_NUM;
use crate::ddml::sizeof;
use crate::ddml::types::size_len;
use crate::ddml::x25519::sealed_len;
use crate::error::Error;
use crate::id::identifier::Identifier;
use crate::id::identifier::lemma_identifier;
use crate::id::identity::KeyPairs;
use crate::id::identity::Keys;
use crate::id::identity::signature_len;
use crate::id::identity::UserIdentity;
use crate::id::permission::Permission;
use crate::id::permission::Permissioned;
use crate::id::psk::Psk;
use crate::id::psk::PskId;
use crate::kinds::announcement;
use crate::kinds::announcement::announced_by;
use crate::kinds::announcement::put_announcement;
use crate::kinds::keyload;
use crate::kinds::keyload::keyload_len;
use crate::kinds::keyload::Load;
use crate::kinds::keyload::permission_views;
use crate::kinds::keyload::pskid_views;
use crate::kinds::keyload::put_keyload;
use crate::kinds::keyload::Recipient;
use crate::kinds::message_types;
use crate::kinds::signed_packet;
use crate::kinds::signed_packet::Payload;
use crate::kinds::signed_packet::put_signed_packet;
use crate::kinds::signed_packet::signed_packet_len;
use crate::kinds::subscription;
use crate::kinds::subscription::put_subscription;
use crate::kinds::subscription::Subscription;
use crate::kinds::subscription::subscription_len;
use crate::kinds::tagged_packet;
use crate::kinds::tagged_packet::put_tagged_packet;
use crate::kinds::tagged_packet::tagged_packet_len;
use crate::kinds::unsubscription;
use crate::kinds::unsubscription::put_unsubscription;
use crate::kinds::unsubscription::unsubscription_len;
use crate::message::content::ContentWrap;
use crate::message::hdf::HDF;
use crate::message::hdf::Header;
use crate::message::pcf::Frame;
use crate::message::pcf::frame_len;
use crate::message::pcf::PCF;
use crate::message::transport::TransportMessage;
use crate::message::version::FINAL_PCF_ID;
use crate::message::version::HDF_ID;
use crate::message::version::STREAMS_VERSION;
use crate::message::wrapped::framed;
use crate::message::wrapped::Message as FramedMessage;
use crate::spongos::Sponge;
use crate::spongos::Spongos;

verus! {

/// A message ready for the transport: where it goes, its bytes, the sponge
/// that it leaves and its sequence number.
pub struct Prepared {
    pub address: Address,
    pub message: TransportMessage,
    pub spongos: Spongos,
    pub cursor: u64,
}

/// A message ready for the transport, as a value.
pub struct Outgoing {
    pub base: Seq<u8>,
    pub relative: Seq<u8>,
    pub message: Seq<u8>,
    pub sponge: Sponge,
    pub cursor: u64,
}

impl View for Prepared {
    type V = Outgoing;

    open spec fn view(&self) -> Outgoing {
        Outgoing {
            base: self.address.base@,
            relative: self.address.relative@,
            message: self.message@,
            sponge: self.spongos@,
            cursor: self.cursor,
        }
    }
}

/// The frame of every message of a single frame.
pub open spec fn final_frame() -> Frame {
    Frame { frame_type: FINAL_PCF_ID, frame_num: 1 }
}

/// The header of a message of this type by `publisher` in the stream at
/// `base`.
pub open spec fn header_of(
    message_type: u8,
    sequence: u64,
    publisher: Seq<u8>,
    base: Seq<u8>,
    linked: Option<Seq<u8>>,
) -> Header {
    Header {
        version: STREAMS_VERSION,
        message_type,
        frame_type: HDF_ID,
        payload_length: 0,
        publisher,
        sequence,
        linked,
        address: base,
    }
}

/// The sponge from which the content of a message with the header `h` is
/// written.
pub open spec fn content_sponge(h: Header) -> Sponge {
    framed(h, final_frame()).0
}

/// The message with the header `h` whose content takes `body_len` bytes and
/// comes to `body`, ready for the transport; it is refused where its length
/// does not fit the machine.
pub open spec fn enveloped(
    h: Header,
    body_len: nat,
    body: (Sponge, Seq<u8>),
    relative: Seq<u8>,
    cursor: u64,
) -> Result<Outgoing, Error> {
    if h.len() + frame_len() + body_len > usize::MAX {
        Err(Error::SizeOverflow)
    } else {
        Ok(
            Outgoing {
                base: h.address,
                relative,
                message: framed(h, final_frame()).1 + body.1,
                sponge: body.0.commit(),
                cursor,
            },
        )
    }
}

/// Frames `content` under `header` and writes the message.
pub fn envelope<Content: ContentWrap>(header: HDF, content: Content, relative: MsgId, cursor: u64) -> (r:
    Result<Prepared, Error>)
    requires
        content.wf(),
    ensures
        match content.refusal() {
            Some(e) => r == Err::<Prepared, Error>(e),
            None => match enveloped(
                header@,
                content.spec_size(),
                content.spec_wire(content_sponge(header@)),
                relative@,
                cursor,
            ) {
                Ok(o) => r is Ok && r->Ok_0@ == o && r->Ok_0.spongos.wf() && r->Ok_0.address.relative
                    == relative,
                Err(e) => r is Err && r->Err_0 == e,
            },
        },
{
    let address = Address::new(header.address(), relative);
    let pcf = PCF::new_final_frame().with_content(content);
    let (message, spongos) = FramedMessage::new(header, pcf).wrap()?;
    Ok(Prepared { address, message, spongos, cursor })
}

/// The announcement of the stream with this index that a user in state `s`
/// sends, or why they cannot.
pub open spec fn prepared_announcement(s: StateView, index: u64) -> Result<Outgoing, Error> {
    if s.stream_address is Some {
        Err(Error::AlreadySubscribed)
    } else {
        match s.user_id {
            None => Err(Error::NoIdentity),
            Some(user) => match user.keys {
                Keys::Psk(_) => Err(Error::NoSignatureKeyPair),
                Keys::Keypair(kp) => {
                    let base = appaddr_of(user.id@, index);
                    let h = header_of(
                        message_types::ANNOUNCEMENT,
                        ANN_MESSAGE_NUM,
                        user.id@,
                        base,
                        None,
                    );
                    enveloped(
                        h,
                        crate::kinds::announcement::announcement_len(announced_by(user, kp)),
                        put_announcement(content_sponge(h), announced_by(user, kp), kp.sig.0@),
                        msgid_of(base, user.id@, ANN_MESSAGE_NUM),
                        INIT_MESSAGE_NUM,
                    )
                },
            },
        }
    }
}

/// What a publisher needs to send a message linked to `link_to`: the stream,
/// their identity with its key pair, their next sequence number and the
/// sponge of the linked message.
pub struct Publishing {
    pub stream: Address,
    pub user: UserIdentity,
    pub keys: KeyPairs,
    pub cursor: u64,
    pub linked: Sponge,
}

/// What a user needs to send a message linked to `link_to` that bears no
/// signature: the stream, their identity, their next sequence number and
/// the sponge of the linked message.
pub struct Posting {
    pub stream: Address,
    pub user: UserIdentity,
    pub cursor: u64,
    pub linked: Sponge,
}

/// Whether a user in state `s` can send a message linked to `link_to`, and
/// with what. They must be bound to a stream, hold an identity and a cursor
/// below 2^64 - 1, and hold the sponge of the linked message.
pub open spec fn posting(s: StateView, link_to: Seq<u8>) -> Result<Posting, Error> {
    match s.stream_address {
        None => Err(Error::NoStream),
        Some(stream) => match s.user_id {
            None => Err(Error::NoIdentity),
            Some(user) => match next_cursor_of(s) {
                Err(e) => Err(e),
                Ok(cursor) => if !s.spongos.contains_key(link_to) {
                    Err(Error::UnknownLink)
                } else {
                    Ok(Posting { stream, user, cursor, linked: s.spongos[link_to] })
                },
            },
        },
    }
}

/// Whether a user in state `s` can publish a signed message linked to
/// `link_to`, and with what: what sending any message takes, and an identity
/// with a key pair.
pub open spec fn publishing(s: StateView, link_to: Seq<u8>) -> Result<Publishing, Error> {
    match posting(s, link_to) {
        Err(e) => Err(e),
        Ok(q) => match q.user.keys {
            Keys::Psk(_) => Err(Error::NoSignatureKeyPair),
            Keys::Keypair(keys) => Ok(
                Publishing {
                    stream: q.stream,
                    user: q.user,
                    keys,
                    cursor: q.cursor,
                    linked: q.linked,
                },
            ),
        },
    }
}

/// The header of a message of this type that a user sends.
pub open spec fn posted_header(q: Posting, message_type: u8, link_to: Seq<u8>) -> Header {
    header_of(message_type, q.cursor, q.user.id@, q.stream.base@, Some(link_to))
}

/// The identifier of the message that a user sends.
pub open spec fn posted_id(q: Posting) -> Seq<u8> {
    msgid_of(q.stream.base@, q.user.id@, q.cursor)
}

/// The header of a message of this type that a publisher sends.
pub open spec fn published_header(p: Publishing, message_type: u8, link_to: Seq<u8>) -> Header {
    header_of(message_type, p.cursor, p.user.id@, p.stream.base@, Some(link_to))
}

/// The identifier of the message that a publisher sends.
pub open spec fn published_id(p: Publishing) -> Seq<u8> {
    msgid_of(p.stream.base@, p.user.id@, p.cursor)
}

/// The unsubscription linked to `link_to` that a user in state `s` sends,
/// or why they cannot.
pub open spec fn prepared_unsubscription(s: StateView, link_to: Seq<u8>) -> Result<Outgoing, Error> {
    match publishing(s, link_to) {
        Err(e) => Err(e),
        Ok(p) => {
            let h = published_header(p, message_types::UNSUBSCRIPTION, link_to);
            enveloped(
                h,
                unsubscription_len(p.user.id@),
                put_unsubscription(content_sponge(h), p.linked, p.user.id@, p.keys.sig.0@),
                published_id(p),
                p.cursor,
            )
        },
    }
}

/// The signed packet linked to `link_to` that a user in state `s` sends, or
/// why they cannot.
pub open spec fn prepared_signed_packet(s: StateView, link_to: Seq<u8>, payload: Payload) -> Result<
    Outgoing,
    Error,
> {
    match publishing(s, link_to) {
        Err(e) => Err(e),
        Ok(p) => {
            let h = published_header(p, message_types::SIGNED_PACKET, link_to);
            enveloped(
                h,
                signed_packet_len(payload),
                put_signed_packet(content_sponge(h), p.linked, payload, p.keys.sig.0@),
                published_id(p),
                p.cursor,
            )
        },
    }
}

/// The tagged packet linked to `link_to` that a user in state `s` sends, or
/// why they cannot. A tagged packet bears no signature, so a holder of a
/// pre-shared key sends it as well.
pub open spec fn prepared_tagged_packet(s: StateView, link_to: Seq<u8>, payload: Payload) -> Result<
    Outgoing,
    Error,
> {
    match posting(s, link_to) {
        Err(e) => Err(e),
        Ok(q) => {
            let h = posted_header(q, message_types::TAGGED_PACKET, link_to);
            enveloped(
                h,
                tagged_packet_len(payload),
                put_tagged_packet(content_sponge(h), q.linked, payload),
                posted_id(q),
                q.cursor,
            )
        },
    }
}

/// What a subscriber needs to ask to join: the stream, their identity with
/// its key pair, the sponge of the linked message and the author's exchange
/// key.
pub struct Subscribing {
    pub stream: Address,
    pub user: UserIdentity,
    pub keys: KeyPairs,
    pub linked: Sponge,
    pub author_ke_pk: Seq<u8>,
}

/// Whether a user in state `s` can ask to join with a subscription linked to
/// `link_to`, and with what. They must be bound to a stream, hold an
/// identity with a key pair, hold the sponge of the linked message and know
/// the author's exchange key.
pub open spec fn subscribing(s: StateView, link_to: Seq<u8>) -> Result<Subscribing, Error> {
    match s.stream_address {
        None => Err(Error::NoStream),
        Some(stream) => match s.user_id {
            None => Err(Error::NoIdentity),
            Some(user) => if !s.spongos.contains_key(link_to) {
                Err(Error::UnknownLink)
            } else if s.author_identifier is None || !s.exchange_keys.contains_key(
                s.author_identifier->0,
            ) {
                Err(Error::NoStream)
            } else {
                match user.keys {
                    Keys::Psk(_) => Err(Error::NoSignatureKeyPair),
                    Keys::Keypair(keys) => Ok(
                        Subscribing {
                            stream,
                            user,
                            keys,
                            linked: s.spongos[link_to],
                            author_ke_pk: s.exchange_keys[s.author_identifier->0],
                        },
                    ),
                }
            },
        },
    }
}

/// The identifier of the subscription that a subscriber sends.
pub open spec fn subscribed_id(p: Subscribing) -> Seq<u8> {
    msgid_of(p.stream.base@, p.user.id@, SUB_MESSAGE_NUM)
}

/// The subscription linked to `link_to` that a user in state `s` sends, with
/// this key sealed by this one-time secret key, or why they cannot.
pub open spec fn prepared_subscription(
    s: StateView,
    link_to: Seq<u8>,
    unsubscribe_key: Seq<u8>,
    ephemeral: Seq<u8>,
) -> Result<Outgoing, Error> {
    match subscribing(s, link_to) {
        Err(e) => Err(e),
        Ok(p) => {
            let h = header_of(
                message_types::SUBSCRIPTION,
                SUB_MESSAGE_NUM,
                p.user.id@,
                p.stream.base@,
                Some(link_to),
            );
            let sub = Subscription {
                unsubscribe_key,
                subscriber_id: p.user.id@,
                subscriber_ke_pk: p.keys.key_exchange.1@,
            };
            enveloped(
                h,
                subscription_len(sub),
                put_subscription(
                    content_sponge(h),
                    p.linked,
                    ephemeral,
                    p.author_ke_pk,
                    sub,
                    p.keys.sig.0@,
                ),
                subscribed_id(p),
                SUB_MESSAGE_NUM,
            )
        },
    }
}

/// A subscriber that a keyload is to be for: what they may do, and the
/// one-time secret key that seals the key for them.
#[derive(Clone, Copy, Debug)]
pub struct Invitation {
    pub permission: Permissioned<Identifier>,
    pub ephemeral: [u8; 32],
}

/// The subscribers with their exchange keys, or `UnknownSubscriber` where
/// the exchange key of one of them is not known.
pub open spec fn seats_for(s: StateView, invited: Seq<Invitation>) -> Result<Seq<keyload::Seat>, Error>
    decreases invited.len(),
{
    if invited.len() == 0 {
        Ok(Seq::empty())
    } else {
        match seats_for(s, invited.drop_last()) {
            Err(e) => Err(e),
            Ok(v) => {
                let last = invited.last();
                if s.exchange_keys.contains_key(last.permission@.id) {
                    Ok(
                        v.push(
                            keyload::Seat {
                                permission: last.permission@,
                                ke_pk: s.exchange_keys[last.permission@.id],
                                ephemeral: last.ephemeral@,
                            },
                        ),
                    )
                } else {
                    Err(Error::UnknownSubscriber)
                }
            },
        }
    }
}

/// The pre-shared keys with their identifiers, or `UnknownPsk` where one of
/// them is not in the store.
pub open spec fn psks_for(s: StateView, ids: Seq<Seq<u8>>) -> Result<Seq<(Seq<u8>, Seq<u8>)>, Error>
    decreases ids.len(),
{
    if ids.len() == 0 {
        Ok(Seq::empty())
    } else {
        match psks_for(s, ids.drop_last()) {
            Err(e) => Err(e),
            Ok(v) => if s.psks.contains_key(ids.last()) {
                Ok(v.push((ids.last(), s.psks[ids.last()])))
            } else {
                Err(Error::UnknownPsk)
            },
        }
    }
}

/// The permissions of the invited, as values.
pub open spec fn invited_permissions(invited: Seq<Invitation>) -> Seq<Permission> {
    Seq::new(invited.len(), |i: int| invited[i].permission@)
}

/// The keyload linked to `link_to` that a user in state `s` sends to hand
/// `key` to the invited and to the holders of the pre-shared keys with the
/// identifiers `psk_ids`, or why they cannot. The slots are written from the
/// sponge of the announcement.
pub open spec fn prepared_keyload(
    s: StateView,
    link_to: Seq<u8>,
    invited: Seq<Invitation>,
    psk_ids: Seq<Seq<u8>>,
    key: Seq<u8>,
    nonce: Seq<u8>,
) -> Result<Outgoing, Error> {
    match publishing(s, link_to) {
        Err(e) => Err(e),
        Ok(p) => match seats_for(s, invited) {
            Err(e) => Err(e),
            Ok(subscribers) => match psks_for(s, psk_ids) {
                Err(e) => Err(e),
                Ok(psks) => {
                    let h = published_header(p, message_types::KEYLOAD, link_to);
                    let load = Load {
                        initial: s.spongos[p.stream.relative@],
                        nonce,
                        subscribers,
                        psks,
                        key,
                    };
                    enveloped(
                        h,
                        keyload_len(load),
                        put_keyload(content_sponge(h), load, p.keys.sig.0@),
                        published_id(p),
                        p.cursor,
                    )
                },
            },
        },
    }
}

/// Whether the exchange key of every one of the subscribers is known.
pub open spec fn known_subscribers(s: StateView, permissions: Seq<Permission>) -> bool {
    forall|i: int|
        0 <= i < permissions.len() ==> s.exchange_keys.contains_key((#[trigger] permissions[i]).id)
}

/// Whether every one of the pre-shared keys is in the store.
pub open spec fn known_psks(s: StateView, ids: Seq<Seq<u8>>) -> bool {
    forall|i: int| 0 <= i < ids.len() ==> s.psks.contains_key(#[trigger] ids[i])
}

/// Number of bytes of the slots of these subscribers: for each their
/// permission and a sealed key.
pub open spec fn seats_size(permissions: Seq<Permission>) -> nat
    decreases permissions.len(),
{
    if permissions.len() == 0 {
        0
    } else {
        seats_size(permissions.drop_last()) + permissions.last().len() + sealed_len()
    }
}

/// Number of bytes of a keyload for these subscribers and as many
/// pre-shared keys.
pub open spec fn keyload_size(permissions: Seq<Permission>, psks: nat) -> nat {
    keyload::NONCE_SIZE as nat + size_len(permissions.len() as u64) + seats_size(permissions)
        + size_len(psks as u64) + psks * keyload::psk_slot_len() + signature_len()
}

/// Why a user in state `s` cannot send a keyload linked to `link_to` for
/// these subscribers and pre-shared keys, if they cannot; it does not depend
/// on the key, the nonce or the one-time keys. In this order: what
/// publishing takes is missing; the exchange key of a subscriber is not
/// known; a pre-shared key is not in the store; the keyload is too long for
/// the machine.
pub open spec fn keyload_refusal(
    s: StateView,
    link_to: Seq<u8>,
    permissions: Seq<Permission>,
    psk_ids: Seq<Seq<u8>>,
) -> Option<Error> {
    match publishing(s, link_to) {
        Err(e) => Some(e),
        Ok(p) => if !known_subscribers(s, permissions) {
            Some(Error::UnknownSubscriber)
        } else if !known_psks(s, psk_ids) {
            Some(Error::UnknownPsk)
        } else if published_header(p, message_types::KEYLOAD, link_to).len() + frame_len()
            + keyload_size(permissions, psk_ids.len()) > usize::MAX {
            Some(Error::SizeOverflow)
        } else {
            None
        },
    }
}

/// What a keyload that was sent comes to: for some one-time keys, key and
/// nonce, the keyload for these subscribers and pre-shared keys was prepared
/// from the state `s`, it lives at `address`, and `after` is the state once
/// it is committed.
pub open spec fn sent_keyload(
    s: StateView,
    link_to: Seq<u8>,
    permissions: Seq<Permission>,
    psk_ids: Seq<Seq<u8>>,
    invited: Seq<Invitation>,
    key: Seq<u8>,
    nonce: Seq<u8>,
    after: StateView,
    address: Address,
) -> bool {
    &&& invited_permissions(invited) == permissions
    &&& prepared_keyload(s, link_to, invited, psk_ids, key, nonce) is Ok
    &&& after == committed_keyload(
        s,
        prepared_keyload(s, link_to, invited, psk_ids, key, nonce)->Ok_0,
        permissions,
    )
    &&& address.base@ == prepared_keyload(s, link_to, invited, psk_ids, key, nonce)->Ok_0.base
    &&& address.relative@ == prepared_keyload(
        s,
        link_to,
        invited,
        psk_ids,
        key,
        nonce,
    )->Ok_0.relative
}

/// Whether a keyload for these subscribers and pre-shared keys was sent from
/// the state `s` and left the state `after`, for some one-time keys, key and
/// nonce, which are drawn fresh and so are not known beforehand.
pub open spec fn keyload_sent(
    s: StateView,
    link_to: Seq<u8>,
    permissions: Seq<Permission>,
    psk_ids: Seq<Seq<u8>>,
    after: StateView,
    address: Address,
) -> bool {
    exists|invited: Seq<Invitation>, key: Seq<u8>, nonce: Seq<u8>| #[trigger]
        sent_keyload(s, link_to, permissions, psk_ids, invited, key, nonce, after, address)
}

/// The state once a subscription of the user has been accepted by the
/// transport: the user stands at the sequence number of subscriptions,
/// unless they stand above it already; no sponge is kept.
pub open spec fn committed_subscription(s: StateView) -> StateView {
    match s.identifier() {
        Some(id) => s.with_seen(id, SUB_MESSAGE_NUM),
        None => s,
    }
}

/// The state once a keyload of the user has been accepted by the transport:
/// every invited subscriber that may write and stands below the first
/// sequence number, or nowhere yet, starts there; then the user's cursor is
/// the sequence number of the keyload and the sponge that it left is kept.
pub open spec fn committed_keyload(s: StateView, o: Outgoing, invited: Seq<Permission>) -> StateView {
    committed(s.with_permitted(invited), o)
}

/// The state once a message of the user has been accepted by the transport:
/// their cursor is its sequence number and the sponge that it left is kept.
pub open spec fn committed(s: StateView, o: Outgoing) -> StateView {
    match s.identifier() {
        Some(id) => s.with_cursor(id, o.cursor).with_spongos(o.relative, o.sponge),
        None => s,
    }
}

/// The state once the announcement of the user has been accepted by the
/// transport: the user is bound to the stream as its author.
pub open spec fn committed_announcement(s: StateView, address: Address, o: Outgoing) -> StateView {
    StateView {
        stream_address: Some(address),
        author_identifier: s.identifier(),
        ..committed(s, o)
    }
}

impl State {
    /// What the user sends a message linked to `link_to` with.
    pub fn posting(&self, link_to: &MsgId) -> (r: Result<(Address, UserIdentity, u64, Spongos), Error>)
        requires
            self.wf(),
        ensures
            match posting(self@, link_to@) {
                Ok(q) => r is Ok && r->Ok_0.0 == q.stream && r->Ok_0.1 == q.user && r->Ok_0.2
                    == q.cursor && r->Ok_0.3@ == q.linked && r->Ok_0.3.wf(),
                Err(e) => r is Err && r->Err_0 == e,
            },
    {
        let stream = match self.stream_address {
            Some(a) => a,
            None => {
                return Err(Error::NoStream);
            },
        };
        let user = match self.user_id {
            Some(u) => u,
            None => {
                return Err(Error::NoIdentity);
            },
        };
        let cursor = self.next_cursor()?;
        let linked = match self.spongos_store.get(link_to) {
            Some(s) => s,
            None => {
                return Err(Error::UnknownLink);
            },
        };
        Ok((stream, user, cursor, linked))
    }

    /// What the user publishes a signed message linked to `link_to` with.
    pub fn publishing(&self, link_to: &MsgId) -> (r: Result<
        (Address, UserIdentity, KeyPairs, u64, Spongos),
        Error,
    >)
        requires
            self.wf(),
        ensures
            match publishing(self@, link_to@) {
                Ok(p) => r is Ok && r->Ok_0.0 == p.stream && r->Ok_0.1 == p.user && r->Ok_0.2
                    == p.keys && r->Ok_0.3 == p.cursor && r->Ok_0.4@ == p.linked && r->Ok_0.4.wf(),
                Err(e) => r is Err && r->Err_0 == e,
            },
    {
        let (stream, user, cursor, linked) = self.posting(link_to)?;
        match user.keys {
            Keys::Keypair(keys) => Ok((stream, user, keys, cursor, linked)),
            Keys::Psk(_) => Err(Error::NoSignatureKeyPair),
        }
    }

    /// The announcement of the stream with this index, ready for the
    /// transport.
    pub fn prepare_announcement(&self, stream_idx: usize) -> (r: Result<Prepared, Error>)
        requires
            self.wf(),
        ensures
            match prepared_announcement(self@, stream_idx as u64) {
                Ok(o) => r is Ok && r->Ok_0@ == o && r->Ok_0.spongos.wf(),
                Err(e) => r is Err && r->Err_0 == e,
            },
    {
        if self.stream_address.is_some() {
            return Err(Error::AlreadySubscribed);
        }
        let user = match self.user_id {
            Some(u) => u,
            None => {
                return Err(Error::NoIdentity);
            },
        };
        match user.keys {
            Keys::Keypair(_) => {},
            Keys::Psk(_) => {
                return Err(Error::NoSignatureKeyPair);
            },
        }
        let base = AppAddr::gen(user.id, stream_idx);
        let relative = MsgId::gen(base, user.id, ANN_MESSAGE_NUM);
        let header = HDF::new(message_types::ANNOUNCEMENT, ANN_MESSAGE_NUM, user.id, base);
        envelope(header, announcement::Wrap::new(&user), relative, INIT_MESSAGE_NUM)
    }

    /// The unsubscription linked to `link_to`, ready for the transport.
    pub fn prepare_unsubscription(&self, link_to: MsgId) -> (r: Result<Prepared, Error>)
        requires
            self.wf(),
        ensures
            match prepared_unsubscription(self@, link_to@) {
                Ok(o) => r is Ok && r->Ok_0@ == o && r->Ok_0.spongos.wf(),
                Err(e) => r is Err && r->Err_0 == e,
            },
    {
        let (stream, user, _keys, cursor, linked) = self.publishing(&link_to)?;
        let relative = MsgId::gen(stream.base(), user.id, cursor);
        let header = HDF::new(
            message_types::UNSUBSCRIPTION,
            cursor,
            user.id,
            stream.base(),
        ).with_linked_msg_address(link_to);
        envelope(header, unsubscription::Wrap::new(&linked, &user), relative, cursor)
    }

    /// The signed packet linked to `link_to`, ready for the transport.
    pub fn prepare_signed_packet(
        &self,
        link_to: MsgId,
        public_payload: &[u8],
        masked_payload: &[u8],
    ) -> (r: Result<Prepared, Error>)
        requires
            self.wf(),
        ensures
            match prepared_signed_packet(
                self@,
                link_to@,
                Payload { public: public_payload@, masked: masked_payload@ },
            ) {
                Ok(o) => r is Ok && r->Ok_0@ == o && r->Ok_0.spongos.wf(),
                Err(e) => r is Err && r->Err_0 == e,
            },
    {
        let (stream, user, _keys, cursor, linked) = self.publishing(&link_to)?;
        let relative = MsgId::gen(stream.base(), user.id, cursor);
        let header = HDF::new(
            message_types::SIGNED_PACKET,
            cursor,
            user.id,
            stream.base(),
        ).with_linked_msg_address(link_to);
        envelope(
            header,
            signed_packet::Wrap::new(&linked, &user, public_payload, masked_payload),
            relative,
            cursor,
        )
    }

    /// The tagged packet linked to `link_to`, ready for the transport.
    pub fn prepare_tagged_packet(
        &self,
        link_to: MsgId,
        public_payload: &[u8],
        masked_payload: &[u8],
    ) -> (r: Result<Prepared, Error>)
        requires
            self.wf(),
        ensures
            match prepared_tagged_packet(
                self@,
                link_to@,
                Payload { public: public_payload@, masked: masked_payload@ },
            ) {
                Ok(o) => r is Ok && r->Ok_0@ == o && r->Ok_0.spongos.wf(),
                Err(e) => r is Err && r->Err_0 == e,
            },
    {
        let (stream, user, cursor, linked) = self.posting(&link_to)?;
        let relative = MsgId::gen(stream.base(), user.id, cursor);
        let header = HDF::new(
            message_types::TAGGED_PACKET,
            cursor,
            user.id,
            stream.base(),
        ).with_linked_msg_address(link_to);
        envelope(
            header,
            tagged_packet::Wrap::new(&linked, public_payload, masked_payload),
            relative,
            cursor,
        )
    }

    /// What the user asks to join with, in a subscription linked to
    /// `link_to`.
    pub fn subscribing(&self, link_to: &MsgId) -> (r: Result<
        (Address, UserIdentity, Spongos, [u8; 32]),
        Error,
    >)
        requires
            self.wf(),
        ensures
            match subscribing(self@, link_to@) {
                Ok(p) => r is Ok && r->Ok_0.0 == p.stream && r->Ok_0.1 == p.user && r->Ok_0.1.keys
                    == Keys::Keypair(p.keys) && r->Ok_0.2@ == p.linked && r->Ok_0.2.wf()
                    && r->Ok_0.3@ == p.author_ke_pk,
                Err(e) => r is Err && r->Err_0 == e,
            },
    {
        let stream = match self.stream_address {
            Some(a) => a,
            None => {
                return Err(Error::NoStream);
            },
        };
        let user = match self.user_id {
            Some(u) => u,
            None => {
                return Err(Error::NoIdentity);
            },
        };
        let linked = match self.spongos_store.get(link_to) {
            Some(s) => s,
            None => {
                return Err(Error::UnknownLink);
            },
        };
        let author_ke_pk = match self.author_identifier {
            Some(author) => match self.exchange_keys.get(&author.to_bytes()) {
                Some(k) => k,
                None => {
                    return Err(Error::NoStream);
                },
            },
            None => {
                return Err(Error::NoStream);
            },
        };
        match user.keys {
            Keys::Keypair(_) => Ok((stream, user, linked, author_ke_pk)),
            Keys::Psk(_) => Err(Error::NoSignatureKeyPair),
        }
    }

    /// The subscription linked to `link_to`, ready for the transport;
    /// `unsubscribe_key` is sealed for the author with the one-time secret
    /// key `ephemeral`.
    pub fn prepare_subscription(
        &self,
        link_to: MsgId,
        unsubscribe_key: [u8; 32],
        ephemeral: [u8; 32],
    ) -> (r: Result<Prepared, Error>)
        requires
            self.wf(),
        ensures
            match prepared_subscription(self@, link_to@, unsubscribe_key@, ephemeral@) {
                Ok(o) => r is Ok && r->Ok_0@ == o && r->Ok_0.spongos.wf(),
                Err(e) => r is Err && r->Err_0 == e,
            },
    {
        let (stream, user, linked, author_ke_pk) = self.subscribing(&link_to)?;
        let relative = MsgId::gen(stream.base(), user.id, SUB_MESSAGE_NUM);
        let header = HDF::new(
            message_types::SUBSCRIPTION,
            SUB_MESSAGE_NUM,
            user.id,
            stream.base(),
        ).with_linked_msg_address(link_to);
        envelope(
            header,
            subscription::Wrap::new(&linked, unsubscribe_key, ephemeral, &user, &author_ke_pk),
            relative,
            SUB_MESSAGE_NUM,
        )
    }

    /// The invited with their exchange keys.
    pub fn seats_for(&self, invited: &[Invitation]) -> (r: Result<Vec<Recipient>, Error>)
        requires
            self.wf(),
        ensures
            match seats_for(self@, invited@) {
                Ok(v) => r is Ok && keyload::seats(r->Ok_0@) == v,
                Err(e) => r is Err && r->Err_0 == e,
            },
    {
        let mut out: Vec<Recipient> = Vec::new();
        let mut i: usize = 0;
        assert(keyload::seats(out@) =~= Seq::<keyload::Seat>::empty());
        while i < invited.len()
            invariant
                i <= invited.len(),
                out@.len() == i,
                self.wf(),
                seats_for(self@, invited@.take(i as int)) == Ok::<Seq<keyload::Seat>, Error>(
                    keyload::seats(out@),
                ),
            decreases invited.len() - i,
        {
            proof {
                assert(invited@.take(i + 1).drop_last() =~= invited@.take(i as int));
                invited[i as int].permission.lemma_wf();
            }
            let ghost before = out@;
            let id = match &invited[i].permission {
                Permissioned::Read(id) => id.to_bytes(),
                Permissioned::ReadWrite(id, _) => id.to_bytes(),
                Permissioned::Admin(id) => id.to_bytes(),
            };
            match self.exchange_keys.get(&id) {
                Some(ke_pk) => {
                    out.push(
                        Recipient {
                            permission: invited[i].permission,
                            ke_pk,
                            ephemeral: invited[i].ephemeral,
                        },
                    );
                    proof {
                        assert(keyload::seats(out@) =~= keyload::seats(before).push(
                            out@[i as int]@,
                        ));
                    }
                },
                None => {
                    proof {
                        lemma_seats_for_err(self@, invited@, i + 1);
                    }
                    return Err(Error::UnknownSubscriber);
                },
            }
            i = i + 1;
        }
        assert(invited@.take(i as int) =~= invited@);
        Ok(out)
    }

    /// The pre-shared keys with these identifiers.
    pub fn psks_for(&self, ids: &[PskId]) -> (r: Result<Vec<(PskId, Psk)>, Error>)
        requires
            self.wf(),
        ensures
            match psks_for(self@, pskid_views(ids@)) {
                Ok(v) => r is Ok && keyload::psk_pairs(r->Ok_0@) == v,
                Err(e) => r is Err && r->Err_0 == e,
            },
    {
        let ghost all = pskid_views(ids@);
        let mut out: Vec<(PskId, Psk)> = Vec::new();
        let mut i: usize = 0;
        assert(keyload::psk_pairs(out@) =~= Seq::<(Seq<u8>, Seq<u8>)>::empty());
        while i < ids.len()
            invariant
                i <= ids.len(),
                self.wf(),
                all == pskid_views(ids@),
                psks_for(self@, all.take(i as int)) == Ok::<Seq<(Seq<u8>, Seq<u8>)>, Error>(
                    keyload::psk_pairs(out@),
                ),
            decreases ids.len() - i,
        {
            proof {
                assert(all.take(i + 1).drop_last() =~= all.take(i as int));
                assert(all.take(i + 1).last() == ids@[i as int]@);
            }
            let ghost before = out@;
            let id = ids[i].to_bytes();
            match self.psk_store.get(&vstd::slice::slice_to_vec(id.as_slice())) {
                Some(psk) => {
                    out.push((ids[i], Psk::new(psk)));
                    proof {
                        assert(keyload::psk_pairs(out@) =~= keyload::psk_pairs(before).push(
                            (ids[i as int]@, psk@),
                        ));
                    }
                },
                None => {
                    proof {
                        lemma_psks_for_err(self@, all, i + 1);
                    }
                    return Err(Error::UnknownPsk);
                },
            }
            i = i + 1;
        }
        assert(all.take(i as int) =~= all);
        Ok(out)
    }

    /// Whether the user can send a keyload linked to `link_to` for these
    /// subscribers and pre-shared keys, before any key is drawn: the error
    /// that preparing it would give, if it would give one.
    #[verifier::rlimit(40)]
    pub fn check_keyload(
        &self,
        link_to: &MsgId,
        subscribers: &[Permissioned<Identifier>],
        psk_ids: &[PskId],
    ) -> (r: Result<(), Error>)
        requires
            self.wf(),
        ensures
            r == match keyload_refusal(
                self@,
                link_to@,
                permission_views(subscribers@),
                pskid_views(psk_ids@),
            ) {
                Some(e) => Err::<(), Error>(e),
                None => Ok::<(), Error>(()),
            },
    {
        let ghost permissions = permission_views(subscribers@);
        let ghost ids = pskid_views(psk_ids@);
        let ghost p = publishing(self@, link_to@);
        let (stream, user, _keys, cursor, _linked) = self.publishing(link_to)?;
        let mut i: usize = 0;
        while i < subscribers.len()
            invariant
                i <= subscribers.len(),
                self.wf(),
                p == publishing(self@, link_to@),
                p is Ok,
                ids == pskid_views(psk_ids@),
                permissions == permission_views(subscribers@),
                forall|j: int|
                    0 <= j < i ==> self@.exchange_keys.contains_key((#[trigger] permissions[j]).id),
            decreases subscribers.len() - i,
        {
            let id = subscribers[i].identifier().to_bytes();
            proof {
                subscribers[i as int].lemma_wf();
                assert(permissions[i as int] == subscribers[i as int]@);
            }
            if self.exchange_keys.get(&id).is_none() {
                assert(!self@.exchange_keys.contains_key(permissions[i as int].id));
                return Err(Error::UnknownSubscriber);
            }
            i = i + 1;
        }
        let mut i: usize = 0;
        while i < psk_ids.len()
            invariant
                i <= psk_ids.len(),
                self.wf(),
                p == publishing(self@, link_to@),
                p is Ok,
                permissions == permission_views(subscribers@),
                ids == pskid_views(psk_ids@),
                known_subscribers(self@, permissions),
                forall|j: int| 0 <= j < i ==> self@.psks.contains_key(#[trigger] ids[j]),
            decreases psk_ids.len() - i,
        {
            let id = psk_ids[i].to_bytes();
            proof {
                assert(ids[i as int] == psk_ids[i as int]@);
            }
            if self.psk_store.get(&vstd::slice::slice_to_vec(id.as_slice())).is_none() {
                assert(!self@.psks.contains_key(ids[i as int]));
                return Err(Error::UnknownPsk);
            }
            i = i + 1;
        }
        let header = HDF::new(
            message_types::KEYLOAD,
            cursor,
            user.id,
            stream.base(),
        ).with_linked_msg_address(*link_to);
        let ghost h = header@;
        let ghost total = h.len() + frame_len() + keyload_size(permissions, ids.len());
        let mut size = sizeof::Context::new();
        proof {
            assert(keyload::psk_slot_len() == 48);
            lemma_seats_size_prefix(permissions, 0);
            assert(permissions.take(0) =~= Seq::<Permission>::empty());
        }
        header.sizeof(&mut size)?;
        size.add(4 + keyload::NONCE_SIZE)?;
        size.add_size(subscribers.len() as u64)?;
        let ghost start = size@;
        let mut i: usize = 0;
        while i < subscribers.len()
            invariant
                i <= subscribers.len(),
                p == publishing(self@, link_to@),
                p is Ok,
                h == published_header(p->Ok_0, message_types::KEYLOAD, link_to@),
                known_subscribers(self@, permissions),
                known_psks(self@, ids),
                ids == pskid_views(psk_ids@),
                permissions == permission_views(subscribers@),
                start == h.len() + frame_len() + keyload::NONCE_SIZE + size_len(
                    permissions.len() as u64,
                ),
                total == h.len() + frame_len() + keyload_size(permissions, ids.len()),
                size@ == start + seats_size(permissions.take(i as int)),
            decreases subscribers.len() - i,
        {
            proof {
                assert(permissions.take(i + 1).drop_last() =~= permissions.take(i as int));
                assert(permissions.take(i + 1).last() == subscribers[i as int]@);
                lemma_seats_size_prefix(permissions, i + 1);
            }
            subscribers[i].sizeof(&mut size)?;
            size.add(64)?;
            i = i + 1;
        }
        assert(permissions.take(i as int) =~= permissions);
        size.add_size(psk_ids.len() as u64)?;
        match psk_ids.len().checked_mul(48) {
            Some(n) => {
                size.add(n)?;
            },
            None => {
                return Err(Error::SizeOverflow);
            },
        }
        size.add(65)?;
        let fits: usize = size.size();
        Ok(())
    }

    /// The keyload linked to `link_to` that hands `key` to the invited and
    /// to the holders of the pre-shared keys, ready for the transport.
    pub fn prepare_keyload(
        &self,
        link_to: MsgId,
        invited: &[Invitation],
        psk_ids: &[PskId],
        key: [u8; 32],
        nonce: [u8; 16],
    ) -> (r: Result<Prepared, Error>)
        requires
            self.wf(),
        ensures
            match prepared_keyload(
                self@,
                link_to@,
                invited@,
                pskid_views(psk_ids@),
                key@,
                nonce@,
            ) {
                Ok(o) => r is Ok && r->Ok_0@ == o && r->Ok_0.spongos.wf(),
                Err(e) => r is Err && r->Err_0 == e,
            },
    {
        let (stream, user, _keys, cursor, _linked) = self.publishing(&link_to)?;
        let announced = match self.spongos_store.get(&stream.relative()) {
            Some(s) => s,
            None => {
                return Err(Error::NoStream);
            },
        };
        let subscribers = self.seats_for(invited)?;
        let psks = self.psks_for(psk_ids)?;
        let relative = MsgId::gen(stream.base(), user.id, cursor);
        let header = HDF::new(
            message_types::KEYLOAD,
            cursor,
            user.id,
            stream.base(),
        ).with_linked_msg_address(link_to);
        envelope(
            header,
            keyload::Wrap::new(
                &announced,
                subscribers.as_slice(),
                psks.as_slice(),
                key,
                nonce,
                &user,
            ),
            relative,
            cursor,
        )
    }

    /// Commits a subscription of the user that the transport has accepted:
    /// the user stands at the sequence number of subscriptions, unless they
    /// stand above it already; no sponge is kept.
    pub fn commit_subscription(&mut self)
        requires
            old(self).wf(),
        ensures
            final(self).wf(),
            final(self)@ == committed_subscription(old(self)@),
    {
        match self.user_id {
            Some(user) => {
                proof {
                    lemma_identifier(user.id);
                }
                self.see(&user.id, SUB_MESSAGE_NUM);
            },
            None => {},
        }
    }

    /// Commits a keyload of the user that the transport has accepted.
    pub fn commit_keyload(&mut self, prepared: &Prepared, invited: &[Invitation])
        requires
            old(self).wf(),
            prepared.spongos.wf(),
        ensures
            final(self).wf(),
            final(self)@ == committed_keyload(
                old(self)@,
                prepared@,
                invited_permissions(invited@),
            ),
    {
        let mut permissions: Vec<Permissioned<Identifier>> = Vec::new();
        let mut i: usize = 0;
        while i < invited.len()
            invariant
                i <= invited.len(),
                permissions@.len() == i,
                forall|j: int| 0 <= j < i ==> permissions@[j] == invited@[j].permission,
            decreases invited.len() - i,
        {
            permissions.push(invited[i].permission);
            i = i + 1;
        }
        assert(permission_views(permissions@) =~= invited_permissions(invited@));
        self.permit(&permissions);
        self.commit(prepared);
    }

    /// Commits a message of the user that the transport has accepted: their
    /// cursor becomes its sequence number and the sponge that it left is
    /// kept.
    pub fn commit(&mut self, prepared: &Prepared)
        requires
            old(self).wf(),
            prepared.spongos.wf(),
        ensures
            final(self).wf(),
            final(self)@ == committed(old(self)@, prepared@),
    {
        match self.user_id {
            Some(user) => {
                self.cursor_store.insert_cursor(user.id, prepared.cursor);
                self.spongos_store.insert(prepared.address.relative(), prepared.spongos);
            },
            None => {},
        }
    }

    /// Commits the announcement of the user that the transport has accepted:
    /// the user is bound to the stream as its author.
    pub fn commit_announcement(&mut self, prepared: &Prepared)
        requires
            old(self).wf(),
            old(self).user_id is Some,
            prepared.spongos.wf(),
        ensures
            final(self).wf(),
            final(self)@ == committed_announcement(old(self)@, prepared.address, prepared@),
    {
        self.commit(prepared);
        self.stream_address = Some(prepared.address);
        self.author_identifier = match self.user_id {
            Some(user) => Some(user.id),
            None => None,
        };
    }
}

/// Where the exchange key of one of the first `i` invited is not known, that
/// of one of all is not.
pub proof fn lemma_seats_for_err(s: StateView, invited: Seq<Invitation>, i: int)
    requires
        0 <= i <= invited.len(),
        seats_for(s, invited.take(i)) is Err,
    ensures
        seats_for(s, invited) == seats_for(s, invited.take(i)),
    decreases invited.len() - i,
{
    if i < invited.len() {
        assert(invited.take(i + 1).drop_last() =~= invited.take(i));
        lemma_seats_for_err(s, invited, i + 1);
    } else {
        assert(invited.take(i) =~= invited);
    }
}

/// Where one of the first `i` pre-shared keys is not in the store, one of
/// all is not.
pub proof fn lemma_psks_for_err(s: StateView, ids: Seq<Seq<u8>>, i: int)
    requires
        0 <= i <= ids.len(),
        psks_for(s, ids.take(i)) is Err,
    ensures
        psks_for(s, ids) == psks_for(s, ids.take(i)),
    decreases ids.len() - i,
{
    if i < ids.len() {
        assert(ids.take(i + 1).drop_last() =~= ids.take(i));
        lemma_psks_for_err(s, ids, i + 1);
    } else {
        assert(ids.take(i) =~= ids);
    }
}

/// The invited get their seats exactly where the exchange key of every one
/// of them is known; the seats are as many, hold their permissions and take
/// as many bytes as the permissions say.
pub proof fn lemma_seats_for(s: StateView, invited: Seq<Invitation>)
    ensures
        match seats_for(s, invited) {
            Ok(v) => known_subscribers(s, invited_permissions(invited)) && v.len() == invited.len()
                && keyload::permissions_of(v) == invited_permissions(invited) && keyload::slots_len(
                v,
            ) == seats_size(invited_permissions(invited)),
            Err(e) => e == Error::UnknownSubscriber && !known_subscribers(
                s,
                invited_permissions(invited),
            ),
        },
    decreases invited.len(),
{
    let all = invited_permissions(invited);
    if invited.len() == 0 {
        assert(keyload::permissions_of(Seq::<keyload::Seat>::empty()) =~= all);
    } else {
        let front = invited.drop_last();
        let last = invited.last();
        lemma_seats_for(s, front);
        assert(invited_permissions(front) =~= all.drop_last());
        assert(all.last() == last.permission@);
        match seats_for(s, front) {
            Ok(v) => {
                if s.exchange_keys.contains_key(last.permission@.id) {
                    let w = seats_for(s, invited)->Ok_0;
                    assert(w.drop_last() =~= v);
                    assert(w.last().permission == last.permission@);
                    assert forall|i: int| 0 <= i < w.len() implies keyload::permissions_of(w)[i]
                        == all[i] by {
                        if i < v.len() {
                            assert(w[i] == v[i]);
                            assert(keyload::permissions_of(v)[i] == v[i].permission);
                            assert(all.drop_last()[i] == all[i]);
                        }
                    }
                    assert(keyload::permissions_of(w) =~= all);
                    assert forall|i: int| 0 <= i < all.len() implies s.exchange_keys.contains_key(
                        (#[trigger] all[i]).id,
                    ) by {
                        if i < front.len() {
                            assert(all.drop_last()[i] == all[i]);
                        }
                    }
                } else {
                    assert(all[all.len() - 1] == last.permission@);
                }
            },
            Err(e) => {
                let i = choose|i: int|
                    0 <= i < all.drop_last().len() && !s.exchange_keys.contains_key(
                        (#[trigger] all.drop_last()[i]).id,
                    );
                assert(all[i] == all.drop_last()[i]);
            },
        }
    }
}

/// The pre-shared keys are found exactly where every one of them is in the
/// store; those found are as many.
pub proof fn lemma_psks_for(s: StateView, ids: Seq<Seq<u8>>)
    ensures
        match psks_for(s, ids) {
            Ok(v) => known_psks(s, ids) && v.len() == ids.len(),
            Err(e) => e == Error::UnknownPsk && !known_psks(s, ids),
        },
    decreases ids.len(),
{
    if ids.len() > 0 {
        let front = ids.drop_last();
        lemma_psks_for(s, front);
        match psks_for(s, front) {
            Ok(v) => {
                if s.psks.contains_key(ids.last()) {
                    assert forall|i: int| 0 <= i < ids.len() implies s.psks.contains_key(
                        #[trigger] ids[i],
                    ) by {
                        if i < front.len() {
                            assert(front[i] == ids[i]);
                        }
                    }
                } else {
                    assert(ids[ids.len() - 1] == ids.last());
                }
            },
            Err(e) => {
                let i = choose|i: int| 0 <= i < front.len() && !s.psks.contains_key(#[trigger] front[i]);
                assert(ids[i] == front[i]);
            },
        }
    }
}

/// The slots of fewer subscribers take no more bytes.
pub proof fn lemma_seats_size_prefix(permissions: Seq<Permission>, i: int)
    requires
        0 <= i <= permissions.len(),
    ensures
        seats_size(permissions.take(i)) <= seats_size(permissions),
    decreases permissions.len() - i,
{
    if i < permissions.len() {
        lemma_seats_size_prefix(permissions, i + 1);
        assert(permissions.take(i + 1).drop_last() =~= permissions.take(i));
    } else {
        assert(permissions.take(i) =~= permissions);
    }
}

} // verus!
