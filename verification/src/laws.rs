//! What holds of the library as a whole, stated over several of its
//! functions and proved from their definitions.

use vstd::prelude::*;
use crate::address::Address;
use crate::address::appaddr_of;
use crate::address::APPADDR_SIZE;
use crate::address::MSGID_SIZE;
use crate::api::backup::backup_of;
use crate::api::backup::backup_sponge;
use crate::api::backup::lemma_raw_of_injective;
use crate::api::backup::lemma_take_put_state;
use crate::api::backup::put_state;
use crate::api::backup::RawState;
use crate::api::backup::restored_from;
use crate::api::backup::storable_map;
use crate::api::backup::valid;
use crate::api::message::Received;
use crate::api::receive::handled;
use crate::api::receive::header_of_message;
use crate::api::receive::handled_subscription;
use crate::api::send::committed;
use crate::api::send::committed_announcement;
use crate::api::send::committed_subscription;
use crate::api::send::content_sponge;
use crate::api::send::final_frame;
use crate::api::send::header_of;
use crate::api::send::Invitation;
use crate::api::send::invited_permissions;
use crate::api::send::committed_keyload;
use crate::api::send::keyload_refusal;
use crate::api::send::known_psks;
use crate::api::send::known_subscribers;
use crate::api::send::lemma_psks_for;
use crate::api::send::lemma_seats_for;
use crate::api::send::Outgoing;
use crate::api::send::posted_header;
use crate::api::send::posting;
use crate::api::send::prepared_announcement;
use crate::api::send::prepared_keyload;
use crate::api::send::prepared_signed_packet;
use crate::api::send::prepared_subscription;
use crate::api::send::prepared_tagged_packet;
use crate::api::send::prepared_unsubscription;
use crate::api::send::psks_for;
use crate::api::send::published_header;
use crate::api::send::publishing;
use crate::api::send::seats_for;
use crate::api::send::subscribing;
use crate::api::state::ANN_MESSAGE_NUM;
use crate::api::state::lemma_with_permitted;
use crate::api::state::names_writer;
use crate::api::state::INIT_MESSAGE_NUM;
use crate::api::state::State;
use crate::api::state::StateView;
use crate::api::state::SUB_MESSAGE_NUM;
use crate::api::user::readers;
use crate::api::user::writers;
use crate::ddml::types::lemma_take_put_size;
use crate::ddml::types::Mode;
use crate::ddml::types::put_size;
use crate::ddml::types::Taken;
use crate::ddml::x25519::agree;
use crate::error::Error;
use crate::id::identifier::lemma_identifier;
use crate::id::identifier::TAG_ED25519;
use crate::id::identity::signs;
use crate::kinds::announcement::announced_by;
use crate::kinds::announcement::lemma_take_put_announcement;
use crate::kinds::announcement::put_announced;
use crate::kinds::announcement::put_announcement;
use crate::kinds::keyload::Keyload;
use crate::kinds::keyload::keyload_base;
use crate::kinds::keyload::keyload_sealed;
use crate::kinds::keyload::lemma_take_put_keyload;
use crate::kinds::keyload::Load;
use crate::kinds::keyload::permissions_of;
use crate::kinds::keyload::pskids_of;
use crate::kinds::keyload::put_keyload;
use crate::kinds::keyload::readable_load;
use crate::kinds::keyload::reader_of;
use crate::kinds::keyload::recovered;
use crate::kinds::message_types;
use crate::kinds::signed_packet::lemma_take_put_signed_packet;
use crate::kinds::signed_packet::Payload;
use crate::kinds::signed_packet::put_payload;
use crate::kinds::subscription::lemma_take_put_subscription;
use crate::kinds::subscription::put_subscribed;
use crate::kinds::subscription::put_subscription;
use crate::kinds::subscription::Subscription;
use crate::kinds::tagged_packet::lemma_take_put_tagged_packet;
use crate::kinds::unsubscription::lemma_take_put_unsubscription;
use crate::kinds::unsubscription::put_unsubscribed;
use crate::kinds::unsubscription::put_unsubscription;
use crate::message::hdf::Header;
use crate::message::hdf::lemma_take_put_header;
use crate::message::hdf::put_header;
use crate::message::pcf::lemma_take_put_frame;
use crate::message::pcf::put_frame;
use crate::order::lemma_sorted_keys;
use crate::order::sorted_keys;
use crate::spongos::lemma_absorb_wf;
use crate::spongos::lemma_squeeze_wf;
use crate::spongos::Sponge;

verus! {

/// What frames a message is read back: the header and the payload frame of
/// a single-frame message, written from a fresh sponge, are read as they
/// were written, and reading leaves the sponge from which the content is
/// written.
pub proof fn law_framing_round_trip(h: Header, rest: Seq<u8>)
    requires
        h.wf(),
    ensures
        crate::message::hdf::take_header(
            Sponge::init(),
            h.address,
            crate::message::wrapped::framed(h, final_frame()).1 + rest,
        ) == Ok::<Taken<Header>, Error>(
            Taken {
                sponge: put_header(Sponge::init(), h).0,
                value: h,
                rest: put_frame(put_header(Sponge::init(), h).0, final_frame()).1 + rest,
            },
        ),
        crate::message::pcf::take_frame(
            put_header(Sponge::init(), h).0,
            put_frame(put_header(Sponge::init(), h).0, final_frame()).1 + rest,
        ) == Ok::<Taken<crate::message::pcf::Frame>, Error>(
            Taken { sponge: content_sponge(h), value: final_frame(), rest },
        ),
        content_sponge(h).wf(),
{
    let (s1, a) = put_header(Sponge::init(), h);
    let (s2, b) = put_frame(s1, final_frame());
    lemma_take_put_header(Sponge::init(), h, b + rest);
    lemma_take_put_frame(s1, final_frame(), rest);
    assert((a + b) + rest =~= a + (b + rest));
}

/// Linkage and round trip for tagged packets. A tagged packet that a
/// publisher sends is accepted by every receiver who holds, at the linked
/// message, the sponge that the publisher holds there: the receiver reads
/// the payload that was sent, sees the publisher at the sequence number of
/// the packet, and keeps at the packet's address the very sponge that the
/// publisher keeps.
#[verifier::rlimit(40)]
pub proof fn law_tagged_packet_delivery(
    sender: StateView,
    receiver: StateView,
    link_to: Seq<u8>,
    payload: Payload,
    address: Address,
)
    requires
        prepared_tagged_packet(sender, link_to, payload) is Ok,
        address.base@ == prepared_tagged_packet(sender, link_to, payload)->Ok_0.base,
        address.relative@ == prepared_tagged_packet(sender, link_to, payload)->Ok_0.relative,
        link_to.len() == MSGID_SIZE,
        payload.public.len() <= u64::MAX,
        payload.masked.len() <= u64::MAX,
        sender.spongos[link_to].wf(),
        receiver.spongos.contains_key(link_to),
        receiver.spongos[link_to] == sender.spongos[link_to],
    ensures
        ({
            let o = prepared_tagged_packet(sender, link_to, payload)->Ok_0;
            let h = handled(receiver, address, o.message);
            &&& h.result == Ok::<Received, Error>(Received::TaggedPacket(payload))
            &&& h.state == receiver.with_seen(sender.identifier()->0, o.cursor).with_spongos(
                o.relative,
                o.sponge,
            )
        }),
{
    let p = posting(sender, link_to)->Ok_0;
    let h = posted_header(p, message_types::TAGGED_PACKET, link_to);
    lemma_identifier(p.user.id);
    assert(p.stream.base@.len() == APPADDR_SIZE);
    law_framing_round_trip(
        h,
        crate::kinds::tagged_packet::put_tagged_packet(content_sponge(h), p.linked, payload).1,
    );
    lemma_take_put_tagged_packet(content_sponge(h), p.linked, payload, Seq::empty());
    let body = crate::kinds::tagged_packet::put_tagged_packet(content_sponge(h), p.linked, payload).1;
    assert(body + Seq::<u8>::empty() =~= body);
}

/// Linkage and round trip for signed packets. A signed packet whose
/// signature verifies is accepted by every receiver who holds, at the linked
/// message, the sponge that the publisher holds there: the receiver reads
/// the payload that was sent and keeps at the packet's address the very
/// sponge that the publisher keeps.
#[verifier::rlimit(40)]
pub proof fn law_signed_packet_delivery(
    sender: StateView,
    receiver: StateView,
    link_to: Seq<u8>,
    payload: Payload,
    address: Address,
)
    requires
        prepared_signed_packet(sender, link_to, payload) is Ok,
        address.base@ == prepared_signed_packet(sender, link_to, payload)->Ok_0.base,
        address.relative@ == prepared_signed_packet(sender, link_to, payload)->Ok_0.relative,
        link_to.len() == MSGID_SIZE,
        payload.public.len() <= u64::MAX,
        payload.masked.len() <= u64::MAX,
        sender.spongos[link_to].wf(),
        receiver.spongos.contains_key(link_to),
        receiver.spongos[link_to] == sender.spongos[link_to],
        sender.user_id->0.id is Ed25519,
        ({
            let p = publishing(sender, link_to)->Ok_0;
            let h = published_header(p, message_types::SIGNED_PACKET, link_to);
            signs(
                put_payload(content_sponge(h), p.linked, payload).0,
                p.keys.sig.0@,
                p.user.id@.skip(1),
            )
        }),
    ensures
        ({
            let o = prepared_signed_packet(sender, link_to, payload)->Ok_0;
            let h = handled(receiver, address, o.message);
            &&& h.result == Ok::<Received, Error>(Received::SignedPacket(payload))
            &&& h.state == receiver.with_seen(sender.identifier()->0, o.cursor).with_spongos(
                o.relative,
                o.sponge,
            )
        }),
{
    let p = publishing(sender, link_to)->Ok_0;
    let h = published_header(p, message_types::SIGNED_PACKET, link_to);
    lemma_identifier(p.user.id);
    assert(p.stream.base@.len() == APPADDR_SIZE);
    let body = crate::kinds::signed_packet::put_signed_packet(
        content_sponge(h),
        p.linked,
        payload,
        p.keys.sig.0@,
    ).1;
    law_framing_round_trip(h, body);
    assert(p.user.id@ =~= seq![TAG_ED25519] + p.user.id@.skip(1));
    lemma_take_put_signed_packet(
        content_sponge(h),
        p.linked,
        payload,
        p.keys.sig.0@,
        p.user.id@.skip(1),
        Seq::empty(),
    );
    assert(body + Seq::<u8>::empty() =~= body);
}

/// Orphans. A signed packet that reaches a receiver who does not hold the
/// sponge of the message that it is linked to is an orphan: nothing is read
/// and no sponge is kept. Handled once more by a receiver who by then holds,
/// at the linked message, the sponge that the publisher holds there, the same
/// bytes are read: the receiver has the payload that was sent and keeps at
/// the packet's address the very sponge that the publisher keeps, where the
/// signature verifies.
#[verifier::rlimit(40)]
pub proof fn law_orphan_is_read_later(
    sender: StateView,
    sooner: StateView,
    later: StateView,
    link_to: Seq<u8>,
    payload: Payload,
    address: Address,
)
    requires
        prepared_signed_packet(sender, link_to, payload) is Ok,
        address.base@ == prepared_signed_packet(sender, link_to, payload)->Ok_0.base,
        address.relative@ == prepared_signed_packet(sender, link_to, payload)->Ok_0.relative,
        link_to.len() == MSGID_SIZE,
        payload.public.len() <= u64::MAX,
        payload.masked.len() <= u64::MAX,
        sender.spongos[link_to].wf(),
        !sooner.spongos.contains_key(link_to),
        later.spongos.contains_key(link_to),
        later.spongos[link_to] == sender.spongos[link_to],
        sender.user_id->0.id is Ed25519,
        ({
            let p = publishing(sender, link_to)->Ok_0;
            let h = published_header(p, message_types::SIGNED_PACKET, link_to);
            signs(
                put_payload(content_sponge(h), p.linked, payload).0,
                p.keys.sig.0@,
                p.user.id@.skip(1),
            )
        }),
    ensures
        ({
            let o = prepared_signed_packet(sender, link_to, payload)->Ok_0;
            let first = handled(sooner, address, o.message);
            let second = handled(later, address, o.message);
            &&& first.result == Ok::<Received, Error>(Received::Orphan)
            &&& first.state == sooner.with_seen(sender.identifier()->0, o.cursor)
            &&& first.state.spongos == sooner.spongos
            &&& second.result == Ok::<Received, Error>(Received::SignedPacket(payload))
            &&& second.state.spongos.contains_key(address.relative@)
            &&& second.state.spongos[address.relative@] == o.sponge
        }),
{
    let p = publishing(sender, link_to)->Ok_0;
    let h = published_header(p, message_types::SIGNED_PACKET, link_to);
    lemma_identifier(p.user.id);
    assert(p.stream.base@.len() == APPADDR_SIZE);
    let body = crate::kinds::signed_packet::put_signed_packet(
        content_sponge(h),
        p.linked,
        payload,
        p.keys.sig.0@,
    ).1;
    law_framing_round_trip(h, body);
    law_signed_packet_delivery(sender, later, link_to, payload, address);
}

/// Round trip for announcements. An announcement whose signature verifies
/// binds every receiver who is bound to no stream yet: the receiver reads the
/// author's identifier and exchange key, follows the author from the first
/// sequence number, and keeps at the announcement's address the very sponge
/// that the author keeps.
#[verifier::rlimit(40)]
pub proof fn law_announcement_delivery(
    author: StateView,
    receiver: StateView,
    index: u64,
    address: Address,
)
    requires
        prepared_announcement(author, index) is Ok,
        address.base@ == prepared_announcement(author, index)->Ok_0.base,
        address.relative@ == prepared_announcement(author, index)->Ok_0.relative,
        receiver.stream_address is None,
        author.user_id->0.id is Ed25519,
        ({
            let user = author.user_id->0;
            let kp = user.keys->Keypair_0;
            let h = header_of(
                message_types::ANNOUNCEMENT,
                ANN_MESSAGE_NUM,
                user.id@,
                appaddr_of(user.id@, index),
                None,
            );
            signs(
                put_announced(content_sponge(h), announced_by(user, kp)).0,
                kp.sig.0@,
                user.id@.skip(1),
            )
        }),
    ensures
        ({
            let o = prepared_announcement(author, index)->Ok_0;
            let user = author.user_id->0;
            let said = announced_by(user, user.keys->Keypair_0);
            let h = handled(receiver, address, o.message);
            &&& h.result == Ok::<Received, Error>(Received::Announcement(said))
            &&& h.state == (StateView {
                stream_address: Some(address),
                author_identifier: Some(user.id@),
                ..receiver.with_seen(user.id@, INIT_MESSAGE_NUM).with_spongos(
                    o.relative,
                    o.sponge,
                ).with_exchange_key(user.id@, said.author_ke_pk)
            })
        }),
{
    let user = author.user_id->0;
    let kp = user.keys->Keypair_0;
    let base = appaddr_of(user.id@, index);
    let h = header_of(message_types::ANNOUNCEMENT, ANN_MESSAGE_NUM, user.id@, base, None);
    let said = announced_by(user, kp);
    lemma_identifier(user.id);
    lemma_absorb_wf(Sponge::init(), user.id@);
    lemma_take_put_size(Sponge::init().absorb(user.id@), Mode::Absorb, index, Seq::empty());
    lemma_squeeze_wf(
        put_size(Sponge::init().absorb(user.id@), Mode::Absorb, index).0.commit(),
        APPADDR_SIZE as nat,
    );
    let body = put_announcement(content_sponge(h), said, kp.sig.0@).1;
    law_framing_round_trip(h, body);
    assert(user.id@ =~= seq![TAG_ED25519] + user.id@.skip(1));
    assert(kp.key_exchange.1@.len() == 32);
    lemma_take_put_announcement(content_sponge(h), said, kp.sig.0@, user.id@.skip(1), Seq::empty());
    assert(body + Seq::<u8>::empty() =~= body);
}

/// Round trip for unsubscriptions. An unsubscription whose signature
/// verifies is accepted by every receiver who holds, at the linked message,
/// the sponge that the subscriber holds there: the receiver keeps at the
/// unsubscription's address the very sponge that the subscriber keeps and
/// forgets the subscriber.
#[verifier::rlimit(40)]
pub proof fn law_unsubscription_delivery(
    sender: StateView,
    receiver: StateView,
    link_to: Seq<u8>,
    address: Address,
)
    requires
        prepared_unsubscription(sender, link_to) is Ok,
        address.base@ == prepared_unsubscription(sender, link_to)->Ok_0.base,
        address.relative@ == prepared_unsubscription(sender, link_to)->Ok_0.relative,
        link_to.len() == MSGID_SIZE,
        sender.spongos[link_to].wf(),
        receiver.spongos.contains_key(link_to),
        receiver.spongos[link_to] == sender.spongos[link_to],
        sender.user_id->0.id is Ed25519,
        ({
            let p = publishing(sender, link_to)->Ok_0;
            let h = published_header(p, message_types::UNSUBSCRIPTION, link_to);
            signs(
                put_unsubscribed(content_sponge(h), p.linked, p.user.id@).0,
                p.keys.sig.0@,
                p.user.id@.skip(1),
            )
        }),
    ensures
        ({
            let o = prepared_unsubscription(sender, link_to)->Ok_0;
            let id = sender.identifier()->0;
            let h = handled(receiver, address, o.message);
            &&& h.result == Ok::<Received, Error>(Received::Unsubscription(id))
            &&& h.state == receiver.with_seen(id, o.cursor).with_spongos(
                o.relative,
                o.sponge,
            ).without_subscriber(id)
        }),
{
    let p = publishing(sender, link_to)->Ok_0;
    let h = published_header(p, message_types::UNSUBSCRIPTION, link_to);
    lemma_identifier(p.user.id);
    assert(p.stream.base@.len() == APPADDR_SIZE);
    let body = put_unsubscription(content_sponge(h), p.linked, p.user.id@, p.keys.sig.0@).1;
    law_framing_round_trip(h, body);
    assert(p.user.id@ =~= seq![TAG_ED25519] + p.user.id@.skip(1));
    lemma_take_put_unsubscription(
        content_sponge(h),
        p.linked,
        p.keys.sig.0@,
        p.user.id@.skip(1),
        Seq::empty(),
    );
    assert(body + Seq::<u8>::empty() =~= body);
}

/// Round trip for subscriptions. A subscription whose signature verifies,
/// sealed for an author who agrees with the subscriber on the shared secret,
/// is accepted by the author where they hold, at the linked message, the
/// sponge that the subscriber holds there: the author learns the
/// subscriber's identifier and exchange key, and keeps no sponge.
#[verifier::rlimit(40)]
pub proof fn law_subscription_delivery(
    sender: StateView,
    receiver: StateView,
    link_to: Seq<u8>,
    unsubscribe_key: Seq<u8>,
    ephemeral: Seq<u8>,
    address: Address,
)
    requires
        prepared_subscription(sender, link_to, unsubscribe_key, ephemeral) is Ok,
        address.base@ == prepared_subscription(
            sender,
            link_to,
            unsubscribe_key,
            ephemeral,
        )->Ok_0.base,
        link_to.len() == MSGID_SIZE,
        unsubscribe_key.len() == 32,
        sender.spongos[link_to].wf(),
        receiver.spongos.contains_key(link_to),
        receiver.spongos[link_to] == sender.spongos[link_to],
        receiver.user_id is Some,
        receiver.user_id->0.keys is Keypair,
        sender.user_id->0.id is Ed25519,
        ({
            let p = subscribing(sender, link_to)->Ok_0;
            let h = header_of(
                message_types::SUBSCRIPTION,
                SUB_MESSAGE_NUM,
                p.user.id@,
                p.stream.base@,
                Some(link_to),
            );
            let sub = Subscription {
                unsubscribe_key,
                subscriber_id: p.user.id@,
                subscriber_ke_pk: p.keys.key_exchange.1@,
            };
            &&& agree(
                ephemeral,
                receiver.user_id->0.keys->Keypair_0.key_exchange.0@,
                p.author_ke_pk,
            )
            &&& signs(
                put_subscribed(content_sponge(h), p.linked, ephemeral, p.author_ke_pk, sub).0,
                p.keys.sig.0@,
                p.user.id@.skip(1),
            )
        }),
    ensures
        ({
            let o = prepared_subscription(sender, link_to, unsubscribe_key, ephemeral)->Ok_0;
            let p = subscribing(sender, link_to)->Ok_0;
            let sub = Subscription {
                unsubscribe_key,
                subscriber_id: p.user.id@,
                subscriber_ke_pk: p.keys.key_exchange.1@,
            };
            let h = handled(receiver, address, o.message);
            &&& h.result == Ok::<Received, Error>(Received::Subscription(sub))
            &&& h.state == receiver.with_exchange_key(sub.subscriber_id, sub.subscriber_ke_pk)
        }),
{
    let p = subscribing(sender, link_to)->Ok_0;
    let h = header_of(
        message_types::SUBSCRIPTION,
        SUB_MESSAGE_NUM,
        p.user.id@,
        p.stream.base@,
        Some(link_to),
    );
    let sub = Subscription {
        unsubscribe_key,
        subscriber_id: p.user.id@,
        subscriber_ke_pk: p.keys.key_exchange.1@,
    };
    lemma_identifier(p.user.id);
    assert(p.stream.base@.len() == APPADDR_SIZE);
    assert(p.keys.key_exchange.1@.len() == 32);
    let body = put_subscription(
        content_sponge(h),
        p.linked,
        ephemeral,
        p.author_ke_pk,
        sub,
        p.keys.sig.0@,
    ).1;
    law_framing_round_trip(h, body);
    assert(p.user.id@ =~= seq![TAG_ED25519] + p.user.id@.skip(1));
    lemma_take_put_subscription(
        content_sponge(h),
        p.linked,
        ephemeral,
        receiver.user_id->0.keys->Keypair_0.key_exchange.0@,
        p.author_ke_pk,
        sub,
        p.keys.sig.0@,
        p.user.id@.skip(1),
        Seq::empty(),
    );
    assert(body + Seq::<u8>::empty() =~= body);
}

/// Keyload selectivity and round trip. A keyload whose signature verifies
/// is accepted by every receiver of the stream who holds the sponge of the
/// announcement and the sponge of the linked message. A receiver who is
/// among those that the keyload is for recovers the key and keeps at the
/// keyload's address the very sponge that the author keeps; a receiver who
/// is not recovers no key and keeps another sponge, in which the key has no
/// part. Either way the receiver sees the author at the keyload's sequence
/// number and lets the subscribers that may write start.
#[verifier::rlimit(60)]
pub proof fn law_keyload_delivery(
    sender: StateView,
    receiver: StateView,
    link_to: Seq<u8>,
    invited: Seq<Invitation>,
    psk_ids: Seq<Seq<u8>>,
    key: Seq<u8>,
    nonce: Seq<u8>,
    address: Address,
)
    requires
        prepared_keyload(sender, link_to, invited, psk_ids, key, nonce) is Ok,
        address.base@ == prepared_keyload(sender, link_to, invited, psk_ids, key, nonce)->Ok_0.base,
        address.relative@ == prepared_keyload(
            sender,
            link_to,
            invited,
            psk_ids,
            key,
            nonce,
        )->Ok_0.relative,
        link_to.len() == MSGID_SIZE,
        receiver.spongos.contains_key(link_to),
        receiver.stream_address is Some,
        receiver.stream_address->0.relative@ == sender.stream_address->0.relative@,
        receiver.spongos.contains_key(receiver.stream_address->0.relative@),
        receiver.spongos[receiver.stream_address->0.relative@]
            == sender.spongos[sender.stream_address->0.relative@],
        receiver.author_identifier == sender.identifier(),
        sender.user_id->0.id is Ed25519,
        ({
            let p = publishing(sender, link_to)->Ok_0;
            let h = published_header(p, message_types::KEYLOAD, link_to);
            let load = Load {
                initial: sender.spongos[p.stream.relative@],
                nonce,
                subscribers: seats_for(sender, invited)->Ok_0,
                psks: psks_for(sender, psk_ids)->Ok_0,
                key,
            };
            &&& readable_load(reader_of(receiver.user_id), receiver.psks, load)
            &&& signs(keyload_sealed(content_sponge(h), load), p.keys.sig.0@, p.user.id@.skip(1))
        }),
    ensures
        ({
            let o = prepared_keyload(sender, link_to, invited, psk_ids, key, nonce)->Ok_0;
            let p = publishing(sender, link_to)->Ok_0;
            let hd = published_header(p, message_types::KEYLOAD, link_to);
            let load = Load {
                initial: sender.spongos[p.stream.relative@],
                nonce,
                subscribers: seats_for(sender, invited)->Ok_0,
                psks: psks_for(sender, psk_ids)->Ok_0,
                key,
            };
            let found = recovered(reader_of(receiver.user_id), receiver.psks, load);
            let h = handled(receiver, address, o.message);
            &&& h.result == Ok::<Received, Error>(
                Received::Keyload(
                    Keyload {
                        nonce,
                        subscribers: permissions_of(load.subscribers),
                        psks: pskids_of(load.psks),
                        key: found,
                    },
                ),
            )
            &&& found is Some ==> found == Some(key)
            &&& h.state == receiver.with_seen(p.user.id@, o.cursor).with_spongos(
                o.relative,
                if found is Some {
                    o.sponge
                } else {
                    keyload_base(content_sponge(hd), load.initial, nonce).commit().commit()
                },
            ).with_permitted(permissions_of(load.subscribers))
        }),
{
    let p = publishing(sender, link_to)->Ok_0;
    let hd = published_header(p, message_types::KEYLOAD, link_to);
    let load = Load {
        initial: sender.spongos[p.stream.relative@],
        nonce,
        subscribers: seats_for(sender, invited)->Ok_0,
        psks: psks_for(sender, psk_ids)->Ok_0,
        key,
    };
    lemma_identifier(p.user.id);
    assert(p.stream.base@.len() == APPADDR_SIZE);
    let body = put_keyload(content_sponge(hd), load, p.keys.sig.0@).1;
    law_framing_round_trip(hd, body);
    assert(p.user.id@ =~= seq![TAG_ED25519] + p.user.id@.skip(1));
    lemma_take_put_keyload(
        content_sponge(hd),
        load,
        p.keys.sig.0@,
        p.user.id@.skip(1),
        reader_of(receiver.user_id),
        receiver.psks,
        Seq::empty(),
    );
    assert(body + Seq::<u8>::empty() =~= body);
}

/// Refusal of a keyload. Preparing a keyload fails exactly where
/// `keyload_refusal` says, and with that error, whatever the key, the nonce
/// and the one-time keys: a keyload that names a subscriber whose exchange
/// key is not known, or a pre-shared key that is not in the store, is never
/// prepared, and so never sent.
pub proof fn law_keyload_refusal(
    s: StateView,
    link_to: Seq<u8>,
    invited: Seq<Invitation>,
    psk_ids: Seq<Seq<u8>>,
    key: Seq<u8>,
    nonce: Seq<u8>,
)
    ensures
        match prepared_keyload(s, link_to, invited, psk_ids, key, nonce) {
            Ok(_) => keyload_refusal(s, link_to, invited_permissions(invited), psk_ids) is None,
            Err(e) => keyload_refusal(s, link_to, invited_permissions(invited), psk_ids) == Some(e),
        },
{
    lemma_seats_for(s, invited);
    lemma_psks_for(s, psk_ids);
}

/// A keyload for everyone. A keyload for every subscriber whose exchange key
/// the user knows, to read or to read and write, and for every pre-shared key
/// in the store names nobody unknown: it is refused only where the user
/// cannot publish or where it is too long for the machine.
pub proof fn law_keyload_for_all(s: StateView, link_to: Seq<u8>)
    requires
        s.exchange_keys.dom().finite(),
        s.psks.dom().finite(),
    ensures
        known_subscribers(s, readers(sorted_keys(s.exchange_keys.dom()))),
        known_subscribers(s, writers(sorted_keys(s.exchange_keys.dom()))),
        known_psks(s, sorted_keys(s.psks.dom())),
        match keyload_refusal(
            s,
            link_to,
            readers(sorted_keys(s.exchange_keys.dom())),
            sorted_keys(s.psks.dom()),
        ) {
            Some(e) => publishing(s, link_to) is Err && publishing(s, link_to)->Err_0 == e
                || publishing(s, link_to) is Ok && e == Error::SizeOverflow,
            None => publishing(s, link_to) is Ok,
        },
        match keyload_refusal(
            s,
            link_to,
            writers(sorted_keys(s.exchange_keys.dom())),
            sorted_keys(s.psks.dom()),
        ) {
            Some(e) => publishing(s, link_to) is Err && publishing(s, link_to)->Err_0 == e
                || publishing(s, link_to) is Ok && e == Error::SizeOverflow,
            None => publishing(s, link_to) is Ok,
        },
{
    let subscribers = s.exchange_keys.dom();
    let psks = s.psks.dom();
    subscribers.lemma_to_seq_to_set_id();
    psks.lemma_to_seq_to_set_id();
    lemma_sorted_keys(subscribers.to_seq());
    lemma_sorted_keys(psks.to_seq());
    let ids = sorted_keys(subscribers);
    let keys = sorted_keys(psks);
    assert forall|i: int| 0 <= i < ids.len() implies subscribers.contains(#[trigger] ids[i]) by {
        assert(ids.to_set().contains(ids[i]));
    }
    assert forall|i: int| 0 <= i < keys.len() implies psks.contains(#[trigger] keys[i]) by {
        assert(keys.to_set().contains(keys[i]));
    }
}

/// Refusal. A message that is refused, or that is an orphan, leaves no
/// sponge and no key behind, and binds the user to no stream: at most a
/// cursor has moved.
pub proof fn law_refused_message(s: StateView, address: Address, body: Seq<u8>)
    ensures
        ({
            let h = handled(s, address, body);
            h.result is Err || h.result == Ok::<Received, Error>(Received::Orphan) ==> {
                &&& h.state.spongos == s.spongos
                &&& h.state.exchange_keys == s.exchange_keys
                &&& h.state.psks == s.psks
                &&& h.state.stream_address == s.stream_address
                &&& h.state.author_identifier == s.author_identifier
                &&& h.state.user_id == s.user_id
            }
        }),
{
}

/// A packet is seen whatever comes of it. Once a signed or tagged packet
/// whose header reads has been handled, its publisher stands at the
/// packet's sequence number or above, also where the packet was refused or
/// is an orphan.
pub proof fn law_packet_is_seen(s: StateView, address: Address, body: Seq<u8>)
    requires
        header_of_message(address, body) is Ok,
        header_of_message(address, body)->Ok_0.message_type == message_types::SIGNED_PACKET
            || header_of_message(address, body)->Ok_0.message_type == message_types::TAGGED_PACKET,
    ensures
        ({
            let h = handled(s, address, body);
            let header = header_of_message(address, body)->Ok_0;
            &&& h.state.cursors.contains_key(header.publisher)
            &&& h.state.cursors[header.publisher] >= header.sequence
            &&& s.cursors.contains_key(header.publisher) ==> h.state.cursors[header.publisher]
                >= s.cursors[header.publisher]
            &&& forall|id: Seq<u8>|
                id != header.publisher ==> (h.state.cursors.contains_key(id)
                    <==> s.cursors.contains_key(id))
            &&& forall|id: Seq<u8>|
                id != header.publisher && s.cursors.contains_key(id) ==> #[trigger] h.state.cursors[id]
                    == s.cursors[id]
        }),
{
}

/// Cursor monotonicity. Every message that a publisher sends has the
/// sequence number that follows their cursor, and once it is committed
/// their cursor is that sequence number: it has grown by exactly one. The
/// same holds of a keyload, as `law_keyload_cursors` states.
pub proof fn law_send_advances_cursor(s: StateView, link_to: Seq<u8>, payload: Payload)
    ensures
        publishing(s, link_to) is Ok ==> {
            let id = s.identifier()->0;
            s.cursors.contains_key(id) && publishing(s, link_to)->Ok_0.cursor == s.cursors[id] + 1
        },
        prepared_signed_packet(s, link_to, payload) is Ok ==> {
            let o = prepared_signed_packet(s, link_to, payload)->Ok_0;
            let id = s.identifier()->0;
            o.cursor == s.cursors[id] + 1 && committed(s, o).cursors[id] == s.cursors[id] + 1
        },
        prepared_tagged_packet(s, link_to, payload) is Ok ==> {
            let o = prepared_tagged_packet(s, link_to, payload)->Ok_0;
            let id = s.identifier()->0;
            o.cursor == s.cursors[id] + 1 && committed(s, o).cursors[id] == s.cursors[id] + 1
        },
        prepared_unsubscription(s, link_to) is Ok ==> {
            let o = prepared_unsubscription(s, link_to)->Ok_0;
            let id = s.identifier()->0;
            o.cursor == s.cursors[id] + 1 && committed(s, o).cursors[id] == s.cursors[id] + 1
        },
{
}

/// Cursors after a keyload. Once a keyload is committed, its sender's cursor
/// has grown by exactly one. Every subscriber whom the keyload lets write,
/// and who was not followed or stood below the first sequence number, stands
/// at the first sequence number. Every other cursor is as it was, and
/// nothing else changes but the sponge kept for the keyload.
pub proof fn law_keyload_cursors(
    s: StateView,
    link_to: Seq<u8>,
    invited: Seq<Invitation>,
    psk_ids: Seq<Seq<u8>>,
    key: Seq<u8>,
    nonce: Seq<u8>,
)
    requires
        prepared_keyload(s, link_to, invited, psk_ids, key, nonce) is Ok,
    ensures
        ({
            let o = prepared_keyload(s, link_to, invited, psk_ids, key, nonce)->Ok_0;
            let named = invited_permissions(invited);
            let after = committed_keyload(s, o, named);
            let me = s.identifier()->0;
            &&& s.identifier() is Some
            &&& s.cursors.contains_key(me)
            &&& o.cursor == s.cursors[me] + 1
            &&& after.cursors[me] == s.cursors[me] + 1
            &&& forall|id: Seq<u8>| #[trigger]
                after.cursors.contains_key(id) <==> s.cursors.contains_key(id) || names_writer(
                    named,
                    id,
                )
            &&& forall|id: Seq<u8>|
                id != me && after.cursors.contains_key(id) ==> #[trigger] after.cursors[id]
                    == if names_writer(named, id) && !(s.cursors.contains_key(id) && s.cursors[id]
                    >= INIT_MESSAGE_NUM) {
                    INIT_MESSAGE_NUM
                } else {
                    s.cursors[id]
                }
            &&& after.spongos == s.spongos.insert(o.relative, o.sponge)
            &&& after.exchange_keys == s.exchange_keys
            &&& after.psks == s.psks
            &&& after.stream_address == s.stream_address
            &&& after.author_identifier == s.author_identifier
            &&& after.user_id == s.user_id
        }),
{
    lemma_with_permitted(s, invited_permissions(invited));
}

/// The two sends that do not follow the sender's cursor set it to a fixed
/// number: an announcement leaves its author at the first sequence number,
/// and a subscription leaves a subscriber who was not followed yet at the
/// sequence number of subscriptions, and any other where they stood.
pub proof fn law_first_cursors(s: StateView, index: u64, address: Address)
    requires
        s.identifier() is Some,
    ensures
        prepared_announcement(s, index) is Ok ==> committed_announcement(
            s,
            address,
            prepared_announcement(s, index)->Ok_0,
        ).cursors[s.identifier()->0] == INIT_MESSAGE_NUM,
        !s.cursors.contains_key(s.identifier()->0) ==> committed_subscription(
            s,
        ).cursors[s.identifier()->0] == SUB_MESSAGE_NUM,
        s.cursors.contains_key(s.identifier()->0) ==> committed_subscription(s) == s.with_cursor(
            s.identifier()->0,
            s.cursors[s.identifier()->0],
        ),
        committed_subscription(s).spongos == s.spongos,
{
}

/// Committing a message changes nothing but the sender's cursor and the
/// sponge at the message's address.
pub proof fn law_commit_is_local(s: StateView, o: Outgoing)
    requires
        s.identifier() is Some,
    ensures
        committed(s, o).cursors == s.cursors.insert(s.identifier()->0, o.cursor),
        committed(s, o).spongos == s.spongos.insert(o.relative, o.sponge),
        committed(s, o).exchange_keys == s.exchange_keys,
        committed(s, o).psks == s.psks,
        committed(s, o).stream_address == s.stream_address,
        committed(s, o).user_id == s.user_id,
{
}

/// Subscription non-insertion. Whatever a subscription holds and whatever
/// comes of handling it, the receiver keeps the sponges and the cursors
/// that they had.
pub proof fn law_subscription_keeps_sponges(
    s: StateView,
    address: Address,
    h: Header,
    sponge: Sponge,
    rest: Seq<u8>,
)
    ensures
        handled_subscription(s, address, h, sponge, rest).state.spongos == s.spongos,
        handled_subscription(s, address, h, sponge, rest).state.cursors == s.cursors,
{
}

/// Backup idempotence. The backup of a well-formed state under a password,
/// read under the same password, holds that state and is the state of a
/// user; and every well-formed state that stands in a backup as this one
/// does is this one.
#[verifier::rlimit(40)]
pub proof fn law_restore_backup(state: State, pwd: Seq<u8>, other: State)
    requires
        state.wf(),
        storable_map(state.raw().spongos),
        storable_map(state.raw().cursors),
        storable_map(state.raw().exchange_keys),
        storable_map(state.raw().psks),
        other.wf(),
    ensures
        restored_from(backup_of(state.raw(), pwd), pwd) == Ok::<Taken<RawState>, Error>(
            Taken {
                sponge: put_state(backup_sponge(pwd), state.raw()).0,
                value: state.raw(),
                rest: Seq::empty(),
            },
        ),
        valid(state.raw()),
        other.raw() == state.raw() ==> other@ == state@,
{
    state.lemma_raw();
    other.lemma_raw();
    state.spongos_store.lemma_wf();
    other.spongos_store.lemma_wf();
    lemma_raw_of_injective(state@, other@);
    lemma_absorb_wf(Sponge::init(), pwd);
    lemma_squeeze_wf(Sponge::init().absorb(pwd).commit(), 32);
    lemma_absorb_wf(Sponge::init(), crate::api::backup::backup_key(pwd));
    lemma_take_put_state(backup_sponge(pwd), state.raw(), Seq::empty());
    assert(backup_of(state.raw(), pwd) + Seq::<u8>::empty() =~= backup_of(state.raw(), pwd));
}

/// Deterministic state serialization. States that are the same as values
/// have the same backup under the same password, however their maps are laid
/// out in memory.
pub proof fn law_backup_deterministic(a: State, b: State, pwd: Seq<u8>)
    requires
        a.wf(),
        b.wf(),
        a@ == b@,
    ensures
        backup_of(a.raw(), pwd) == backup_of(b.raw(), pwd),
{
    a.lemma_raw();
    b.lemma_raw();
}

} // verus!
