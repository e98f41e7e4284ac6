use std::collections::HashMap;

use streams::address::Address;
use streams::address::AppAddr;
use streams::address::MsgId;
use streams::api::message::Message;
use streams::api::message::MessageContent;
use streams::api::messages::settle;
use streams::api::messages::Pending;
use streams::api::state::State;
use streams::api::transport::Transport;
use streams::api::user::User;
use streams::error::Error;
use streams::id::identifier::Identifier;
use streams::id::identity::UserIdentity;
use streams::id::permission::PermissionDuration;
use streams::id::permission::Permissioned;
use streams::id::psk::Psk;
use streams::id::psk::PskId;
use streams::kinds::announcement;
use streams::kinds::keyload;
use streams::kinds::signed_packet;
use streams::kinds::subscription;
use streams::kinds::tagged_packet;
use streams::kinds::unsubscription;
use streams::message::hdf::HDF;
use streams::message::transport::TransportMessage;
use streams::spongos::Spongos;
use streams::store::KeyStore;

#[derive(Default)]
struct Shelf {
    messages: HashMap<Vec<u8>, Vec<u8>>,
    asked: usize,
    refuse: bool,
}

fn slot(address: &Address) -> Vec<u8> {
    let mut k = address.base.bytes.to_vec();
    k.extend_from_slice(&address.relative.bytes);
    k
}

impl Transport for Shelf {
    type SendResponse = usize;

    fn send_message(&mut self, address: Address, msg: TransportMessage) -> Result<usize, Error> {
        self.asked += 1;
        if self.refuse {
            return Err(Error::Transport);
        }
        self.messages.insert(slot(&address), msg.into_body());
        Ok(self.messages.len())
    }

    fn recv_message(&mut self, address: Address) -> Result<TransportMessage, Error> {
        match self.messages.get(&slot(&address)) {
            Some(body) => Ok(TransportMessage::new(body.clone())),
            None => Err(Error::Transport),
        }
    }
}

fn host() -> (User<Shelf>, Address, Identifier, Psk) {
    let psk = Psk::from_seed(b"shared");
    let mut a = User::new(Some(UserIdentity::new("host")), &[(psk.to_pskid(), psk)], Shelf::default());
    let announcement = a.create_stream(3).unwrap().address();
    let guest = UserIdentity::new("guest").to_identifier();
    assert_eq!(a.try_add_subscriber(guest), Some(true));
    (a, announcement, guest, psk)
}

#[test]
fn announcement_has_the_number_before_the_first() {
    let (a, announcement, _, _) = host();
    let me = a.identifier().unwrap();
    assert!(announcement.base().same(&AppAddr::gen(me, 3)));
    assert!(announcement.relative().same(&MsgId::gen(announcement.base(), me, 0)));
    assert_eq!(a.state().cursor(), Some(1));
    let prepared = State::new(Some(UserIdentity::new("host")), &[]).prepare_announcement(3).unwrap();
    assert!(prepared.address.same(&announcement));
    assert_eq!(prepared.cursor, 1);
}

#[test]
fn first_message_after_the_announcement_has_the_number_two() {
    let (mut a, announcement, _, _) = host();
    let me = a.identifier().unwrap();
    let sent = a.send_signed_packet(announcement.relative(), b"p", b"m").unwrap().address();
    assert!(sent.relative().same(&MsgId::gen(announcement.base(), me, 2)));
    assert_eq!(a.state().cursor(), Some(2));
}

#[test]
fn keyload_for_an_unknown_subscriber_is_refused_whole() {
    let (mut a, announcement, guest, psk) = host();
    let stranger = UserIdentity::new("stranger").to_identifier();
    let link = announcement.relative();
    let before = a.backup(b"pw").unwrap();
    let asked = a.transport().asked;
    let held = a.transport().messages.len();

    let listed = [Permissioned::Read(guest), Permissioned::Read(stranger)];
    assert_eq!(a.state().check_keyload(&link, &listed, &[psk.to_pskid()]), Err(Error::UnknownSubscriber));
    assert!(matches!(a.send_keyload(link, &listed, &[psk.to_pskid()]), Err(Error::UnknownSubscriber)));
    let listed = [Permissioned::ReadWrite(stranger, PermissionDuration::Perpetual), Permissioned::Read(guest)];
    assert!(matches!(a.send_keyload(link, &listed, &[]), Err(Error::UnknownSubscriber)));

    assert_eq!(a.backup(b"pw").unwrap(), before);
    assert_eq!(a.transport().asked, asked);
    assert_eq!(a.transport().messages.len(), held);
    assert_eq!(a.state().cursor(), Some(1));
}

#[test]
fn keyload_for_an_unknown_pre_shared_key_is_refused_whole() {
    let (mut a, announcement, guest, psk) = host();
    let link = announcement.relative();
    let before = a.backup(b"pw").unwrap();
    let asked = a.transport().asked;
    let unknown = PskId::new([9u8; 16]);

    let ids = [psk.to_pskid(), unknown];
    assert_eq!(a.state().check_keyload(&link, &[Permissioned::Read(guest)], &ids), Err(Error::UnknownPsk));
    assert!(matches!(a.send_keyload(link, &[Permissioned::Read(guest)], &ids), Err(Error::UnknownPsk)));
    assert!(matches!(a.send_keyload(link, &[], &[unknown]), Err(Error::UnknownPsk)));

    assert_eq!(a.backup(b"pw").unwrap(), before);
    assert_eq!(a.transport().asked, asked);
    assert_eq!(a.state().cursor(), Some(1));
}

#[test]
fn refusals_of_a_keyload_come_in_one_order() {
    let (a, announcement, guest, psk) = host();
    let stranger = UserIdentity::new("stranger").to_identifier();
    let nowhere = MsgId::new([5u8; 12]);
    let unknown = PskId::new([9u8; 16]);
    let link = announcement.relative();
    let state = a.state();

    assert_eq!(state.check_keyload(&nowhere, &[Permissioned::Read(stranger)], &[unknown]), Err(Error::UnknownLink));
    assert_eq!(state.check_keyload(&link, &[Permissioned::Read(stranger)], &[unknown]), Err(Error::UnknownSubscriber));
    assert_eq!(state.check_keyload(&link, &[Permissioned::Read(guest)], &[unknown]), Err(Error::UnknownPsk));
    assert_eq!(state.check_keyload(&link, &[Permissioned::Read(guest)], &[psk.to_pskid()]), Ok(()));
    assert_eq!(state.check_keyload(&link, &[], &[]), Ok(()));

    let fresh = State::new(Some(UserIdentity::new("fresh")), &[]);
    assert_eq!(fresh.check_keyload(&link, &[], &[]), Err(Error::NoStream));
    let nobody = State::new(None, &[]);
    assert_eq!(nobody.check_keyload(&link, &[], &[]), Err(Error::NoStream));
    let holder = State::new(Some(UserIdentity::new_from_psk(psk.to_pskid(), psk)), &[]);
    assert_eq!(holder.check_keyload(&link, &[], &[]), Err(Error::NoStream));
}

#[test]
fn keyload_that_passes_is_sent_and_kept() {
    let (mut a, announcement, guest, psk) = host();
    let me = a.identifier().unwrap();
    let link = announcement.relative();
    let listed = [Permissioned::ReadWrite(guest, PermissionDuration::Perpetual)];
    assert_eq!(a.state().check_keyload(&link, &listed, &[psk.to_pskid()]), Ok(()));
    let response = a.send_keyload(link, &listed, &[psk.to_pskid()]).unwrap();
    let keyload = response.address();
    assert!(keyload.relative().same(&MsgId::gen(announcement.base(), me, 2)));
    assert_eq!(*response.response(), 2);
    assert_eq!(a.state().cursor(), Some(2));
    assert_eq!(a.state().cursor_store.get_cursor(&guest), Some(1));
    assert!(a.state().spongos_store.contains(&keyload.relative()));
    assert!(a.transport().messages.contains_key(&slot(&keyload)));

    let body = a.transport_mut().recv_message(keyload).unwrap();
    let first = a.transport_mut().recv_message(announcement).unwrap();
    let mut reader = User::new(Some(UserIdentity::new("guest")), &[], Shelf::default());
    reader.handle_message(announcement, first).unwrap();
    let read = reader.handle_message(keyload, body).unwrap();
    match read.content {
        MessageContent::Keyload { subscribers, psks, key, .. } => {
            assert_eq!(subscribers, listed.to_vec());
            assert_eq!(psks.len(), 1);
            assert_eq!(psks[0].to_bytes(), psk.to_pskid().to_bytes());
            assert!(key.is_some());
        }
        other => panic!("{:?}", other),
    }
}

#[test]
fn keyload_for_all_names_every_subscriber_and_key() {
    let (mut a, announcement, guest, psk) = host();
    let me = a.identifier().unwrap();
    let mut both = vec![me, guest];
    both.sort();
    let link = announcement.relative();
    let keyload = a.send_keyload_for_all(link).unwrap().address();
    let body = a.transport_mut().recv_message(keyload).unwrap();
    let first = a.transport_mut().recv_message(announcement).unwrap();
    let mut reader: User<Shelf> = User::new(None, &[(psk.to_pskid(), psk)], Shelf::default());
    reader.handle_message(announcement, first).unwrap();
    match reader.handle_message(keyload, body).unwrap().content {
        MessageContent::Keyload { subscribers, psks, .. } => {
            assert_eq!(subscribers, vec![Permissioned::Read(both[0]), Permissioned::Read(both[1])]);
            assert_eq!(psks.len(), 1);
        }
        other => panic!("{:?}", other),
    }
    let again = a.send_keyload_for_all_rw(keyload.relative()).unwrap().address();
    let body = a.transport_mut().recv_message(again).unwrap();
    match reader.handle_message(again, body).unwrap().content {
        MessageContent::Keyload { subscribers, .. } => {
            assert_eq!(
                subscribers,
                vec![
                    Permissioned::ReadWrite(both[0], PermissionDuration::Perpetual),
                    Permissioned::ReadWrite(both[1], PermissionDuration::Perpetual),
                ]
            );
        }
        other => panic!("{:?}", other),
    }
}

#[test]
fn holder_of_a_pre_shared_key_tags_but_does_not_sign() {
    let (mut a, announcement, _, psk) = host();
    let link = announcement.relative();
    let identity = UserIdentity::new_from_psk(psk.to_pskid(), psk);
    let first = a.transport_mut().recv_message(announcement).unwrap();
    let mut holder = State::new(Some(identity), &[(psk.to_pskid(), psk)]);
    holder.handle_message(announcement, first).unwrap();
    assert!(matches!(holder.posting(&link), Err(Error::NotPublisher)));
    assert!(matches!(holder.prepare_tagged_packet(link, b"p", b"m"), Err(Error::NotPublisher)));

    assert!(holder.cursor_store.insert_cursor(identity.to_identifier(), 1));
    let (stream, user, cursor, _) = holder.posting(&link).unwrap();
    assert!(stream.same(&announcement));
    assert!(user.to_identifier().same(&identity.to_identifier()));
    assert_eq!(cursor, 2);
    assert!(matches!(holder.publishing(&link), Err(Error::NoSignatureKeyPair)));
    assert!(matches!(holder.prepare_signed_packet(link, b"p", b"m"), Err(Error::NoSignatureKeyPair)));
    assert!(matches!(holder.prepare_unsubscription(link), Err(Error::NoSignatureKeyPair)));
    assert!(matches!(holder.check_keyload(&link, &[], &[]), Err(Error::NoSignatureKeyPair)));

    let prepared = holder.prepare_tagged_packet(link, b"seen", b"hidden").unwrap();
    assert_eq!(prepared.cursor, 2);
    assert!(prepared.address.relative().same(&MsgId::gen(announcement.base(), identity.to_identifier(), 2)));
    let address = prepared.address;
    let body = prepared.message.clone();
    holder.commit(&prepared);
    assert_eq!(holder.cursor(), Some(2));

    let read = a.handle_message(address, body).unwrap();
    assert!(read.header.publisher().same(&identity.to_identifier()));
    match read.content {
        MessageContent::TaggedPacket { public_payload, masked_payload } => {
            assert_eq!(public_payload, b"seen".to_vec());
            assert_eq!(masked_payload, b"hidden".to_vec());
        }
        other => panic!("{:?}", other),
    }
}

#[test]
fn holder_of_a_pre_shared_key_sends_tagged_packets_as_a_user() {
    let (mut a, announcement, _, psk) = host();
    let link = announcement.relative();
    let identity = UserIdentity::new_from_psk(psk.to_pskid(), psk);
    let first = a.transport_mut().recv_message(announcement).unwrap();
    let mut state = State::new(Some(identity), &[(psk.to_pskid(), psk)]);
    state.handle_message(announcement, first).unwrap();
    state.cursor_store.insert_cursor(identity.to_identifier(), 1);
    let kept = state.backup(b"pw").unwrap();
    let mut holder = User::restore(&kept, b"pw", Shelf::default()).unwrap();
    assert!(matches!(holder.send_signed_packet(link, b"p", b"m"), Err(Error::NoSignatureKeyPair)));
    assert_eq!(holder.transport().asked, 0);
    let sent = holder.send_tagged_packet(link, b"p", b"m").unwrap().address();
    assert_eq!(holder.transport().asked, 1);
    assert_eq!(holder.state().cursor(), Some(2));
    assert!(holder.state().spongos_store.contains(&sent.relative()));
}

#[test]
fn nothing_is_sent_to_an_address_that_is_taken() {
    let (mut a, announcement, _, _) = host();
    let me = a.identifier().unwrap();
    let next = Address::new(announcement.base(), MsgId::gen(announcement.base(), me, 2));
    a.transport_mut().messages.insert(slot(&next), vec![1, 2, 3]);
    let before = a.backup(b"pw").unwrap();
    let asked = a.transport().asked;
    assert!(matches!(
        a.send_tagged_packet(announcement.relative(), b"p", b"m"),
        Err(Error::AddressConflict)
    ));
    assert!(matches!(a.send_keyload(announcement.relative(), &[], &[]), Err(Error::AddressConflict)));
    assert!(matches!(a.deliver(next, TransportMessage::new(vec![4])), Err(Error::AddressConflict)));
    assert_eq!(a.transport().asked, asked);
    assert_eq!(a.transport().messages.get(&slot(&next)), Some(&vec![1, 2, 3]));
    assert_eq!(a.backup(b"pw").unwrap(), before);

    let free = Address::new(announcement.base(), MsgId::new([8u8; 12]));
    assert_eq!(a.deliver(free, TransportMessage::new(vec![4])), Ok(3));
    assert_eq!(a.transport().asked, asked + 1);
    a.transport_mut().refuse = true;
    let other = Address::new(announcement.base(), MsgId::new([7u8; 12]));
    assert_eq!(a.deliver(other, TransportMessage::new(vec![4])), Err(Error::Transport));
    assert_eq!(a.transport().asked, asked + 2);
}

#[test]
fn readers_start_from_what_stands_for_nothing() {
    let blank = Identifier::default();
    assert_eq!(blank, Identifier::Ed25519([0u8; 32]));
    let parent = Spongos::init();

    assert_eq!(unsubscription::Unwrap::new(&parent).subscriber_identifier(), blank);

    let secret = UserIdentity::new("host").get_ke_kp().unwrap().0;
    let asked = subscription::Unwrap::new(&parent, &secret);
    assert_eq!(asked.subscriber_identifier(), blank);
    assert_eq!(asked.subscriber_ke_pk(), [0u8; 32]);
    assert_eq!(asked.unsubscribe_key(), [0u8; 32]);

    let said = announcement::Unwrap::new();
    assert_eq!(said.author_id(), blank);
    assert_eq!(said.author_ke_pk(), [0u8; 32]);

    let signed = signed_packet::Unwrap::new(&parent, blank);
    assert!(signed.public_payload().is_empty());
    assert!(signed.masked_payload().is_empty());
    let tagged = tagged_packet::Unwrap::new(&parent);
    assert!(tagged.public_payload().is_empty());
    assert!(tagged.masked_payload().is_empty());

    let keys = KeyStore::new();
    let handed = keyload::Unwrap::new(&parent, None, blank, &keys);
    assert!(handed.subscribers().is_empty());
    assert!(handed.psks().is_empty());
    assert_eq!(handed.key(), None);
    assert_eq!(handed.nonce(), [0u8; 16]);
}

#[test]
fn orphans_wait_and_other_messages_are_handed_on() {
    let base = AppAddr::new([1u8; 40]);
    let publisher = UserIdentity::new("host").to_identifier();
    let address = Address::new(base, MsgId::new([2u8; 12]));
    let link = MsgId::new([3u8; 12]);
    let mut pending: Vec<Pending> = Vec::new();

    let header = HDF::new(4, 2, publisher, base).with_linked_msg_address(link);
    let orphan = Message::orphan(address, header, TransportMessage::new(vec![1, 2, 3]));
    assert!(settle(orphan, &mut pending).is_none());
    assert_eq!(pending.len(), 1);
    assert!(pending[0].address.same(&address));
    assert_eq!(pending[0].raw, vec![1, 2, 3]);
    assert!(pending[0].link.same(&link));

    let header = HDF::new(4, 2, publisher, base);
    let unlinked = Message::orphan(address, header, TransportMessage::new(vec![4]));
    assert!(settle(unlinked, &mut pending).is_none());
    assert_eq!(pending.len(), 1);

    let header = HDF::new(4, 2, publisher, base).with_linked_msg_address(link);
    let content = MessageContent::TaggedPacket { public_payload: vec![5], masked_payload: vec![6] };
    let read = settle(Message::new(address, header, content), &mut pending).unwrap();
    assert!(read.address.same(&address));
    assert!(matches!(
        read.content,
        MessageContent::TaggedPacket { ref public_payload, ref masked_payload }
            if public_payload == &vec![5] && masked_payload == &vec![6]
    ));
    assert_eq!(pending.len(), 1);
}

#[test]
fn catching_up_halts_where_a_cursor_stays() {
    let (mut a, announcement, _, _) = host();
    let me = a.identifier().unwrap();
    let next = Address::new(announcement.base(), MsgId::gen(announcement.base(), me, 2));
    assert!(a.state().stuck(&next));
    assert!(!a.state().stuck(&announcement));
    assert!(!a.state().stuck(&Address::new(announcement.base(), MsgId::gen(announcement.base(), me, 3))));
    a.send_tagged_packet(announcement.relative(), b"", b"").unwrap();
    assert!(!a.state().stuck(&next));
    assert!(a.state().stuck(&Address::new(announcement.base(), MsgId::gen(announcement.base(), me, 3))));
    let fresh = State::new(Some(UserIdentity::new("fresh")), &[]);
    assert!(!fresh.stuck(&next));
}
