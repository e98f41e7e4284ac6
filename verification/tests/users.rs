use std::collections::HashMap;

use streams::address::Address;
use streams::address::AppAddr;
use streams::address::MsgId;
use streams::api::message::MessageContent;
use streams::api::send::Invitation;
use streams::api::state::State;
use streams::api::transport::SendResponse;
use streams::api::transport::Transport;
use streams::api::user::delivered;
use streams::api::user::held;
use streams::api::user::User;
use streams::api::user_builder::UserBuilder;
use streams::error::Error;
use streams::id::identifier::Identifier;
use streams::id::identity::UserIdentity;
use streams::id::permission::Permissioned;
use streams::id::psk::Psk;
use streams::id::psk::PskId;
use streams::message::hdf::HDF;
use streams::message::pcf::PCF;
use streams::message::transport::TransportMessage;
use streams::message::wrapped::Message as Framed;
use streams::order::lex_le_exec;
use streams::order::sort_keys;
use streams::spongos::Spongos;
use streams::store::conforms;
use streams::store::ByteMap;
use streams::store::CursorStore;
use streams::store::KeyStore;
use streams::store::Shape;
use streams::store::SpongosStore;

#[derive(Default)]
struct Memory {
    messages: HashMap<Vec<u8>, Vec<u8>>,
    refuse: bool,
}

fn key(address: &Address) -> Vec<u8> {
    let mut k = address.base.bytes.to_vec();
    k.extend_from_slice(&address.relative.bytes);
    k
}

impl Transport for Memory {
    type SendResponse = ();

    fn send_message(&mut self, address: Address, msg: TransportMessage) -> Result<(), Error> {
        if self.refuse {
            return Err(Error::Transport);
        }
        self.messages.insert(key(&address), msg.into_body());
        Ok(())
    }

    fn recv_message(&mut self, address: Address) -> Result<TransportMessage, Error> {
        match self.messages.get(&key(&address)) {
            Some(body) => Ok(TransportMessage::new(body.clone())),
            None => Err(Error::Transport),
        }
    }
}

fn author() -> (User<Memory>, Address) {
    let mut a = User::new(Some(UserIdentity::new("author")), &[], Memory::default());
    let announcement = a.create_stream(0).unwrap().address();
    (a, announcement)
}

#[test]
fn builder() {
    assert!(matches!(User::builder().build(), Err(Error::Transport)));
    assert!(matches!(UserBuilder::new().with_identity(UserIdentity::new("x")).build(), Err(Error::Transport)));
    let psk = Psk::from_seed(b"seed");
    let user = User::builder()
        .with_transport(Memory::default())
        .with_identity(UserIdentity::new("x"))
        .with_psk(psk.to_pskid(), psk)
        .build()
        .unwrap();
    assert!(user.identifier().unwrap().same(&UserIdentity::new("x").to_identifier()));
    assert!(user.identity().unwrap().to_identifier().same(&user.identifier().unwrap()));
    assert!(user.stream_address().is_none());
    assert_eq!(user.subscribers().len(), 1);
    assert_eq!(user.state().psk_ids().len(), 1);
    assert!(user.transport().messages.is_empty());
    let nobody = User::builder().with_transport(Memory::default()).build().unwrap();
    assert!(matches!(nobody.identifier(), Err(Error::NoIdentity)));
    assert!(matches!(nobody.identity(), Err(Error::NoIdentity)));
    assert!(nobody.subscribers().is_empty());
}

#[test]
fn creating_a_stream() {
    let (mut a, announcement) = author();
    let me = a.identifier().unwrap();
    assert!(a.stream_address().unwrap().same(&announcement));
    assert!(announcement.base().same(&AppAddr::gen(me, 0)));
    assert!(announcement.relative().same(&MsgId::gen(announcement.base(), me, 0)));
    assert!(!announcement.relative().same(&MsgId::gen(announcement.base(), me, 1)));
    assert!(a.state().author_identifier.unwrap().same(&me));
    assert_eq!(a.state().cursor(), Some(1));
    assert_eq!(a.state().next_cursor(), Ok(2));
    assert!(a.state().spongos_store.contains(&announcement.relative()));
    assert_eq!(a.transport().messages.len(), 1);
    assert!(matches!(a.create_stream(1), Err(Error::AlreadySubscribed)));
    assert_eq!(a.transport().messages.len(), 1);

    let mut nobody: User<Memory> = User::new(None, &[], Memory::default());
    assert!(matches!(nobody.create_stream(0), Err(Error::NoIdentity)));
    let psk = Psk::from_seed(b"seed");
    let mut holder: User<Memory> =
        User::new(Some(UserIdentity::new_from_psk(psk.to_pskid(), psk)), &[], Memory::default());
    assert!(matches!(holder.create_stream(0), Err(Error::NoSignatureKeyPair)));
    assert!(holder.stream_address().is_none());
}

#[test]
fn sending_without_what_it_takes() {
    let link = MsgId::new([0u8; 12]);
    let mut fresh = User::new(Some(UserIdentity::new("x")), &[], Memory::default());
    assert!(matches!(fresh.send_signed_packet(link, b"", b""), Err(Error::NoStream)));
    assert!(matches!(fresh.send_tagged_packet(link, b"", b""), Err(Error::NoStream)));
    assert!(matches!(fresh.send_keyload(link, &[], &[]), Err(Error::NoStream)));
    assert!(matches!(fresh.send_keyload_for_all(link), Err(Error::NoStream)));
    assert!(matches!(fresh.send_keyload_for_all_rw(link), Err(Error::NoStream)));
    assert!(matches!(fresh.subscribe(link), Err(Error::NoStream)));
    assert!(matches!(fresh.unsubscribe(link), Err(Error::NoStream)));

    let (mut a, announcement) = author();
    assert!(matches!(a.send_signed_packet(link, b"", b""), Err(Error::UnknownLink)));
    assert!(matches!(a.send_tagged_packet(link, b"", b""), Err(Error::UnknownLink)));
    assert!(matches!(a.send_keyload(link, &[], &[]), Err(Error::UnknownLink)));
    assert!(matches!(a.unsubscribe(link), Err(Error::UnknownLink)));
    assert!(matches!(a.subscribe(link), Err(Error::UnknownLink)));
    assert_eq!(a.state().cursor(), Some(1));

    let stranger = UserIdentity::new("stranger").to_identifier();
    assert!(matches!(
        a.send_keyload(announcement.relative(), &[Permissioned::Read(stranger)], &[]),
        Err(Error::UnknownSubscriber)
    ));
    assert!(matches!(
        a.send_keyload(announcement.relative(), &[], &[PskId::new([1u8; 16])]),
        Err(Error::UnknownPsk)
    ));
    assert_eq!(a.state().cursor(), Some(1));

    let body = a.transport_mut().recv_message(announcement).unwrap();
    let mut reader: User<Memory> = User::new(None, &[], Memory::default());
    reader.handle_message(announcement, body).unwrap();
    assert!(matches!(
        reader.send_tagged_packet(announcement.relative(), b"", b""),
        Err(Error::NoIdentity)
    ));
    let body = a.transport_mut().recv_message(announcement).unwrap();
    let mut subscriber = User::new(Some(UserIdentity::new("s")), &[], Memory::default());
    subscriber.handle_message(announcement, body).unwrap();
    assert!(matches!(
        subscriber.send_tagged_packet(announcement.relative(), b"", b""),
        Err(Error::NotPublisher)
    ));
    assert_eq!(subscriber.state().next_cursor(), Err(Error::NotPublisher));
}

#[test]
fn transport_that_refuses_leaves_the_state_alone() {
    let (mut a, announcement) = author();
    let before = a.backup(b"x").unwrap();
    a.transport_mut().refuse = true;
    assert!(matches!(
        a.send_tagged_packet(announcement.relative(), b"a", b"b"),
        Err(Error::Transport)
    ));
    assert!(matches!(a.send_keyload(announcement.relative(), &[], &[]), Err(Error::Transport)));
    assert_eq!(a.backup(b"x").unwrap(), before);
    assert!(matches!(
        a.receive_message(Address::new(announcement.base(), MsgId::new([3u8; 12]))),
        Err(Error::Transport)
    ));
    assert_eq!(a.backup(b"x").unwrap(), before);
    let mut fresh = User::new(Some(UserIdentity::new("y")), &[], Memory { refuse: true, ..Memory::default() });
    assert!(matches!(fresh.create_stream(0), Err(Error::Transport)));
    assert!(fresh.stream_address().is_none());
    assert_eq!(fresh.state().cursor(), None);
}

#[test]
fn outcomes_of_a_delivery() {
    assert_eq!(delivered(true, Ok::<u8, Error>(1)), Err(Error::AddressConflict));
    assert_eq!(delivered(true, Err::<u8, Error>(Error::Transport)), Err(Error::AddressConflict));
    assert_eq!(delivered(false, Ok::<u8, Error>(1)), Ok(1));
    assert_eq!(delivered(false, Err::<u8, Error>(Error::Transport)), Err(Error::Transport));
    let response = SendResponse::new(Address::new(AppAddr::new([1; 40]), MsgId::new([2; 12])), 5u8);
    assert_eq!(response.address().relative.bytes, [2; 12]);
    assert_eq!(*response.response(), 5);
    assert_eq!(response.into_response(), 5);
}

#[test]
fn messages_that_are_refused() {
    let (mut a, announcement) = author();
    let body = a.transport_mut().recv_message(announcement).unwrap();
    assert!(matches!(
        a.handle_message(announcement, TransportMessage::new(body.body().clone())),
        Err(Error::AlreadySubscribed)
    ));

    let me = a.identifier().unwrap();
    let parent = a.state().spongos_store.get(&announcement.relative()).unwrap();
    let content = streams::kinds::tagged_packet::Wrap::new(&parent, b"a", b"b");
    let unknown = HDF::new(77, 9, me, announcement.base())
        .with_linked_msg_address(announcement.relative());
    let (bytes, _) = Framed::new(unknown, PCF::new_final_frame().with_content(content)).wrap().unwrap();
    let before = a.backup(b"x").unwrap();
    assert!(matches!(a.handle_message(announcement, bytes), Err(Error::UnknownMessageType)));
    assert_eq!(a.backup(b"x").unwrap(), before);

    let content = streams::kinds::tagged_packet::Wrap::new(&parent, b"a", b"b");
    let unlinked = HDF::new(3, 9, me, announcement.base());
    let (bytes, _) = Framed::new(unlinked, PCF::new_final_frame().with_content(content)).wrap().unwrap();
    assert!(matches!(a.handle_message(announcement, bytes), Err(Error::MissingLink)));
    assert_eq!(a.state().cursor(), Some(9));

    assert!(matches!(
        a.handle_message(announcement, TransportMessage::new(vec![2, 3])),
        Err(Error::UnexpectedEnd)
    ));
    assert!(matches!(
        a.handle_message(announcement, TransportMessage::new(vec![9, 3, 4, 0, 0])),
        Err(Error::BadHeader)
    ));

    let mut fresh: User<Memory> = User::new(None, &[], Memory::default());
    let content = streams::kinds::keyload::Wrap::new(&parent, &[], &[], [0; 32], [0; 16], a.identity().unwrap());
    let header = HDF::new(1, 2, me, announcement.base()).with_linked_msg_address(announcement.relative());
    let (bytes, _) = Framed::new(header, PCF::new_final_frame().with_content(content)).wrap().unwrap();
    assert!(matches!(fresh.handle_message(announcement, bytes), Err(Error::NoStream)));
    assert_eq!(fresh.state().cursor_store.get_cursor(&me), Some(2));
}

#[test]
fn cursors_only_grow() {
    let mut state = State::new(None, &[]);
    let id = Identifier::Ed25519([1u8; 32]);
    state.see(&id, 5);
    assert_eq!(state.cursor_store.get_cursor(&id), Some(5));
    state.see(&id, 3);
    assert_eq!(state.cursor_store.get_cursor(&id), Some(5));
    state.see(&id, 6);
    assert_eq!(state.cursor_store.get_cursor(&id), Some(6));
    state.see(&id, u64::MAX);
    assert_eq!(state.cursor_store.get_cursor(&id), Some(u64::MAX));
    assert!(state.next_addresses().is_empty());
}

#[test]
fn subscribers_and_pre_shared_keys_by_hand() {
    let mut user: User<Memory> = User::new(None, &[], Memory::default());
    let friend = UserIdentity::new("friend");
    let id = friend.to_identifier();
    assert_eq!(user.try_add_subscriber(id), Some(true));
    assert_eq!(user.try_add_subscriber(id), Some(false));
    assert!(!user.add_subscriber(id));
    assert_eq!(
        user.state().exchange_keys.get(&id.to_bytes()),
        Some(friend.get_ke_kp().unwrap().1)
    );
    assert_eq!(user.try_add_subscriber(Identifier::PskId(PskId::new([0; 16]))), None);
    assert_eq!(user.try_add_subscriber(Identifier::DID([0; 32])), None);
    assert_eq!(user.subscribers().len(), 1);
    assert!(user.remove_subscriber(id));
    assert!(!user.remove_subscriber(id));
    assert!(user.subscribers().is_empty());

    let psk = Psk::from_seed(b"seed");
    assert!(user.add_psk(psk));
    assert!(!user.add_psk(psk));
    assert_eq!(user.state().psk_ids()[0].to_bytes(), psk.to_pskid().to_bytes());
    assert!(user.remove_psk(psk.to_pskid()));
    assert!(!user.remove_psk(psk.to_pskid()));

    let mut state = State::new(None, &[(psk.to_pskid(), psk), (PskId::new([7; 16]), psk)]);
    assert_eq!(state.psk_ids().len(), 2);
    state.see(&id, 4);
    assert!(state.remove_subscriber(id));
    assert_eq!(state.cursor_store.get_cursor(&id), None);
    assert!(state.should_store_cursor(&Permissioned::Admin(id)));
    assert!(!state.should_store_cursor(&Permissioned::Read(id)));
    state.see(&id, 4);
    assert!(!state.should_store_cursor(&Permissioned::Admin(id)));
    let newcomer = Identifier::Ed25519([8u8; 32]);
    state.see(&newcomer, 0);
    assert!(state.should_store_cursor(&Permissioned::Admin(newcomer)));
    assert!(!state.should_store_cursor(&Permissioned::Read(newcomer)));
    state.see(&newcomer, 1);
    assert!(!state.should_store_cursor(&Permissioned::Admin(newcomer)));
}

#[test]
fn prepared_messages_do_not_depend_on_chance() {
    let (a, announcement) = author();
    let friend = UserIdentity::new("friend");
    let mut state = State::restore(&a.backup(b"x").unwrap(), b"x").unwrap();
    assert_eq!(state.try_add_subscriber(friend.to_identifier()), Some(true));
    let invited = [Invitation { permission: Permissioned::Read(friend.to_identifier()), ephemeral: [9; 32] }];
    let one = state.prepare_keyload(announcement.relative(), &invited, &[], [1; 32], [2; 16]).unwrap();
    let two = state.prepare_keyload(announcement.relative(), &invited, &[], [1; 32], [2; 16]).unwrap();
    assert_eq!(one.message.body(), two.message.body());
    assert!(one.spongos.same(&two.spongos));
    assert_eq!(one.cursor, 2);
    assert!(one.address.relative.same(&MsgId::gen(announcement.base(), a.identifier().unwrap(), 2)));
    let other = state.prepare_keyload(announcement.relative(), &invited, &[], [3; 32], [2; 16]).unwrap();
    assert_ne!(one.message.body(), other.message.body());
    assert_eq!(one.message.body().len(), other.message.body().len());
    assert_eq!(state.cursor(), Some(1));
    state.commit_keyload(&one, &invited);
    assert_eq!(state.cursor(), Some(2));
    assert!(state.spongos_store.get(&one.address.relative).unwrap().same(&one.spongos));
    assert_eq!(state.cursor_store.get_cursor(&friend.to_identifier()), None);

    let sub = State::restore(&a.backup(b"x").unwrap(), b"x").unwrap();
    let s1 = sub.prepare_subscription(announcement.relative(), [1; 32], [2; 32]).unwrap();
    let s2 = sub.prepare_subscription(announcement.relative(), [1; 32], [2; 32]).unwrap();
    assert_eq!(s1.message.body(), s2.message.body());
    assert_eq!(s1.cursor, 0);
    assert!(s1.address.relative.same(&MsgId::gen(announcement.base(), a.identifier().unwrap(), 0)));
}

#[test]
fn backups_that_are_not_the_state_of_a_user() {
    let (a, _) = author();
    let bytes = a.backup(b"pwd").unwrap();
    assert!(matches!(State::restore(&[], b"pwd"), Err(Error::UnexpectedEnd)));
    assert!(State::restore(&bytes[..bytes.len() / 2], b"pwd").is_err());

    let mut state = State::restore(&bytes, b"pwd").unwrap();
    assert!(state.same(a.state()));
    state.stream_address = Some(Address::new(AppAddr::new([0; 40]), MsgId::new([0; 12])));
    let inconsistent = {
        let mut size = streams::ddml::sizeof::Context::new();
        state.sizeof_state(&mut size).unwrap();
        let mut ctx = streams::ddml::wrap::Context::new(size.size());
        ctx.absorb_external(&streams::api::backup::password_key(b"pwd"));
        ctx.commit();
        state.wrap_state(&mut ctx);
        ctx.finalize().1
    };
    assert!(matches!(State::restore(&inconsistent, b"pwd"), Err(Error::BadState)));
}

#[test]
fn empty_state_stands_in_a_backup() {
    let state = State::new(None, &[]);
    let bytes = state.backup(b"").unwrap();
    assert_eq!(bytes.len(), 3 + 4 + 32);
    let back = State::restore(&bytes, b"").unwrap();
    assert!(back.same(&state));
    assert!(State::restore(&bytes, b"x").is_err());
}

#[test]
fn byte_maps() {
    let mut m = ByteMap::new();
    assert!(m.keys().is_empty());
    assert_eq!(m.insert(vec![1], vec![10]), None);
    assert_eq!(m.insert(vec![2], vec![20]), None);
    assert_eq!(m.insert(vec![1], vec![11]), Some(vec![10]));
    assert_eq!(m.get(&vec![1]), Some(vec![11]));
    assert_eq!(m.get(&vec![3]), None);
    let mut keys = m.keys();
    keys.sort();
    assert_eq!(keys, vec![vec![1], vec![2]]);
    let mut n = ByteMap::new();
    n.insert(vec![2], vec![20]);
    assert!(n.within(&m));
    assert!(!m.within(&n));
    assert!(!m.same(&n));
    n.insert(vec![1], vec![11]);
    assert!(m.same(&n));
    n.insert(vec![1], vec![12]);
    assert!(!m.same(&n));
    assert_eq!(m.remove(&vec![1]), Some(vec![11]));
    assert_eq!(m.remove(&vec![1]), None);
    assert_eq!(m.keys(), vec![vec![2]]);
}

#[test]
fn stores() {
    let mut sponges = SpongosStore::new();
    let mut s = Spongos::init();
    s.absorb(&[1, 2, 3]);
    let id = MsgId::new([4; 12]);
    assert!(sponges.get(&id).is_none());
    sponges.insert(id, s);
    assert!(sponges.get(&id).unwrap().same(&s));
    assert!(sponges.contains(&id));
    assert_eq!(sponges.raw_map().get(&id.to_vec()).unwrap().len(), 201);
    assert_eq!(sponges.raw_map().get(&id.to_vec()).unwrap()[200], 3);
    assert_eq!(sponges.keys(), vec![id.to_vec()]);

    let mut cursors = CursorStore::new();
    let who = Identifier::Ed25519([1; 32]);
    assert!(!cursors.is_cursor_tracked(&who));
    assert!(cursors.insert_cursor(who, 300));
    assert!(!cursors.insert_cursor(who, 301));
    assert_eq!(cursors.get_cursor(&who), Some(301));
    assert_eq!(cursors.get_raw(&who.to_bytes()), Some(301));
    assert_eq!(cursors.raw_map().get(&who.to_bytes()), Some(vec![1, 45]));
    assert!(cursors.remove(&who));
    assert!(!cursors.remove(&who));
    assert!(cursors.keys().is_empty());

    let mut keys = KeyStore::new();
    assert!(keys.insert(vec![1], [2; 32]));
    assert!(!keys.insert(vec![1], [3; 32]));
    assert_eq!(keys.get(&vec![1]), Some([3; 32]));
    assert!(keys.remove(&vec![1]));
    assert_eq!(keys.get(&vec![1]), None);
}

#[test]
fn shapes_of_entries() {
    let mut m = ByteMap::new();
    assert!(conforms(&m, Shape::Spongos));
    let mut sponge = vec![0u8; 201];
    m.insert(vec![0; 12], sponge.clone());
    assert!(conforms(&m, Shape::Spongos));
    assert!(SpongosStore::from_map(ByteMap::new()).is_some());
    sponge[200] = 168;
    m.insert(vec![1; 12], sponge);
    assert!(!conforms(&m, Shape::Spongos));
    assert!(SpongosStore::from_map(m).is_none());

    let id = Identifier::Ed25519([1; 32]).to_bytes();
    let mut m = ByteMap::new();
    m.insert(id.clone(), vec![1, 0]);
    assert!(conforms(&m, Shape::Cursors));
    m.insert(id.clone(), vec![]);
    assert!(conforms(&m, Shape::Cursors));
    m.insert(id.clone(), vec![0, 1]);
    assert!(!conforms(&m, Shape::Cursors));
    m.insert(id.clone(), vec![1; 9]);
    assert!(!conforms(&m, Shape::Cursors));
    assert!(CursorStore::from_map(m).is_none());
    let mut m = ByteMap::new();
    m.insert(vec![5], vec![1]);
    assert!(!conforms(&m, Shape::Cursors));

    let mut m = ByteMap::new();
    m.insert(id.clone(), vec![0; 32]);
    assert!(conforms(&m, Shape::ExchangeKeys));
    assert!(!conforms(&m, Shape::Psks));
    m.insert(vec![2; 17], vec![0; 31]);
    assert!(!conforms(&m, Shape::ExchangeKeys));
    assert!(KeyStore::from_map(m, Shape::ExchangeKeys).is_none());
    let mut m = ByteMap::new();
    m.insert(vec![0; 16], vec![0; 32]);
    assert!(conforms(&m, Shape::Psks));
    assert!(KeyStore::from_map(m, Shape::Psks).is_some());
}

#[test]
fn order_of_byte_strings() {
    assert!(lex_le_exec(&[], &[]));
    assert!(lex_le_exec(&[], &[0]));
    assert!(!lex_le_exec(&[0], &[]));
    assert!(lex_le_exec(&[1, 2], &[1, 2]));
    assert!(lex_le_exec(&[1, 2], &[1, 2, 0]));
    assert!(lex_le_exec(&[1, 2, 255], &[1, 3]));
    assert!(!lex_le_exec(&[2], &[1, 255]));
    let keys = vec![vec![3], vec![1, 2], vec![], vec![1], vec![3], vec![2, 0], vec![1, 2]];
    assert_eq!(sort_keys(keys), vec![vec![], vec![1], vec![1, 2], vec![2, 0], vec![3]]);
    assert!(sort_keys(vec![]).is_empty());
    let many: Vec<Vec<u8>> = (0..200u32).map(|i| vec![(i * 37 % 251) as u8, (i % 7) as u8]).collect();
    let mut expected = many.clone();
    expected.sort();
    expected.dedup();
    assert_eq!(sort_keys(many), expected);
}

#[test]
fn handled_message_is_what_was_sent() {
    let (mut a, announcement) = author();
    let body = a.transport_mut().recv_message(announcement).unwrap();
    let mut reader: User<Memory> = User::new(None, &[], Memory::default());
    let m = reader.handle_message(announcement, body).unwrap();
    assert!(m.address().same(&announcement));
    assert_eq!(m.header().message_type(), 0);
    assert_eq!(m.header().sequence(), 0);
    assert!(!m.is_orphan());
    match m.content() {
        MessageContent::Announcement { author_identifier, author_ke_pk } => {
            assert!(author_identifier.same(&a.identifier().unwrap()));
            assert_eq!(*author_ke_pk, a.identity().unwrap().get_ke_kp().unwrap().1);
        }
        _ => panic!("no announcement"),
    }
    assert!(reader.stream_address().unwrap().same(&announcement));
    assert_eq!(reader.state().cursor_store.get_cursor(&a.identifier().unwrap()), Some(1));
    assert!(reader
        .state()
        .spongos_store
        .get(&announcement.relative())
        .unwrap()
        .same(&a.state().spongos_store.get(&announcement.relative()).unwrap()));
}

#[test]
fn backup_does_not_depend_on_the_order_of_insertion() {
    let psks: Vec<(PskId, Psk)> = (0..20u8)
        .map(|i| {
            let psk = Psk::from_seed(&[i]);
            (psk.to_pskid(), psk)
        })
        .collect();
    let friends: Vec<Identifier> =
        ["a", "b", "c", "d", "e", "f", "g"].iter().map(|s| UserIdentity::new(s).to_identifier()).collect();
    let mut reversed = psks.clone();
    reversed.reverse();
    let mut one = State::new(Some(UserIdentity::new("me")), &psks);
    let mut two = State::new(Some(UserIdentity::new("me")), &reversed);
    for (i, f) in friends.iter().enumerate() {
        one.try_add_subscriber(*f).unwrap();
        one.see(f, i as u64);
    }
    for (i, f) in friends.iter().enumerate().rev() {
        two.see(f, i as u64);
        two.try_add_subscriber(*f).unwrap();
    }
    assert!(one.same(&two));
    assert!(one == two);
    let bytes = one.backup(b"pwd").unwrap();
    assert_eq!(two.backup(b"pwd").unwrap(), bytes);
    let back = State::restore(&bytes, b"pwd").unwrap();
    assert!(back == one);
    assert_eq!(back.backup(b"pwd").unwrap(), bytes);
    assert_eq!(back.subscribers(), one.subscribers());
    assert_eq!(back.psk_ids(), two.psk_ids());
    two.see(&friends[0], 100);
    assert!(one != two);
    assert_ne!(two.backup(b"pwd").unwrap(), bytes);
}

#[test]
fn answers_of_the_transport() {
    assert_eq!(held(Ok(TransportMessage::new(vec![1, 2]))), Some(TransportMessage::new(vec![1, 2])));
    assert_eq!(held(Err(Error::Transport)), None);
    assert_eq!(held(Err(Error::AddressConflict)), None);

    let (mut a, announcement) = author();
    let body = a.transport_mut().recv_message(announcement).unwrap();
    let mut reader = State::new(None, &[]);
    let before = reader.backup(b"x").unwrap();
    assert!(matches!(reader.receive(announcement, Err(Error::Transport)), Err(Error::Transport)));
    assert!(matches!(reader.receive(announcement, Err(Error::BadMac)), Err(Error::BadMac)));
    assert_eq!(reader.backup(b"x").unwrap(), before);
    let m = reader.receive(announcement, Ok(body)).unwrap();
    assert!(m.address().same(&announcement));
    assert!(matches!(m.content, MessageContent::Announcement { .. }));
    assert!(reader.stream_address().unwrap().same(&announcement));
    assert_ne!(reader.backup(b"x").unwrap(), before);
    assert!(matches!(
        reader.receive(announcement, Ok(TransportMessage::new(vec![2]))),
        Err(Error::UnexpectedEnd)
    ));
}
