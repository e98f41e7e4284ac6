use std::cell::RefCell;
use std::collections::HashMap;
use std::rc::Rc;

use streams::address::Address;
use streams::api::message::Message;
use streams::api::message::MessageContent;
use streams::api::transport::Transport;
use streams::api::user::User;
use streams::error::Error;
use streams::id::identifier::Identifier;
use streams::id::identity::UserIdentity;
use streams::id::permission::PermissionDuration;
use streams::id::permission::Permissioned;
use streams::id::psk::Psk;
use streams::message::transport::TransportMessage;

#[derive(Clone, Default)]
struct Bucket {
    messages: Rc<RefCell<HashMap<Vec<u8>, Vec<u8>>>>,
}

fn key(address: &Address) -> Vec<u8> {
    let mut k = address.base.bytes.to_vec();
    k.extend_from_slice(&address.relative.bytes);
    k
}

impl Transport for Bucket {
    type SendResponse = usize;

    fn send_message(&mut self, address: Address, msg: TransportMessage) -> Result<usize, Error> {
        let mut messages = self.messages.borrow_mut();
        if messages.contains_key(&key(&address)) {
            return Err(Error::AddressConflict);
        }
        let len = msg.body().len();
        messages.insert(key(&address), msg.into_body());
        Ok(len)
    }

    fn recv_message(&mut self, address: Address) -> Result<TransportMessage, Error> {
        match self.messages.borrow().get(&key(&address)) {
            Some(body) => Ok(TransportMessage::new(body.clone())),
            None => Err(Error::Transport),
        }
    }
}

fn user(seed: &str, bucket: &Bucket) -> User<Bucket> {
    User::new(Some(UserIdentity::new(seed)), &[], bucket.clone())
}

fn id(u: &User<Bucket>) -> Identifier {
    u.identifier().unwrap()
}

fn cursor(u: &User<Bucket>, of: &Identifier) -> Option<u64> {
    u.state().cursor_store.get_cursor(of)
}

/// An author with two subscribers who have asked to join and whom the
/// author knows.
fn stream() -> (Bucket, User<Bucket>, User<Bucket>, User<Bucket>, Address) {
    let bucket = Bucket::default();
    let mut a = user("author", &bucket);
    let mut b = user("subscriber b", &bucket);
    let mut c = user("subscriber c", &bucket);
    let announcement = a.create_stream(0).unwrap().address();
    for u in [&mut b, &mut c] {
        let m = u.receive_message(announcement).unwrap();
        assert!(matches!(m.content, MessageContent::Announcement { .. }));
        let subscription = u.subscribe(announcement.relative()).unwrap().address();
        let m = a.receive_message(subscription).unwrap();
        assert!(matches!(m.content, MessageContent::Subscription { .. }));
    }
    (bucket, a, b, c, announcement)
}

fn payloads(m: &Message) -> (Vec<u8>, Vec<u8>) {
    match &m.content {
        MessageContent::SignedPacket { public_payload, masked_payload } => {
            (public_payload.clone(), masked_payload.clone())
        }
        MessageContent::TaggedPacket { public_payload, masked_payload } => {
            (public_payload.clone(), masked_payload.clone())
        }
        _ => panic!("no packet"),
    }
}

#[test]
fn happy_path_with_two_subscribers() {
    let (_bucket, mut a, mut b, mut c, announcement) = stream();
    assert_eq!(cursor(&a, &id(&a)), Some(1));
    assert_eq!(cursor(&b, &id(&b)), Some(0));
    assert_eq!(cursor(&c, &id(&c)), Some(0));
    let subscribers = [
        Permissioned::Read(id(&b)),
        Permissioned::ReadWrite(id(&c), PermissionDuration::Perpetual),
    ];
    let keyload = a.send_keyload(announcement.relative(), &subscribers, &[]).unwrap().address();
    assert_eq!(cursor(&a, &id(&a)), Some(2));
    assert_eq!(cursor(&a, &id(&c)), Some(1));
    assert_eq!(cursor(&a, &id(&b)), None);

    let m = c.receive_message(keyload).unwrap();
    match &m.content {
        MessageContent::Keyload { subscribers, psks, key, .. } => {
            assert_eq!(subscribers.len(), 2);
            assert!(psks.is_empty());
            assert!(key.is_some());
        }
        _ => panic!("no keyload"),
    }
    assert_eq!(cursor(&c, &id(&c)), Some(1));
    assert_eq!(cursor(&c, &id(&a)), Some(2));

    let packet = c.send_signed_packet(keyload.relative(), b"hello", b"secret").unwrap().address();
    assert_eq!(cursor(&c, &id(&c)), Some(2));
    let wire = c.transport_mut().recv_message(packet).unwrap();
    assert!(wire.body().windows(5).any(|w| w == b"hello"));
    assert!(!wire.body().windows(6).any(|w| w == b"secret"));

    let m = a.receive_message(packet).unwrap();
    assert_eq!(payloads(&m), (b"hello".to_vec(), b"secret".to_vec()));
    assert!(m.header.publisher().same(&id(&c)));
    assert_eq!(m.header.sequence(), 2);
    assert_eq!(cursor(&a, &id(&c)), Some(2));

    assert!(b.receive_message(keyload).is_ok());
    assert_eq!(cursor(&b, &id(&b)), Some(0));
    let m = b.receive_message(packet).unwrap();
    assert_eq!(payloads(&m), (b"hello".to_vec(), b"secret".to_vec()));
    assert_eq!(cursor(&b, &id(&c)), Some(2));
    assert!(a.state().spongos_store.get(&packet.relative()).unwrap().same(
        &c.state().spongos_store.get(&packet.relative()).unwrap()
    ));
    assert!(a.state().spongos_store.get(&packet.relative()).unwrap().same(
        &b.state().spongos_store.get(&packet.relative()).unwrap()
    ));
}

#[test]
fn orphan_is_handled_again_once_its_parent_is_known() {
    let (mut bucket, mut a, mut b, _c, announcement) = stream();
    let keyload = a
        .send_keyload(announcement.relative(), &[Permissioned::Read(id(&b))], &[])
        .unwrap()
        .address();
    let packet = a.send_signed_packet(keyload.relative(), b"public", b"masked").unwrap().address();

    let before = b.state().spongos_store.keys().len();
    let m = b.receive_message(packet).unwrap();
    assert!(m.is_orphan());
    assert_eq!(b.state().spongos_store.keys().len(), before);
    assert!(!b.state().spongos_store.contains(&packet.relative()));
    let kept = match m.content {
        MessageContent::Orphan { message } => message,
        _ => panic!("no orphan"),
    };
    assert_eq!(kept.body(), bucket.recv_message(packet).unwrap().body());

    assert!(b.receive_message(keyload).is_ok());
    let m = b.handle_message(packet, kept).unwrap();
    assert_eq!(payloads(&m), (b"public".to_vec(), b"masked".to_vec()));
    assert!(b.state().spongos_store.contains(&packet.relative()));
}

#[test]
fn reader_left_out_of_a_keyload_cannot_read_what_follows() {
    let (bucket, mut a, b, _c, announcement) = stream();
    let psk = Psk::from_seed(b"a pre-shared key");
    let mut p: User<Bucket> = User::new(None, &[(psk.to_pskid(), psk)], bucket.clone());
    assert!(p.receive_message(announcement).is_ok());
    let keyload = a
        .send_keyload(announcement.relative(), &[Permissioned::Read(id(&b))], &[])
        .unwrap()
        .address();
    let tagged = a.send_tagged_packet(keyload.relative(), b"public", b"masked").unwrap().address();

    let m = p.receive_message(keyload).unwrap();
    match &m.content {
        MessageContent::Keyload { key, .. } => assert!(key.is_none()),
        _ => panic!("no keyload"),
    }
    assert_eq!(cursor(&p, &id(&a)), Some(2));
    assert!(matches!(p.receive_message(tagged), Err(Error::BadMac)));
    assert_eq!(cursor(&p, &id(&a)), Some(3));
    assert!(!p.state().spongos_store.contains(&tagged.relative()));
}

#[test]
fn holder_of_a_listed_pre_shared_key_reads_what_follows() {
    let bucket = Bucket::default();
    let psk = Psk::from_seed(b"a pre-shared key");
    let other = Psk::from_seed(b"another pre-shared key");
    let mut a: User<Bucket> =
        User::new(Some(UserIdentity::new("author")), &[(psk.to_pskid(), psk)], bucket.clone());
    let mut p: User<Bucket> = User::new(None, &[(psk.to_pskid(), psk)], bucket.clone());
    let mut q: User<Bucket> = User::new(None, &[(other.to_pskid(), other)], bucket.clone());
    let announcement = a.create_stream(3).unwrap().address();
    assert!(p.receive_message(announcement).is_ok());
    assert!(q.receive_message(announcement).is_ok());
    let keyload = a.send_keyload(announcement.relative(), &[], &[psk.to_pskid()]).unwrap().address();
    let tagged = a.send_tagged_packet(keyload.relative(), b"public", b"masked").unwrap().address();

    let m = p.receive_message(keyload).unwrap();
    match &m.content {
        MessageContent::Keyload { key, psks, .. } => {
            assert!(key.is_some());
            assert_eq!(psks.len(), 1);
            assert_eq!(psks[0].to_bytes(), psk.to_pskid().to_bytes());
        }
        _ => panic!("no keyload"),
    }
    let m = p.receive_message(tagged).unwrap();
    assert_eq!(payloads(&m), (b"public".to_vec(), b"masked".to_vec()));

    let m = q.receive_message(keyload).unwrap();
    match &m.content {
        MessageContent::Keyload { key, .. } => assert!(key.is_none()),
        _ => panic!("no keyload"),
    }
    assert!(matches!(q.receive_message(tagged), Err(Error::BadMac)));
}

#[test]
fn unsubscribing_makes_the_author_forget_the_subscriber() {
    let (_bucket, mut a, mut b, _c, announcement) = stream();
    assert!(a.state().exchange_keys.get(&id(&b).to_bytes()).is_some());
    assert_eq!(cursor(&b, &id(&b)), Some(0));
    let leave = b.unsubscribe(announcement.relative()).unwrap().address();
    assert_eq!(cursor(&b, &id(&b)), Some(1));
    assert!(leave.relative().same(&streams::address::MsgId::gen(announcement.base(), id(&b), 1)));
    let m = a.receive_message(leave).unwrap();
    match &m.content {
        MessageContent::Unsubscription { subscriber_identifier } => {
            assert!(subscriber_identifier.same(&id(&b)))
        }
        _ => panic!("no unsubscription"),
    }
    assert!(a.state().exchange_keys.get(&id(&b).to_bytes()).is_none());
    assert_eq!(cursor(&a, &id(&b)), None);
    assert!(a.state().spongos_store.contains(&leave.relative()));
    assert!(a
        .state()
        .spongos_store
        .get(&leave.relative())
        .unwrap()
        .same(&b.state().spongos_store.get(&leave.relative()).unwrap()));
}

#[test]
fn subscriber_who_may_write_unsubscribes() {
    let (_bucket, mut a, mut b, _c, announcement) = stream();
    let keyload = a
        .send_keyload(
            announcement.relative(),
            &[Permissioned::ReadWrite(id(&b), PermissionDuration::Perpetual)],
            &[],
        )
        .unwrap()
        .address();
    assert!(b.receive_message(keyload).is_ok());
    assert_eq!(cursor(&a, &id(&b)), Some(1));
    assert_eq!(cursor(&b, &id(&b)), Some(1));
    let leave = b.unsubscribe(keyload.relative()).unwrap().address();
    assert_eq!(cursor(&b, &id(&b)), Some(2));
    a.receive_message(leave).unwrap();
    assert!(a.state().exchange_keys.get(&id(&b).to_bytes()).is_none());
    assert_eq!(cursor(&a, &id(&b)), None);
}

#[test]
fn backup_and_restore() {
    let bucket = Bucket::default();
    let psk = Psk::from_seed(b"shared");
    let mut a: User<Bucket> =
        User::new(Some(UserIdentity::new("author")), &[(psk.to_pskid(), psk)], bucket.clone());
    let announcement = a.create_stream(7).unwrap().address();
    let mut ids = Vec::new();
    for seed in ["one", "two", "three"] {
        let mut s = user(seed, &bucket);
        s.receive_message(announcement).unwrap();
        let subscription = s.subscribe(announcement.relative()).unwrap().address();
        a.receive_message(subscription).unwrap();
        ids.push(id(&s));
    }
    assert_eq!(a.subscribers().len(), 4);
    let subscribers = [
        Permissioned::Read(ids[0]),
        Permissioned::ReadWrite(ids[1], PermissionDuration::Unix(77)),
        Permissioned::Admin(ids[2]),
    ];
    let keyload =
        a.send_keyload(announcement.relative(), &subscribers, &[psk.to_pskid()]).unwrap().address();
    let mut last = keyload;
    for i in 0..5u8 {
        last = if i % 2 == 0 {
            a.send_signed_packet(last.relative(), &[i], &[i; 40]).unwrap().address()
        } else {
            a.send_tagged_packet(last.relative(), &[i], &[i; 300]).unwrap().address()
        };
    }
    assert_eq!(a.state().spongos_store.keys().len(), 7);
    assert_eq!(cursor(&a, &id(&a)), Some(7));

    let bytes = a.backup(b"p").unwrap();
    let secret = a.identity().unwrap().get_sig_sk().unwrap();
    assert!(!bytes.windows(8).any(|w| secret.windows(8).any(|s| w == s)));
    assert!(!bytes.windows(8).any(|w| psk.to_bytes().windows(8).any(|s| w == s)));
    assert_eq!(a.backup(b"p").unwrap(), bytes);
    assert_ne!(a.backup(b"q").unwrap(), bytes);

    let mut restored = User::restore(&bytes, b"p", bucket.clone()).unwrap();
    assert!(restored.same(&a));
    assert!(a.same(&restored));
    assert!(restored == a);
    assert!(User::restore(&bytes, b"p", Bucket::default()).unwrap() == a);
    assert_eq!(restored.backup(b"p").unwrap(), bytes);
    assert_eq!(cursor(&restored, &id(&a)), Some(7));
    assert_eq!(cursor(&restored, &ids[1]), Some(1));
    assert!(restored.stream_address().unwrap().same(&announcement));

    assert!(User::restore(&bytes, b"q", bucket.clone()).is_err());
    let mut cut = bytes.clone();
    cut.pop();
    assert!(User::restore(&cut, b"p", bucket.clone()).is_err());
    let mut flipped = bytes.clone();
    let at = flipped.len() - 1;
    flipped[at] ^= 1;
    assert!(matches!(User::restore(&flipped, b"p", bucket.clone()), Err(Error::BadMac)));

    let next = restored.send_tagged_packet(last.relative(), b"after", b"restore").unwrap().address();
    assert!(!restored.same(&a));
    assert!(restored != a);
    let m = a.receive_message(next).unwrap();
    assert_eq!(payloads(&m), (b"after".to_vec(), b"restore".to_vec()));
}

#[test]
fn second_send_at_an_address_conflicts_and_changes_nothing() {
    let (bucket, mut a, _b, _c, announcement) = stream();
    let bytes = a.backup(b"pwd").unwrap();
    let mut twin = User::restore(&bytes, b"pwd", bucket.clone()).unwrap();
    let first = a.send_tagged_packet(announcement.relative(), b"one", b"first").unwrap().address();
    assert!(matches!(
        twin.send_tagged_packet(announcement.relative(), b"two", b"second"),
        Err(Error::AddressConflict)
    ));
    let untouched = User::restore(&bytes, b"pwd", bucket.clone()).unwrap();
    assert!(twin.same(&untouched));
    assert_eq!(cursor(&twin, &id(&twin)), Some(1));
    assert!(!twin.state().spongos_store.contains(&first.relative()));
    let m = twin.receive_message(first).unwrap();
    assert_eq!(payloads(&m), (b"one".to_vec(), b"first".to_vec()));
}

#[test]
fn every_send_moves_the_cursor_by_one() {
    let (_bucket, mut a, _b, _c, announcement) = stream();
    let mut last = announcement;
    for n in 1..6u64 {
        assert_eq!(cursor(&a, &id(&a)), Some(n));
        let r = if n % 2 == 0 {
            a.send_signed_packet(last.relative(), b"", b"")
        } else {
            a.send_tagged_packet(last.relative(), b"", b"")
        };
        last = r.unwrap().address();
        assert_eq!(cursor(&a, &id(&a)), Some(n + 1));
        assert!(a.state().spongos_store.contains(&last.relative()));
    }
}

#[test]
fn subscriptions_are_never_kept_as_sponges() {
    let bucket = Bucket::default();
    let mut a = user("author", &bucket);
    let mut b = user("subscriber", &bucket);
    let announcement = a.create_stream(1).unwrap().address();
    b.receive_message(announcement).unwrap();
    let sponges_of_b = b.state().spongos_store.keys();
    assert_eq!(cursor(&b, &id(&b)), None);
    let subscription = b.subscribe(announcement.relative()).unwrap().address();
    assert_eq!(b.state().spongos_store.keys(), sponges_of_b);
    assert!(!b.state().spongos_store.contains(&subscription.relative()));
    assert_eq!(cursor(&b, &id(&b)), Some(0));
    assert!(subscription.relative().same(&streams::address::MsgId::gen(announcement.base(), id(&b), 0)));
    let sponges = a.state().spongos_store.keys().len();
    a.receive_message(subscription).unwrap();
    assert!(!a.state().spongos_store.contains(&subscription.relative()));
    assert_eq!(a.state().spongos_store.keys().len(), sponges);
    assert!(a.state().exchange_keys.get(&id(&b).to_bytes()).is_some());
    assert_eq!(cursor(&a, &id(&b)), None);
}

#[test]
fn linked_message_read_against_another_parent_is_refused() {
    let (_bucket, mut a, mut b, _c, announcement) = stream();
    let keyload = a
        .send_keyload(announcement.relative(), &[Permissioned::Read(id(&b))], &[])
        .unwrap()
        .address();
    let other = a
        .send_keyload(announcement.relative(), &[Permissioned::Read(id(&b))], &[])
        .unwrap()
        .address();
    let packet = a.send_signed_packet(keyload.relative(), b"public", b"masked").unwrap().address();
    b.receive_message(keyload).unwrap();
    b.receive_message(other).unwrap();
    let right = b.state().spongos_store.get(&keyload.relative()).unwrap();
    let wrong = b.state().spongos_store.get(&other.relative()).unwrap();
    assert!(!right.same(&wrong));

    let bytes = a.transport_mut().recv_message(packet).unwrap();
    let parts = |bytes: &TransportMessage| {
        TransportMessage::new(bytes.body().clone())
            .parse_header(announcement.base())
            .unwrap()
            .into_parts()
            .unwrap()
    };
    let (header, _frame, mut ctx) = parts(&bytes);
    let mut content = streams::kinds::signed_packet::Unwrap::new(&wrong, header.publisher());
    assert!(content.unwrap(&mut ctx).is_err());
    let (header, _frame, mut ctx) = parts(&bytes);
    let mut content = streams::kinds::signed_packet::Unwrap::new(&right, header.publisher());
    assert_eq!(content.unwrap(&mut ctx), Ok(()));
    assert_eq!(content.masked_payload(), &b"masked".to_vec());
}

#[test]
fn keyloads_for_all() {
    let (_bucket, mut a, mut b, mut c, announcement) = stream();
    let all = a.subscribers();
    assert_eq!(all.len(), 3);
    let sorted: Vec<Vec<u8>> = all.iter().map(|i| i.to_bytes()).collect();
    let mut expected = sorted.clone();
    expected.sort();
    assert_eq!(sorted, expected);

    let keyload = a.send_keyload_for_all(announcement.relative()).unwrap().address();
    assert_eq!(cursor(&a, &id(&b)), None);
    let m = b.receive_message(keyload).unwrap();
    match &m.content {
        MessageContent::Keyload { subscribers, key, .. } => {
            assert_eq!(subscribers.len(), 3);
            assert!(subscribers.iter().all(|s| s.is_readonly()));
            assert!(key.is_some());
        }
        _ => panic!("no keyload"),
    }
    let keyload = a.send_keyload_for_all_rw(announcement.relative()).unwrap().address();
    assert_eq!(cursor(&a, &id(&b)), Some(1));
    assert_eq!(cursor(&a, &id(&c)), Some(1));
    assert_eq!(cursor(&a, &id(&a)), Some(3));
    c.receive_message(keyload).unwrap();
    assert_eq!(cursor(&c, &id(&c)), Some(1));
    assert_eq!(cursor(&c, &id(&b)), Some(1));
    let packet = c.send_tagged_packet(keyload.relative(), b"from c", b"to all").unwrap().address();
    let m = a.receive_message(packet).unwrap();
    assert_eq!(payloads(&m), (b"from c".to_vec(), b"to all".to_vec()));
}

#[test]
fn next_addresses_follow_the_cursors() {
    let (_bucket, mut a, mut b, _c, announcement) = stream();
    assert!(user("nobody", &Bucket::default()).next_addresses().is_empty());
    let own = Address::new(announcement.base(), streams::address::MsgId::gen(announcement.base(), id(&b), 1));
    let first = a.send_tagged_packet(announcement.relative(), b"", b"").unwrap().address();
    let next = b.next_addresses();
    assert_eq!(next.len(), 2);
    assert!(next.iter().any(|n| n.same(&first)));
    assert!(next.iter().any(|n| n.same(&own)));
    let by_id = if id(&a).to_bytes() < id(&b).to_bytes() { [first, own] } else { [own, first] };
    assert!(next[0].same(&by_id[0]) && next[1].same(&by_id[1]));
    b.receive_message(first).unwrap();
    let second = a.send_tagged_packet(first.relative(), b"", b"").unwrap().address();
    let next = b.next_addresses();
    assert_eq!(next.len(), 2);
    assert!(next.iter().any(|n| n.same(&second)));
    assert!(!next.iter().any(|n| n.same(&first)));
}

#[test]
fn catching_up() {
    let (bucket, mut a, mut b, mut c, announcement) = stream();
    let subscribers = [
        Permissioned::Read(id(&b)),
        Permissioned::ReadWrite(id(&c), PermissionDuration::Perpetual),
    ];
    let keyload = a.send_keyload(announcement.relative(), &subscribers, &[]).unwrap().address();
    let first = a.send_signed_packet(keyload.relative(), b"1", b"one").unwrap().address();
    assert_eq!(c.sync(), Ok(2));
    assert_eq!(c.sync(), Ok(0));
    let second = c.send_tagged_packet(first.relative(), b"2", b"two").unwrap().address();
    let third = a.send_tagged_packet(second.relative(), b"3", b"three");
    assert!(matches!(third, Err(Error::UnknownLink)));
    assert_eq!(a.sync(), Ok(1));
    let third = a.send_tagged_packet(second.relative(), b"3", b"three").unwrap().address();

    let m = b.next_message().unwrap().unwrap();
    assert!(m.address.same(&keyload));
    let messages = b.fetch_next_messages().unwrap();
    assert_eq!(messages.len(), 3);
    assert!(messages[0].address.same(&first));
    assert!(messages[1].address.same(&second));
    assert!(messages[2].address.same(&third));
    assert!(messages.iter().all(|m| !m.is_orphan()));
    assert_eq!(payloads(&messages[1]), (b"2".to_vec(), b"two".to_vec()));
    assert_eq!(cursor(&b, &id(&a)), Some(4));
    assert_eq!(cursor(&b, &id(&c)), Some(2));
    assert!(b.next_message().unwrap().is_none());
    assert!(b.fetch_next_messages().unwrap().is_empty());
    assert!(b
        .state()
        .spongos_store
        .get(&third.relative())
        .unwrap()
        .same(&a.state().spongos_store.get(&third.relative()).unwrap()));

    let mut late = user("late", &bucket);
    assert_eq!(late.sync(), Ok(0));
    late.receive_message(announcement).unwrap();
    let before = cursor(&late, &id(&a));
    assert_eq!(before, Some(1));
    assert_eq!(late.sync(), Err(Error::BadSignature));
    assert_eq!(cursor(&late, &id(&a)), Some(3));
    assert!(late.state().spongos_store.contains(&keyload.relative()));
    assert!(!late.state().spongos_store.contains(&first.relative()));
}
