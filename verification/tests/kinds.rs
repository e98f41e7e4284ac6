use streams::ddml::sizeof;
use streams::ddml::unwrap;
use streams::ddml::wrap;
use streams::error::Error;
use streams::id::identifier::Identifier;
use streams::id::identity::Keys;
use streams::id::identity::UserIdentity;
use streams::id::permission::PermissionDuration;
use streams::id::permission::Permissioned;
use streams::id::psk::Psk;
use streams::kinds::announcement;
use streams::kinds::keyload;
use streams::kinds::keyload::Recipient;
use streams::kinds::message_types;
use streams::kinds::signed_packet;
use streams::kinds::subscription;
use streams::kinds::tagged_packet;
use streams::kinds::unsubscription;
use streams::message::content::ContentWrap;
use streams::spongos::Spongos;
use streams::store::KeyStore;

fn ke(u: &UserIdentity) -> ([u8; 32], [u8; 32]) {
    u.get_ke_kp().unwrap()
}

fn parent(label: &[u8]) -> Spongos {
    let mut s = Spongos::init();
    s.absorb(label);
    s.commit();
    s
}

fn wrapped<C: ContentWrap>(content: &C) -> (Spongos, Vec<u8>) {
    let mut size = sizeof::Context::new();
    content.sizeof(&mut size).unwrap();
    let mut w = wrap::Context::new(size.size());
    w.put(streams::ddml::types::Mode::Absorb, b"header");
    content.wrap(&mut w).unwrap();
    let (spongos, bytes) = w.finalize();
    assert_eq!(bytes.len(), 6 + size.size());
    (spongos, bytes)
}

fn reader(bytes: &[u8]) -> unwrap::Context {
    let mut r = unwrap::Context::new(bytes.to_vec());
    r.take(streams::ddml::types::Mode::Absorb, 6).unwrap();
    r
}

#[test]
fn message_type_numbers() {
    let all = [
        message_types::ANNOUNCEMENT,
        message_types::KEYLOAD,
        message_types::SIGNED_PACKET,
        message_types::TAGGED_PACKET,
        message_types::SUBSCRIPTION,
        message_types::UNSUBSCRIPTION,
    ];
    assert_eq!(all, [0, 1, 2, 3, 4, 5]);
}

#[test]
fn announcement_reads_back() {
    let author = UserIdentity::new("author");
    let (spongos, bytes) = wrapped(&announcement::Wrap::new(&author));
    assert_eq!(bytes.len(), 6 + 33 + 32 + 65);
    let mut r = reader(&bytes);
    let mut read = announcement::Unwrap::new();
    assert_eq!(read.unwrap(&mut r), Ok(()));
    assert!(read.author_id().same(&author.to_identifier()));
    assert_eq!(read.author_ke_pk(), ke(&author).1);
    assert!(r.finalize().same(&spongos));

    let mut forged = bytes.clone();
    forged[6 + 33] ^= 1;
    let mut r = reader(&forged);
    assert_eq!(announcement::Unwrap::new().unwrap(&mut r), Err(Error::BadSignature));
    let mut r = reader(&bytes[..bytes.len() - 1]);
    assert_eq!(announcement::Unwrap::new().unwrap(&mut r), Err(Error::UnexpectedEnd));
}

#[test]
fn holder_of_a_pre_shared_key_cannot_write_what_is_signed() {
    let psk = Psk::from_seed(b"seed");
    let user = UserIdentity::new_from_psk(psk.to_pskid(), psk);
    let p = parent(b"p");
    let mut size = sizeof::Context::new();
    let mut w = wrap::Context::new(0);
    let a = announcement::Wrap::new(&user);
    assert_eq!(a.sizeof(&mut size), Err(Error::NoSignatureKeyPair));
    assert_eq!(a.wrap(&mut w), Err(Error::NoSignatureKeyPair));
    let u = unsubscription::Wrap::new(&p, &user);
    assert_eq!(u.sizeof(&mut size), Err(Error::NoSignatureKeyPair));
    assert_eq!(u.wrap(&mut w), Err(Error::NoSignatureKeyPair));
    let s = signed_packet::Wrap::new(&p, &user, b"a", b"b");
    assert_eq!(s.sizeof(&mut size), Err(Error::NoSignatureKeyPair));
    assert_eq!(s.wrap(&mut w), Err(Error::NoSignatureKeyPair));
    let s = subscription::Wrap::new(&p, [0; 32], [1; 32], &user, &[2; 32]);
    assert_eq!(s.sizeof(&mut size), Err(Error::NoSignatureKeyPair));
    assert_eq!(s.wrap(&mut w), Err(Error::NoSignatureKeyPair));
    let k = keyload::Wrap::new(&p, &[], &[], [0; 32], [0; 16], &user);
    assert_eq!(k.sizeof(&mut size), Err(Error::NoSignatureKeyPair));
    assert_eq!(k.wrap(&mut w), Err(Error::NoSignatureKeyPair));
    assert_eq!(w.len(), 0);
}

#[test]
fn subscription_reads_back_for_the_author_alone() {
    let author = UserIdentity::new("author");
    let subscriber = UserIdentity::new("subscriber");
    let stranger = UserIdentity::new("stranger");
    let p = parent(b"announcement");
    let content =
        subscription::Wrap::new(&p, [0x11; 32], [0x22; 32], &subscriber, &ke(&author).1);
    let (spongos, bytes) = wrapped(&content);
    assert_eq!(bytes.len(), 6 + 64 + 33 + 32 + 65);

    let mut r = reader(&bytes);
    let mut read = subscription::Unwrap::new(&p, &ke(&author).0);
    assert_eq!(read.unwrap(&mut r), Ok(()));
    assert_eq!(read.unsubscribe_key(), [0x11; 32]);
    assert!(read.subscriber_identifier().same(&subscriber.to_identifier()));
    assert_eq!(read.subscriber_ke_pk(), ke(&subscriber).1);
    assert!(r.finalize().same(&spongos));

    let mut r = reader(&bytes);
    assert!(subscription::Unwrap::new(&p, &ke(&stranger).0).unwrap(&mut r).is_err());
    let mut r = reader(&bytes);
    assert!(subscription::Unwrap::new(&parent(b"other"), &ke(&author).0).unwrap(&mut r).is_err());
}

#[test]
fn unsubscription_reads_back_against_its_parent_alone() {
    let subscriber = UserIdentity::new("subscriber");
    let p = parent(b"linked");
    let (spongos, bytes) = wrapped(&unsubscription::Wrap::new(&p, &subscriber));
    assert_eq!(bytes.len(), 6 + 33 + 65);
    let mut r = reader(&bytes);
    let mut read = unsubscription::Unwrap::new(&p);
    assert_eq!(read.unwrap(&mut r), Ok(()));
    assert!(read.subscriber_identifier().same(&subscriber.to_identifier()));
    assert!(r.finalize().same(&spongos));
    let mut r = reader(&bytes);
    assert!(unsubscription::Unwrap::new(&parent(b"other")).unwrap(&mut r).is_err());
}

#[test]
fn signed_packet_reads_back() {
    let publisher = UserIdentity::new("publisher");
    let p = parent(b"linked");
    let masked = vec![7u8; 500];
    let (spongos, bytes) = wrapped(&signed_packet::Wrap::new(&p, &publisher, b"public", &masked));
    assert_eq!(bytes.len(), 6 + (2 + 6) + (3 + 500) + 65);
    assert_eq!(&bytes[6..8], &[1, 6]);
    assert_eq!(&bytes[8..14], b"public");
    assert!(!bytes.windows(8).any(|w| w == [7u8; 8]));

    let mut r = reader(&bytes);
    let mut read = signed_packet::Unwrap::new(&p, publisher.to_identifier());
    assert_eq!(read.unwrap(&mut r), Ok(()));
    assert_eq!(read.public_payload(), &b"public".to_vec());
    assert_eq!(read.masked_payload(), &masked);
    assert!(r.finalize().same(&spongos));

    let other = UserIdentity::new("other").to_identifier();
    let mut r = reader(&bytes);
    assert_eq!(signed_packet::Unwrap::new(&p, other).unwrap(&mut r), Err(Error::BadSignature));
    let mut changed = bytes.clone();
    changed[9] ^= 1;
    let mut r = reader(&changed);
    assert_eq!(
        signed_packet::Unwrap::new(&p, publisher.to_identifier()).unwrap(&mut r),
        Err(Error::BadSignature)
    );
}

#[test]
fn tagged_packet_reads_back() {
    let p = parent(b"linked");
    let (spongos, bytes) = wrapped(&tagged_packet::Wrap::new(&p, b"public", b"masked"));
    assert_eq!(bytes.len(), 6 + 8 + 8 + 32);
    let mut r = reader(&bytes);
    let mut read = tagged_packet::Unwrap::new(&p);
    assert_eq!(read.unwrap(&mut r), Ok(()));
    assert_eq!(read.into_payloads(), (b"public".to_vec(), b"masked".to_vec()));
    assert!(r.finalize().same(&spongos));

    let mut r = reader(&bytes);
    assert!(tagged_packet::Unwrap::new(&parent(b"other")).unwrap(&mut r).is_err());
    let mut changed = bytes.clone();
    changed[9] ^= 1;
    let mut r = reader(&changed);
    assert_eq!(tagged_packet::Unwrap::new(&p).unwrap(&mut r), Err(Error::BadMac));
    let mut changed = bytes.clone();
    let at = changed.len() - 1;
    changed[at] ^= 1;
    let mut r = reader(&changed);
    assert_eq!(tagged_packet::Unwrap::new(&p).unwrap(&mut r), Err(Error::BadMac));
}

fn recipient(user: &UserIdentity, permission: Permissioned<Identifier>, n: u8) -> Recipient {
    Recipient { permission, ke_pk: ke(user).1, ephemeral: [n; 32] }
}

#[test]
fn keyload_hands_the_key_to_those_it_is_for() {
    let author = UserIdentity::new("author");
    let b = UserIdentity::new("b");
    let c = UserIdentity::new("c");
    let d = UserIdentity::new("d");
    let psk = Psk::from_seed(b"listed");
    let unlisted = Psk::from_seed(b"unlisted");
    let p = parent(b"announcement");
    let key = [0x5a; 32];
    let nonce = [0xa5; 16];
    let subscribers = [
        recipient(&b, Permissioned::Read(b.to_identifier()), 1),
        recipient(
            &c,
            Permissioned::ReadWrite(c.to_identifier(), PermissionDuration::Unix(5)),
            2,
        ),
    ];
    let psks = [(psk.to_pskid(), psk)];
    let content = keyload::Wrap::new(&p, &subscribers, &psks, key, nonce, &author);
    let (spongos, bytes) = wrapped(&content);
    assert_eq!(
        bytes.len(),
        6 + 16 + 2 + (1 + 33 + 64) + (1 + 33 + 2 + 1 + 64) + 2 + (16 + 32) + 65
    );
    assert_eq!(&bytes[6..22], &nonce);
    assert_eq!(&bytes[22..24], &[1, 2]);

    let empty = KeyStore::new();
    let mut held = KeyStore::new();
    held.insert(psk.to_pskid().to_bytes().to_vec(), psk.to_bytes());
    let mut other = KeyStore::new();
    other.insert(unlisted.to_pskid().to_bytes().to_vec(), unlisted.to_bytes());

    for (user, store, listed) in [
        (Some(&b), &empty, true),
        (Some(&c), &empty, true),
        (Some(&d), &empty, false),
        (Some(&d), &held, true),
        (None, &held, true),
        (None, &other, false),
        (None, &empty, false),
        (Some(&author), &empty, false),
    ] {
        let mut r = reader(&bytes);
        let mut read = keyload::Unwrap::new(&p, user, author.to_identifier(), store);
        assert_eq!(read.unwrap(&mut r), Ok(()));
        assert_eq!(read.nonce(), nonce);
        assert_eq!(read.subscribers().len(), 2);
        assert!(read.subscribers()[0].identifier().same(&b.to_identifier()));
        assert!(read.subscribers()[0].is_readonly());
        assert!(read.subscribers()[1].identifier().same(&c.to_identifier()));
        assert!(matches!(
            read.subscribers()[1],
            Permissioned::ReadWrite(_, PermissionDuration::Unix(5))
        ));
        assert_eq!(read.psks().len(), 1);
        assert_eq!(read.psks()[0].to_bytes(), psk.to_pskid().to_bytes());
        assert_eq!(r.remaining(), 0);
        if listed {
            assert_eq!(read.key(), Some(key));
            assert!(r.finalize().same(&spongos));
        } else {
            assert_eq!(read.key(), None);
            assert!(!r.finalize().same(&spongos));
        }
    }

    let mut r = reader(&bytes);
    let stranger = UserIdentity::new("stranger").to_identifier();
    assert_eq!(
        keyload::Unwrap::new(&p, Some(&b), stranger, &empty).unwrap(&mut r),
        Err(Error::BadSignature)
    );
    let mut r = reader(&bytes);
    assert_eq!(keyload::Unwrap::new(&p, Some(&d), stranger, &empty).unwrap(&mut r), Ok(()));
    let mut r = reader(&bytes);
    assert!(keyload::Unwrap::new(&parent(b"other"), Some(&b), author.to_identifier(), &empty)
        .unwrap(&mut r)
        .is_err());
    let mut r = reader(&bytes[..bytes.len() - 70]);
    assert_eq!(
        keyload::Unwrap::new(&p, Some(&d), author.to_identifier(), &empty).unwrap(&mut r),
        Err(Error::UnexpectedEnd)
    );
    match &b.keys {
        Keys::Keypair(_) => {}
        Keys::Psk(_) => panic!("no key pair"),
    }
}

#[test]
fn keyload_for_nobody() {
    let author = UserIdentity::new("author");
    let p = parent(b"announcement");
    let (spongos, bytes) = wrapped(&keyload::Wrap::new(&p, &[], &[], [1; 32], [2; 16], &author));
    assert_eq!(bytes.len(), 6 + 16 + 1 + 1 + 65);
    let empty = KeyStore::new();
    let mut r = reader(&bytes);
    let mut read = keyload::Unwrap::new(&p, None, author.to_identifier(), &empty);
    assert_eq!(read.unwrap(&mut r), Ok(()));
    assert_eq!(read.key(), None);
    assert!(read.into_recipients().0.is_empty());
    assert!(!r.finalize().same(&spongos));
}
