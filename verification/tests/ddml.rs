use streams::ddml::sizeof;
use streams::ddml::types::digits;
use streams::ddml::types::digits_value;
use streams::ddml::types::Mode;
use streams::ddml::unwrap;
use streams::ddml::wrap;
use streams::error::Error;
use streams::id::identifier::Identifier;
use streams::id::permission::PermissionDuration;
use streams::id::permission::Permissioned;
use streams::id::psk::PskId;

fn written(f: impl FnOnce(&mut wrap::Context)) -> Vec<u8> {
    let mut ctx = wrap::Context::new(0);
    f(&mut ctx);
    ctx.finalize().1
}

#[test]
fn sizes_on_the_wire() {
    assert_eq!(written(|c| c.put_size(Mode::Skip, 0)), vec![0]);
    assert_eq!(written(|c| c.put_size(Mode::Skip, 1)), vec![1, 1]);
    assert_eq!(written(|c| c.put_size(Mode::Skip, 255)), vec![1, 255]);
    assert_eq!(written(|c| c.put_size(Mode::Skip, 256)), vec![2, 1, 0]);
    assert_eq!(written(|c| c.put_size(Mode::Absorb, 0x0102_0304)), vec![4, 1, 2, 3, 4]);
    assert_eq!(written(|c| c.put_size(Mode::Skip, u64::MAX)), vec![8, 255, 255, 255, 255, 255, 255, 255, 255]);
}

#[test]
fn digits_and_their_value() {
    assert_eq!(digits(0), Vec::<u8>::new());
    assert_eq!(digits(65536), vec![1, 0, 0]);
    assert_eq!(digits_value(&[1, 0, 0]), Some(65536));
    assert_eq!(digits_value(&[0, 0, 1]), Some(1));
    assert_eq!(digits_value(&[255; 8]), Some(u64::MAX));
    assert_eq!(digits_value(&[1, 0, 0, 0, 0, 0, 0, 0, 0]), None);
}

#[test]
fn sizes_read_back_in_every_mode() {
    for mode in [Mode::Absorb, Mode::Mask, Mode::Skip] {
        for n in [0u64, 1, 255, 256, 70000, u64::MAX] {
            let mut w = wrap::Context::new(0);
            w.put_size(mode, n);
            w.put_u8(mode, 9);
            let (spongos, bytes) = w.finalize();
            let mut r = unwrap::Context::new(bytes);
            assert_eq!(r.take_size(mode), Ok(n));
            assert_eq!(r.take_u8(mode), Ok(9));
            assert_eq!(r.remaining(), 0);
            assert!(r.finalize().same(&spongos));
        }
    }
}

#[test]
fn a_size_of_nine_digits_is_refused() {
    let mut r = unwrap::Context::new(vec![9, 1, 0, 0, 0, 0, 0, 0, 0, 0]);
    assert_eq!(r.take_size(Mode::Skip), Err(Error::SizeOverflow));
}

#[test]
fn reading_past_the_end_is_refused() {
    let mut r = unwrap::Context::new(vec![1, 2, 3]);
    assert_eq!(r.take(Mode::Absorb, 4), Err(Error::UnexpectedEnd));
    let mut r = unwrap::Context::new(vec![2, 1]);
    assert_eq!(r.take_size(Mode::Skip), Err(Error::UnexpectedEnd));
    let mut r = unwrap::Context::new(vec![1, 5, 1, 2]);
    assert_eq!(r.take_bytes(Mode::Skip), Err(Error::UnexpectedEnd));
}

#[test]
fn byte_strings_read_back_masked() {
    let payload: Vec<u8> = (0..300u32).map(|i| i as u8).collect();
    let mut w = wrap::Context::new(0);
    w.absorb_external(b"shared");
    w.commit();
    w.put_bytes(Mode::Mask, &payload);
    let (spongos, bytes) = w.finalize();
    assert_eq!(bytes.len(), 1 + 2 + 300);
    assert!(!bytes.windows(4).any(|x| payload.windows(4).any(|y| x == y)));
    let mut r = unwrap::Context::new(bytes.clone());
    r.absorb_external(b"shared");
    r.commit();
    assert_eq!(r.take_bytes(Mode::Mask), Ok(payload.clone()));
    assert!(r.finalize().same(&spongos));
    let mut wrong = unwrap::Context::new(bytes);
    wrong.absorb_external(b"other");
    wrong.commit();
    assert_ne!(wrong.take_bytes(Mode::Mask), Ok(payload));
}

#[test]
fn measuring_adds_up_and_overflows() {
    let mut s = sizeof::Context::new();
    assert_eq!(s.add(5), Ok(()));
    assert_eq!(s.add_size(256), Ok(()));
    assert_eq!(s.add_bytes(&[1, 2, 3]), Ok(()));
    assert_eq!(s.size(), 5 + 3 + 2 + 3);
    assert_eq!(s.add(usize::MAX), Err(Error::SizeOverflow));
}

#[test]
fn codes_are_checked() {
    let mut w = wrap::Context::new(0);
    w.put(Mode::Absorb, b"data");
    w.commit();
    w.squeeze(32);
    let (_, bytes) = w.finalize();
    assert_eq!(bytes.len(), 36);
    let mut r = unwrap::Context::new(bytes.clone());
    assert!(r.take(Mode::Absorb, 4).is_ok());
    r.commit();
    assert_eq!(r.take_mac(32), Ok(()));
    let mut bad = bytes;
    bad[0] ^= 1;
    let mut r = unwrap::Context::new(bad);
    assert!(r.take(Mode::Absorb, 4).is_ok());
    r.commit();
    assert_eq!(r.take_mac(32), Err(Error::BadMac));
}

#[test]
fn identifiers_on_the_wire() {
    let id = Identifier::Ed25519([7u8; 32]);
    let bytes = written(|c| id.wrap(c, Mode::Absorb));
    assert_eq!(bytes.len(), 33);
    assert_eq!(bytes[0], 0);
    assert_eq!(id.to_bytes(), bytes);
    let psk = Identifier::PskId(PskId::new([3u8; 16]));
    assert_eq!(written(|c| psk.wrap(c, Mode::Skip))[0], 2);
    assert_eq!(written(|c| psk.wrap(c, Mode::Skip)).len(), 17);
    let did = Identifier::DID([1u8; 32]);
    assert_eq!(written(|c| did.wrap(c, Mode::Skip))[0], 1);
    let mut r = unwrap::Context::new(bytes);
    let back = Identifier::unwrap(&mut r, Mode::Absorb).unwrap();
    assert!(back.same(&id));
    assert!(!back.same(&did));
    let mut r = unwrap::Context::new(vec![3, 0, 0]);
    assert!(matches!(Identifier::unwrap(&mut r, Mode::Skip), Err(Error::BadOneof)));
}

#[test]
fn permissions_read_back() {
    let id = Identifier::Ed25519([9u8; 32]);
    let all = [
        Permissioned::Read(id),
        Permissioned::ReadWrite(id, PermissionDuration::Perpetual),
        Permissioned::ReadWrite(id, PermissionDuration::Unix(1_700_000_000)),
        Permissioned::Admin(id),
    ];
    for p in all {
        let mut size = sizeof::Context::new();
        p.sizeof(&mut size).unwrap();
        let mut w = wrap::Context::new(0);
        p.wrap(&mut w, Mode::Mask);
        let (spongos, bytes) = w.finalize();
        assert_eq!(bytes.len(), size.size());
        let mut r = unwrap::Context::new(bytes);
        let back = Permissioned::<Identifier>::unwrap(&mut r, Mode::Mask).unwrap();
        assert!(back.identifier().same(&id));
        assert_eq!(back.is_readonly(), p.is_readonly());
        match (back, p) {
            (Permissioned::ReadWrite(_, a), Permissioned::ReadWrite(_, b)) => assert_eq!(a, b),
            (Permissioned::Read(_), Permissioned::Read(_)) => {}
            (Permissioned::Admin(_), Permissioned::Admin(_)) => {}
            _ => panic!("another permission came back"),
        }
        assert!(r.finalize().same(&spongos));
    }
    assert!(Permissioned::Read(id).is_readonly());
    assert!(!Permissioned::Admin(id).is_readonly());
    let mut r = unwrap::Context::new(vec![3]);
    assert!(matches!(Permissioned::<Identifier>::unwrap(&mut r, Mode::Skip), Err(Error::BadOneof)));
}

#[test]
fn the_three_ways_to_pass() {
    let mut w = wrap::Context::new(0);
    w.absorb(b"absorbed");
    w.commit();
    w.mask(b"masked..");
    w.skip(b"skipped.");
    let (spongos, bytes) = w.finalize();
    assert_eq!(&bytes[..8], b"absorbed");
    assert_ne!(&bytes[8..16], b"masked..");
    assert_eq!(&bytes[16..], b"skipped.");

    let mut r = unwrap::Context::new(bytes.clone());
    assert_eq!(r.absorb(8), Ok(b"absorbed".to_vec()));
    r.commit();
    assert_eq!(r.mask(8), Ok(b"masked..".to_vec()));
    assert_eq!(r.skip(8), Ok(b"skipped.".to_vec()));
    assert!(r.finalize().same(&spongos));

    let mut other = bytes;
    other[20] ^= 0xff;
    let mut r = unwrap::Context::new(other);
    r.absorb(8).unwrap();
    r.commit();
    r.mask(8).unwrap();
    assert_ne!(r.skip(8), Ok(b"skipped.".to_vec()));
    assert!(r.finalize().same(&spongos));
}

#[test]
fn masked_byte_strings_tell_their_length() {
    let mut w = wrap::Context::new(0);
    w.absorb_external(b"key");
    w.commit();
    w.put_masked(&[5u8; 300]);
    let (spongos, bytes) = w.finalize();
    assert_eq!(&bytes[..3], &[2, 1, 44]);
    assert_eq!(bytes.len(), 303);
    let mut r = unwrap::Context::new(bytes.clone());
    r.absorb_external(b"key");
    r.commit();
    assert_eq!(r.take_masked(), Ok(vec![5u8; 300]));
    assert!(r.finalize().same(&spongos));
    let mut r = unwrap::Context::new(bytes);
    r.absorb_external(b"another key");
    r.commit();
    let garbled = r.take_masked().unwrap();
    assert_eq!(garbled.len(), 300);
    assert_ne!(garbled, vec![5u8; 300]);
}
