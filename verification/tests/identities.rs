use streams::address::AppAddr;
use streams::address::MsgId;
use streams::ddml::sizeof;
use streams::ddml::types::Mode;
use streams::ddml::unwrap;
use streams::ddml::wrap;
use streams::ddml::x25519::seal;
use streams::ddml::x25519::unseal;
use streams::error::Error;
use streams::id::identifier::check_signature;
use streams::id::identifier::Identifier;
use streams::id::identity::Keys;
use streams::id::identity::UserIdentity;
use streams::id::psk::Psk;
use streams::id::psk::PskId;

fn keys(u: &UserIdentity) -> ([u8; 32], [u8; 32], [u8; 32], [u8; 32]) {
    match &u.keys {
        Keys::Keypair(kp) => (kp.sig.0, kp.sig.1, kp.key_exchange.0, kp.key_exchange.1),
        Keys::Psk(_) => panic!("no key pair"),
    }
}

#[test]
fn identity_from_a_seed() {
    let a = UserIdentity::new("seed");
    let b = UserIdentity::new("seed");
    let c = UserIdentity::new("another seed");
    assert_eq!(keys(&a), keys(&b));
    assert_ne!(keys(&a).0, keys(&c).0);
    assert!(a.to_identifier().same(&b.to_identifier()));
    assert!(!a.to_identifier().same(&c.to_identifier()));
    let (sig_secret, sig_public, ke_secret, ke_public) = keys(&a);
    assert_ne!(sig_secret, sig_public);
    assert_ne!(sig_secret, ke_secret);
    assert_ne!(ke_secret, ke_public);
    assert!(a.to_identifier().same(&Identifier::Ed25519(sig_public)));
    assert_eq!(a.get_sig_sk(), Ok(sig_secret));
    assert_eq!(a.get_ke_kp(), Ok((ke_secret, ke_public)));
    assert_eq!(keys(&UserIdentity::from_secret_key(sig_secret)), keys(&a));
}

#[test]
fn known_ed25519_public_key() {
    let secret = [
        0x9d, 0x61, 0xb1, 0x9d, 0xef, 0xfd, 0x5a, 0x60, 0xba, 0x84, 0x4a, 0xf4, 0x92, 0xec, 0x2c,
        0xc4, 0x44, 0x49, 0xc5, 0x69, 0x7b, 0x32, 0x69, 0x19, 0x70, 0x3b, 0xac, 0x03, 0x1c, 0xae,
        0x7f, 0x60,
    ];
    let public = [
        0xd7, 0x5a, 0x98, 0x01, 0x82, 0xb1, 0x0a, 0xb7, 0xd5, 0x4b, 0xfe, 0xd3, 0xc9, 0x64, 0x07,
        0x3a, 0x0e, 0xe1, 0x72, 0xf3, 0xda, 0xa6, 0x23, 0x25, 0xaf, 0x02, 0x1a, 0x68, 0xf7, 0x07,
        0x51, 0x1a,
    ];
    let user = UserIdentity::from_secret_key(secret);
    assert_eq!(keys(&user).1, public);
}

#[test]
fn exchange_key_of_an_identifier_is_that_of_the_identity() {
    let a = UserIdentity::new("seed");
    assert_eq!(a.to_identifier()._ke_pk(), Some(keys(&a).3));
    assert_eq!(Identifier::PskId(PskId::new([1u8; 16]))._ke_pk(), None);
    assert_eq!(Identifier::DID([1u8; 32])._ke_pk(), None);
}

#[test]
fn identity_of_a_pre_shared_key_neither_signs_nor_exchanges() {
    let psk = Psk::from_seed(b"seed");
    let user = UserIdentity::new_from_psk(psk.to_pskid(), psk);
    assert!(user.to_identifier().same(&Identifier::PskId(psk.to_pskid())));
    assert_eq!(user.get_ke_kp(), Err(Error::NoSignatureKeyPair));
    assert_eq!(user.get_sig_sk(), Err(Error::NoSignatureKeyPair));
    let mut size = sizeof::Context::new();
    assert_eq!(user.sizeof(&mut size), Err(Error::NoSignatureKeyPair));
    assert_eq!(size.size(), 0);
    let mut w = wrap::Context::new(0);
    assert_eq!(user.sign(&mut w), Err(Error::NoSignatureKeyPair));
    assert_eq!(w.len(), 0);
}

#[test]
fn pre_shared_keys() {
    let a = Psk::from_seed(b"seed");
    let b = Psk::from_seed(b"seed");
    let c = Psk::from_seed(b"seee");
    assert_eq!(a.to_bytes(), b.to_bytes());
    assert_ne!(a.to_bytes(), c.to_bytes());
    assert_eq!(a.to_pskid().to_bytes(), b.to_pskid().to_bytes());
    assert_ne!(a.to_pskid().to_bytes(), c.to_pskid().to_bytes());
    assert_ne!(&a.to_bytes()[..16], &a.to_pskid().to_bytes()[..]);
    assert_eq!(Psk::new([4u8; 32]).to_bytes(), [4u8; 32]);
}

fn signed(user: &UserIdentity, data: &[u8]) -> Vec<u8> {
    let mut w = wrap::Context::new(0);
    w.put(Mode::Absorb, data);
    assert_eq!(user.sign(&mut w), Ok(()));
    w.finalize().1
}

fn verified(id: &Identifier, bytes: Vec<u8>, n: usize) -> Result<(), Error> {
    let mut r = unwrap::Context::new(bytes);
    r.take(Mode::Absorb, n).unwrap();
    id.verify(&mut r)
}

#[test]
fn signatures() {
    let user = UserIdentity::new("signer");
    let other = UserIdentity::new("another");
    let bytes = signed(&user, b"data");
    assert_eq!(bytes.len(), 4 + 1 + 64);
    assert_eq!(bytes[4], 0);
    let mut size = sizeof::Context::new();
    user.sizeof(&mut size).unwrap();
    assert_eq!(size.size(), 65);
    assert_eq!(signed(&user, b"data"), bytes);
    assert_ne!(signed(&user, b"dat0")[5..], bytes[5..]);

    assert_eq!(verified(&user.to_identifier(), bytes.clone(), 4), Ok(()));
    let mut r = unwrap::Context::new(bytes.clone());
    r.take(Mode::Absorb, 4).unwrap();
    assert_eq!(user.verify(&mut r), Ok(()));
    assert_eq!(verified(&other.to_identifier(), bytes.clone(), 4), Err(Error::BadSignature));

    let mut changed = bytes.clone();
    changed[0] ^= 1;
    assert_eq!(verified(&user.to_identifier(), changed, 4), Err(Error::BadSignature));
    let mut forged = bytes.clone();
    forged[20] ^= 1;
    assert_eq!(verified(&user.to_identifier(), forged, 4), Err(Error::BadSignature));

    let psk = Identifier::PskId(PskId::new([0u8; 16]));
    assert_eq!(verified(&psk, bytes.clone(), 4), Err(Error::BadIdentifier));
    let did = Identifier::DID([0u8; 32]);
    assert_eq!(verified(&did, bytes.clone(), 4), Err(Error::BadIdentifier));
    let mut by_did = bytes.clone();
    by_did[4] = 1;
    assert_eq!(verified(&user.to_identifier(), by_did, 4), Err(Error::NotSupported));
    let mut unknown = bytes.clone();
    unknown[4] = 2;
    assert_eq!(verified(&user.to_identifier(), unknown, 4), Err(Error::BadOneof));
    assert_eq!(verified(&user.to_identifier(), bytes[..60].to_vec(), 4), Err(Error::UnexpectedEnd));

    let no_point = Identifier::Ed25519([
        0xec, 0xff, 0xff, 0xff, 0xff, 0xff, 0xff, 0xff, 0xff, 0xff, 0xff, 0xff, 0xff, 0xff, 0xff,
        0xff, 0xff, 0xff, 0xff, 0xff, 0xff, 0xff, 0xff, 0xff, 0xff, 0xff, 0xff, 0xff, 0xff, 0xff,
        0xff, 0xff,
    ]);
    assert!(verified(&no_point, bytes, 4).is_err());
}

#[test]
fn verdicts() {
    assert_eq!(check_signature(Some(true)), Ok(()));
    assert_eq!(check_signature(Some(false)), Err(Error::BadSignature));
    assert_eq!(check_signature(None), Err(Error::BadIdentifier));
}

#[test]
fn sealed_keys() {
    let recipient = UserIdentity::new("recipient");
    let stranger = UserIdentity::new("stranger");
    let ephemeral = [0x42u8; 32];
    let key = [0x17u8; 32];
    let mut w = wrap::Context::new(0);
    seal(&mut w, &ephemeral, &keys(&recipient).3, &key);
    let (spongos, bytes) = w.finalize();
    assert_eq!(bytes.len(), 64);
    assert_ne!(&bytes[..32], &ephemeral[..]);
    assert_ne!(&bytes[32..], &key[..]);

    let mut r = unwrap::Context::new(bytes.clone());
    assert_eq!(unseal(&mut r, &keys(&recipient).2), Ok(key));
    assert!(r.finalize().same(&spongos));

    let mut r = unwrap::Context::new(bytes.clone());
    let got = unseal(&mut r, &keys(&stranger).2).unwrap();
    assert_ne!(got, key);
    assert!(!r.finalize().same(&spongos));

    let mut r = unwrap::Context::new(bytes[..63].to_vec());
    assert_eq!(unseal(&mut r, &keys(&recipient).2), Err(Error::UnexpectedEnd));
}

#[test]
fn identities_with_their_keys_read_back() {
    let psk = Psk::from_seed(b"seed");
    for user in [UserIdentity::new("seed"), UserIdentity::new_from_psk(psk.to_pskid(), psk)] {
        let mut size = sizeof::Context::new();
        user.sizeof_secrets(&mut size).unwrap();
        let mut w = wrap::Context::new(0);
        w.absorb_external(b"password key");
        user.wrap_secrets(&mut w, Mode::Mask);
        let (spongos, bytes) = w.finalize();
        assert_eq!(bytes.len(), size.size());
        let mut r = unwrap::Context::new(bytes);
        r.absorb_external(b"password key");
        let back = UserIdentity::unwrap_secrets(&mut r, Mode::Mask).unwrap();
        assert!(back.to_identifier().same(&user.to_identifier()));
        assert_eq!(back.key_bytes(), user.key_bytes());
        assert!(r.finalize().same(&spongos));
    }
}

#[test]
fn addresses() {
    let a = UserIdentity::new("a").to_identifier();
    let b = UserIdentity::new("b").to_identifier();
    let base = AppAddr::gen(a, 0);
    assert!(base.same(&AppAddr::gen(a, 0)));
    assert!(!base.same(&AppAddr::gen(a, 1)));
    assert!(!base.same(&AppAddr::gen(b, 0)));
    let id = MsgId::gen(base, a, 1);
    assert!(id.same(&MsgId::gen(base, a, 1)));
    assert!(!id.same(&MsgId::gen(base, a, 2)));
    assert!(!id.same(&MsgId::gen(base, b, 1)));
    assert!(!id.same(&MsgId::gen(AppAddr::gen(a, 1), a, 1)));
    assert_eq!(id.to_vec().len(), 12);
    assert_ne!(base.bytes, [0u8; 40]);
}

#[test]
fn order_of_identifiers_is_that_of_their_bytes() {
    let all = [
        Identifier::PskId(PskId::new([0u8; 16])),
        Identifier::Ed25519([9u8; 32]),
        Identifier::DID([0u8; 32]),
        Identifier::Ed25519([1u8; 32]),
        Identifier::DID([200u8; 32]),
        Identifier::PskId(PskId::new([7u8; 16])),
    ];
    let mut by_value = all.to_vec();
    by_value.sort();
    let mut by_bytes = all.to_vec();
    by_bytes.sort_by_key(|i| i.to_bytes());
    assert_eq!(by_value, by_bytes);
    assert_eq!(by_value[0], Identifier::Ed25519([1u8; 32]));
    assert_eq!(by_value[5], Identifier::PskId(PskId::new([7u8; 16])));
    for a in all {
        for b in all {
            assert_eq!(a == b, a.same(&b));
            assert_eq!(a <= b, streams::order::lex_le_exec(&a.to_bytes(), &b.to_bytes()));
        }
    }
}

#[test]
fn capabilities_of_an_identity() {
    let user = UserIdentity::new("seed");
    assert_eq!(user._ke_sk(), Some(keys(&user).2));
    let psk = Psk::from_seed(b"seed");
    assert_eq!(UserIdentity::new_from_psk(psk.to_pskid(), psk)._ke_sk(), None);
    let mut a = sizeof::Context::new();
    let mut b = sizeof::Context::new();
    assert_eq!(user.sign_sizeof(&mut a), user.sizeof(&mut b));
    assert_eq!(a.size(), b.size());
    let zero = UserIdentity::default();
    assert_eq!(keys(&zero).0, [0u8; 32]);
    assert_eq!(keys(&zero), keys(&UserIdentity::from_secret_key([0u8; 32])));
}
