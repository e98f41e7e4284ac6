use streams::spongos::Spongos;

#[test]
fn commit_permutes_with_keccak() {
    let mut s = Spongos::init();
    s.absorb(&[0]);
    s.commit();
    let state = s.state_bytes();
    assert_eq!(&state[..8], &[0xe7, 0xdd, 0xe1, 0x40, 0x79, 0x8f, 0x25, 0xf1]);
    assert_eq!(s.offset(), 0);
}

#[test]
fn commit_of_a_fresh_sponge_changes_nothing() {
    let mut s = Spongos::init();
    s.commit();
    assert!(s.same(&Spongos::init()));
    assert_eq!(s.state_bytes(), [0u8; 200]);
}

#[test]
fn absorbing_a_full_block_permutes() {
    let mut s = Spongos::init();
    s.absorb(&[7u8; 167]);
    assert_eq!(s.offset(), 167);
    s.absorb(&[7u8]);
    assert_eq!(s.offset(), 0);
    let mut t = Spongos::init();
    t.absorb(&[7u8; 168]);
    assert!(s.same(&t));
    assert_ne!(&s.state_bytes()[..4], &[7u8; 4]);
}

#[test]
fn decrypt_undoes_encrypt_and_leaves_the_same_sponge() {
    let plain: Vec<u8> = (0..400u32).map(|i| (i * 7 + 3) as u8).collect();
    let mut a = Spongos::init();
    a.absorb(b"key material");
    a.commit();
    let mut b = a;
    let cipher = a.encrypt(&plain);
    assert_eq!(cipher.len(), plain.len());
    assert_ne!(cipher, plain);
    let back = b.decrypt(&cipher);
    assert_eq!(back, plain);
    assert!(a.same(&b));
}

#[test]
fn squeeze_hands_out_and_clears() {
    let mut s = Spongos::init();
    s.absorb(&[1, 2, 3]);
    s.commit();
    let before = s.state_bytes();
    let y = s.squeeze(5);
    assert_eq!(y, before[..5].to_vec());
    assert_eq!(&s.state_bytes()[..5], &[0u8; 5]);
    assert_eq!(s.offset(), 5);
}

#[test]
fn join_leaves_the_parent_alone_and_depends_on_it() {
    let mut parent = Spongos::init();
    parent.absorb(b"parent");
    let kept = parent;
    let mut other = Spongos::init();
    other.absorb(b"another parent");
    let mut a = Spongos::init();
    a.join(&parent);
    assert!(parent.same(&kept));
    let mut b = Spongos::init();
    b.join(&other);
    assert!(!a.same(&b));
    let mut c = Spongos::init();
    c.join(&kept);
    assert!(a.same(&c));
}

#[test]
fn from_parts_refuses_an_offset_outside_the_outer_part() {
    assert!(Spongos::from_parts([0u8; 200], 167).is_some());
    assert!(Spongos::from_parts([0u8; 200], 168).is_none());
}
