//! Pre-shared keys and the identifiers derived from them.

use vstd::prelude::*;
use crate::ddml::types::array_from;
use crate::spongos::Sponge;
use crate::spongos::Spongos;

verus! {

/// Number of bytes of a pre-shared key.
pub const PSK_SIZE: usize = 32;

/// Number of bytes of the identifier of a pre-shared key.
pub const PSKID_SIZE: usize = 16;

/// The key that a seed stands for: what a fresh sponge squeezes after the
/// seed.
pub open spec fn psk_of_seed(seed: Seq<u8>) -> Seq<u8> {
    Sponge::init().absorb(seed).commit().squeeze(PSK_SIZE as nat).1
}

/// The identifier of a key: what a fresh sponge squeezes after the key.
pub open spec fn pskid_of(psk: Seq<u8>) -> Seq<u8> {
    Sponge::init().absorb(psk).commit().squeeze(PSKID_SIZE as nat).1
}

/// A pre-shared key.
#[derive(Clone, Copy, Debug, PartialEq, Eq, PartialOrd, Ord, Hash)]
pub struct Psk {
    pub bytes: [u8; 32],
}

/// The identifier of a pre-shared key.
#[derive(Clone, Copy, Debug, PartialEq, Eq, PartialOrd, Ord, Hash)]
pub struct PskId {
    pub bytes: [u8; 16],
}

impl View for Psk {
    type V = Seq<u8>;

    open spec fn view(&self) -> Seq<u8> {
        self.bytes@
    }
}

impl View for PskId {
    type V = Seq<u8>;

    open spec fn view(&self) -> Seq<u8> {
        self.bytes@
    }
}

impl Psk {
    /// The key with these bytes.
    pub fn new(bytes: [u8; 32]) -> (r: Psk)
        ensures
            r@ == bytes@,
    {
        Psk { bytes }
    }

    /// The key that `seed` stands for.
    pub fn from_seed(seed: &[u8]) -> (r: Psk)
        ensures
            r@ == psk_of_seed(seed@),
    {
        let mut s = Spongos::init();
        s.absorb(seed);
        s.commit();
        let y = s.squeeze(PSK_SIZE);
        Psk { bytes: array_from::<32>(y.as_slice()) }
    }

    /// The bytes of the key.
    pub fn to_bytes(&self) -> (r: [u8; 32])
        ensures
            r@ == self@,
            r@.len() == PSK_SIZE,
    {
        self.bytes
    }

    /// The identifier of the key.
    pub fn to_pskid(&self) -> (r: PskId)
        ensures
            r@ == pskid_of(self@),
    {
        let mut s = Spongos::init();
        s.absorb(self.bytes.as_slice());
        s.commit();
        let y = s.squeeze(PSKID_SIZE);
        PskId { bytes: array_from::<16>(y.as_slice()) }
    }
}

impl PskId {
    /// The identifier with these bytes.
    pub fn new(bytes: [u8; 16]) -> (r: PskId)
        ensures
            r@ == bytes@,
    {
        PskId { bytes }
    }

    /// The bytes of the identifier.
    pub fn to_bytes(&self) -> (r: [u8; 16])
        ensures
            r@ == self@,
            r@.len() == PSKID_SIZE,
    {
        self.bytes
    }
}

} // verus!
