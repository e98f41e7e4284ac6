//! Where a message lives: the address of the stream and the identifier of the
//! message in it.

use vstd::prelude::*;
use crate::ddml::types::array_from;
use crate::ddml::types::digits;
use crate::ddml::types::Mode;
use crate::ddml::types::put_size;
use crate::ddml::types::same_bytes;
use crate::id::identifier::Identifier;
use crate::spongos::Sponge;
use crate::spongos::Spongos;

verus! {

/// Number of bytes of the address of a stream.
pub const APPADDR_SIZE: usize = 40;

/// Number of bytes of the identifier of a message.
pub const MSGID_SIZE: usize = 12;

/// The address of a stream: what a fresh sponge squeezes after the author's
/// identifier and the index of the stream.
pub open spec fn appaddr_of(author: Seq<u8>, index: u64) -> Seq<u8> {
    put_size(Sponge::init().absorb(author), Mode::Absorb, index).0.commit().squeeze(
        APPADDR_SIZE as nat,
    ).1
}

/// The identifier of a message: what a fresh sponge squeezes after the
/// stream's address, the publisher's identifier and the sequence number.
pub open spec fn msgid_of(base: Seq<u8>, publisher: Seq<u8>, sequence: u64) -> Seq<u8> {
    put_size(
        Sponge::init().absorb(base).absorb(publisher),
        Mode::Absorb,
        sequence,
    ).0.commit().squeeze(MSGID_SIZE as nat).1
}

/// The address of a stream.
#[derive(Clone, Copy, Debug, PartialEq, Eq, PartialOrd, Ord, Hash)]
pub struct AppAddr {
    pub bytes: [u8; 40],
}

/// The identifier of a message in its stream.
#[derive(Clone, Copy, Debug, PartialEq, Eq, PartialOrd, Ord, Hash)]
pub struct MsgId {
    pub bytes: [u8; 12],
}

/// The address of a message: the stream and the message in it.
#[derive(Clone, Copy, Debug, PartialEq, Eq, PartialOrd, Ord, Hash)]
pub struct Address {
    pub base: AppAddr,
    pub relative: MsgId,
}

impl View for AppAddr {
    type V = Seq<u8>;

    open spec fn view(&self) -> Seq<u8> {
        self.bytes@
    }
}

impl View for MsgId {
    type V = Seq<u8>;

    open spec fn view(&self) -> Seq<u8> {
        self.bytes@
    }
}

impl View for Address {
    type V = Seq<u8>;

    open spec fn view(&self) -> Seq<u8> {
        self.base@ + self.relative@
    }
}

fn absorb_size(s: &mut Spongos, n: u64)
    requires
        old(s).wf(),
    ensures
        final(s)@ == put_size(old(s)@, Mode::Absorb, n).0,
        final(s).wf(),
{
    let d = digits(n);
    let len: [u8; 1] = [d.len() as u8];
    assert(len@ =~= seq![d.len() as u8]);
    proof {
        reveal(crate::ddml::types::put);
    }
    s.absorb(len.as_slice());
    s.absorb(d.as_slice());
}

impl AppAddr {
    /// The address with these bytes.
    pub fn new(bytes: [u8; 40]) -> (r: AppAddr)
        ensures
            r@ == bytes@,
    {
        AppAddr { bytes }
    }

    /// The address of the stream of `author` with this index.
    pub fn gen(author: Identifier, index: usize) -> (r: AppAddr)
        ensures
            r@ == appaddr_of(author@, index as u64),
    {
        let mut s = Spongos::init();
        let id = author.to_bytes();
        s.absorb(id.as_slice());
        absorb_size(&mut s, index as u64);
        s.commit();
        let y = s.squeeze(APPADDR_SIZE);
        AppAddr { bytes: array_from::<40>(y.as_slice()) }
    }

    /// Whether two addresses are the same.
    pub fn same(&self, other: &AppAddr) -> (r: bool)
        ensures
            r == (self@ == other@),
    {
        same_bytes(self.bytes.as_slice(), other.bytes.as_slice())
    }
}

impl MsgId {
    /// The identifier with these bytes.
    pub fn new(bytes: [u8; 12]) -> (r: MsgId)
        ensures
            r@ == bytes@,
    {
        MsgId { bytes }
    }

    /// The identifier of the message of `publisher` with this sequence number
    /// in the stream at `base`.
    pub fn gen(base: AppAddr, publisher: Identifier, sequence: u64) -> (r: MsgId)
        ensures
            r@ == msgid_of(base@, publisher@, sequence),
    {
        let mut s = Spongos::init();
        s.absorb(base.bytes.as_slice());
        let id = publisher.to_bytes();
        s.absorb(id.as_slice());
        absorb_size(&mut s, sequence);
        s.commit();
        let y = s.squeeze(MSGID_SIZE);
        MsgId { bytes: array_from::<12>(y.as_slice()) }
    }

    /// The bytes of the identifier.
    pub fn to_vec(&self) -> (r: Vec<u8>)
        ensures
            r@ == self@,
            r@.len() == MSGID_SIZE,
    {
        vstd::slice::slice_to_vec(self.bytes.as_slice())
    }

    /// Whether two identifiers are the same.
    pub fn same(&self, other: &MsgId) -> (r: bool)
        ensures
            r == (self@ == other@),
    {
        same_bytes(self.bytes.as_slice(), other.bytes.as_slice())
    }
}

impl Address {
    /// The address of the message `relative` in the stream at `base`.
    pub fn new(base: AppAddr, relative: MsgId) -> (r: Address)
        ensures
            r.base == base,
            r.relative == relative,
    {
        Address { base, relative }
    }

    /// The address of the stream.
    pub fn base(&self) -> (r: AppAddr)
        ensures
            r == self.base,
    {
        self.base
    }

    /// The identifier of the message in its stream.
    pub fn relative(&self) -> (r: MsgId)
        ensures
            r == self.relative,
    {
        self.relative
    }

    /// Whether two addresses are the same.
    pub fn same(&self, other: &Address) -> (r: bool)
        ensures
            r == (self.base@ == other.base@ && self.relative@ == other.relative@),
    {
        self.base.same(&other.base) && self.relative.same(&other.relative)
    }
}

} // verus!
