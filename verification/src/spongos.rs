//! The sponge state that every message is threaded through.
//!
//! The state is 200 bytes wide. The first 168 bytes are the outer part, which
//! data passes through; the last 32 are the inner part, which only the
//! permutation touches.

use vstd::prelude::*;

verus! {

/// Number of bytes of the outer part of the state.
pub const RATE: usize = 168;

/// Number of bytes of the inner part of the state.
pub const CAPACITY: usize = 32;

/// Number of bytes of the whole state.
pub const WIDTH: usize = 200;

/// Number of 64-bit lanes of the permutation.
pub const LANES: usize = 25;

/// What Keccak-f[1600] makes of 25 lanes.
pub uninterp spec fn keccak_f1600_spec(lanes: Seq<u64>) -> Seq<u64>;

/// Runs `keccak::f1600` on the lanes in place. The permutation is not written
/// out here: the lanes afterwards are named `keccak_f1600_spec` of the lanes
/// before.
#[verifier::external_body]
fn keccak_f1600(lanes: &mut [u64; 25])
    ensures
        final(lanes)@ == keccak_f1600_spec(old(lanes)@),
{
    keccak::f1600(lanes)
}

/// The lane that starts at byte `8 * i`, little-endian.
pub open spec fn lane_of(state: Seq<u8>, i: int) -> u64 {
    (state[8 * i] as u64) | (state[8 * i + 1] as u64) << 8 | (state[8 * i + 2] as u64) << 16 | (
    state[8 * i + 3] as u64) << 24 | (state[8 * i + 4] as u64) << 32 | (state[8 * i + 5] as u64)
        << 40 | (state[8 * i + 6] as u64) << 48 | (state[8 * i + 7] as u64) << 56
}

/// The 25 lanes of a state.
pub open spec fn pack(state: Seq<u8>) -> Seq<u64> {
    Seq::new(LANES as nat, |i: int| lane_of(state, i))
}

/// Byte `k` of a lane, little-endian.
pub open spec fn lane_byte(lane: u64, k: int) -> u8 {
    ((lane >> ((8 * k) as u64)) & 0xff) as u8
}

/// The 200 bytes of 25 lanes.
pub open spec fn unpack(lanes: Seq<u64>) -> Seq<u8> {
    Seq::new(WIDTH as nat, |j: int| lane_byte(lanes[j / 8], j % 8))
}

/// The permutation on the state's bytes.
pub open spec fn permute(state: Seq<u8>) -> Seq<u8> {
    unpack(keccak_f1600_spec(pack(state)))
}

/// A sponge state as a value: the bytes and the offset in the outer part at
/// which the next byte passes.
pub struct Sponge {
    pub state: Seq<u8>,
    pub pos: int,
}

impl Sponge {
    /// The state has its width and the offset lies in the outer part.
    pub open spec fn wf(self) -> bool {
        self.state.len() == WIDTH && 0 <= self.pos < RATE
    }

    /// The state that nothing has passed through.
    pub open spec fn init() -> Sponge {
        Sponge { state: Seq::new(WIDTH as nat, |i: int| 0u8), pos: 0 }
    }

    /// Moves past the byte at the offset; permutes when the outer part is full.
    pub open spec fn advance(self) -> Sponge {
        if self.pos + 1 == RATE {
            Sponge { state: permute(self.state), pos: 0 }
        } else {
            Sponge { state: self.state, pos: self.pos + 1 }
        }
    }

    /// Overwrites the byte at the offset with `b` and moves on.
    pub open spec fn absorb_byte(self, b: u8) -> Sponge {
        Sponge { state: self.state.update(self.pos, b), pos: self.pos }.advance()
    }

    /// Hands out the byte at the offset, clears it and moves on.
    pub open spec fn squeeze_byte(self) -> (Sponge, u8) {
        (self.absorb_byte(0u8), self.state[self.pos])
    }

    /// Absorbs the plain byte; the cipher byte is the plain byte xor the byte
    /// at the offset.
    pub open spec fn encrypt_byte(self, p: u8) -> (Sponge, u8) {
        (self.absorb_byte(p), p ^ self.state[self.pos])
    }

    /// Recovers the plain byte from the cipher byte and absorbs it.
    pub open spec fn decrypt_byte(self, c: u8) -> (Sponge, u8) {
        (self.absorb_byte(c ^ self.state[self.pos]), c ^ self.state[self.pos])
    }

    /// Absorbs the bytes of `x` in order.
    pub open spec fn absorb(self, x: Seq<u8>) -> Sponge
        decreases x.len(),
    {
        if x.len() == 0 {
            self
        } else {
            self.absorb(x.drop_last()).absorb_byte(x.last())
        }
    }

    /// Squeezes `n` bytes.
    pub open spec fn squeeze(self, n: nat) -> (Sponge, Seq<u8>)
        decreases n,
    {
        if n == 0 {
            (self, Seq::empty())
        } else {
            let (s, y) = self.squeeze((n - 1) as nat);
            (s.squeeze_byte().0, y.push(s.squeeze_byte().1))
        }
    }

    /// Encrypts the bytes of `x` in order.
    pub open spec fn encrypt(self, x: Seq<u8>) -> (Sponge, Seq<u8>)
        decreases x.len(),
    {
        if x.len() == 0 {
            (self, Seq::empty())
        } else {
            let (s, y) = self.encrypt(x.drop_last());
            (s.encrypt_byte(x.last()).0, y.push(s.encrypt_byte(x.last()).1))
        }
    }

    /// Decrypts the bytes of `x` in order.
    pub open spec fn decrypt(self, x: Seq<u8>) -> (Sponge, Seq<u8>)
        decreases x.len(),
    {
        if x.len() == 0 {
            (self, Seq::empty())
        } else {
            let (s, y) = self.decrypt(x.drop_last());
            (s.decrypt_byte(x.last()).0, y.push(s.decrypt_byte(x.last()).1))
        }
    }

    /// Permutes unless nothing has passed since the last permutation.
    pub open spec fn commit(self) -> Sponge {
        if self.pos != 0 {
            Sponge { state: permute(self.state), pos: 0 }
        } else {
            self
        }
    }

    /// What a committed state hands to a state that joins it.
    pub open spec fn digest(self) -> Seq<u8> {
        self.commit().squeeze(CAPACITY as nat).1
    }

    /// Continues `parent`: absorbs the digest of `parent` and commits, so
    /// that every byte of the state depends on `parent` before anything is
    /// masked.
    pub open spec fn join(self, parent: Sponge) -> Sponge {
        self.absorb(parent.digest()).commit()
    }
}

/// Absorbing keeps a state well formed.
pub proof fn lemma_absorb_wf(s: Sponge, x: Seq<u8>)
    requires
        s.wf(),
    ensures
        s.absorb(x).wf(),
    decreases x.len(),
{
    if x.len() > 0 {
        lemma_absorb_wf(s, x.drop_last());
    }
}

/// Squeezing keeps a state well formed and hands out `n` bytes.
pub proof fn lemma_squeeze_wf(s: Sponge, n: nat)
    requires
        s.wf(),
    ensures
        s.squeeze(n).0.wf(),
        s.squeeze(n).1.len() == n,
    decreases n,
{
    if n > 0 {
        lemma_squeeze_wf(s, (n - 1) as nat);
    }
}

/// Encrypting keeps a state well formed and keeps the length.
pub proof fn lemma_encrypt_wf(s: Sponge, x: Seq<u8>)
    requires
        s.wf(),
    ensures
        s.encrypt(x).0.wf(),
        s.encrypt(x).1.len() == x.len(),
    decreases x.len(),
{
    if x.len() > 0 {
        lemma_encrypt_wf(s, x.drop_last());
    }
}

/// Decrypting keeps a state well formed and keeps the length.
pub proof fn lemma_decrypt_wf(s: Sponge, x: Seq<u8>)
    requires
        s.wf(),
    ensures
        s.decrypt(x).0.wf(),
        s.decrypt(x).1.len() == x.len(),
    decreases x.len(),
{
    if x.len() > 0 {
        lemma_decrypt_wf(s, x.drop_last());
    }
}

/// Joining keeps a state well formed.
pub proof fn lemma_join_wf(s: Sponge, parent: Sponge)
    requires
        s.wf(),
        parent.wf(),
    ensures
        s.join(parent).wf(),
        parent.digest().len() == CAPACITY,
{
    lemma_squeeze_wf(parent.commit(), CAPACITY as nat);
    lemma_absorb_wf(s, parent.digest());
}

/// Decrypting what was encrypted from the same state gives the plain bytes
/// back and leaves the state that encrypting left.
pub proof fn lemma_decrypt_encrypt(s: Sponge, x: Seq<u8>)
    ensures
        s.decrypt(s.encrypt(x).1) == (s.encrypt(x).0, x),
    decreases x.len(),
{
    if x.len() == 0 {
        assert(s.encrypt(x).1 =~= Seq::<u8>::empty());
        assert(s.decrypt(s.encrypt(x).1).1 =~= x);
    } else {
        let (s1, y1) = s.encrypt(x.drop_last());
        lemma_decrypt_encrypt(s, x.drop_last());
        let p = x.last();
        let k = s1.state[s1.pos];
        let c = p ^ k;
        assert((p ^ k) ^ k == p) by (bit_vector);
        let y = s.encrypt(x).1;
        assert(y == y1.push(c));
        assert(y.drop_last() =~= y1);
        assert(y.last() == c);
        assert(s.decrypt(y).1 =~= x.drop_last().push(p));
        assert(x.drop_last().push(p) =~= x);
    }
}

/// The running sponge state.
#[derive(Clone, Copy, Debug)]
pub struct Spongos {
    state: [u8; 200],
    pos: usize,
}

impl View for Spongos {
    type V = Sponge;

    closed spec fn view(&self) -> Sponge {
        Sponge { state: self.state@, pos: self.pos as int }
    }
}

fn load_lane(state: &[u8; 200], i: usize) -> (r: u64)
    requires
        i < LANES,
    ensures
        r == lane_of(state@, i as int),
{
    let b: usize = 8 * i;
    (state[b] as u64) | (state[b + 1] as u64) << 8 | (state[b + 2] as u64) << 16 | (state[b
        + 3] as u64) << 24 | (state[b + 4] as u64) << 32 | (state[b + 5] as u64) << 40 | (state[b
        + 6] as u64) << 48 | (state[b + 7] as u64) << 56
}

fn store_byte(lane: u64, k: usize) -> (r: u8)
    requires
        k < 8,
    ensures
        r == lane_byte(lane, k as int),
{
    let sh: u64 = (8 * k) as u64;
    let v: u64 = (lane >> sh) & 0xff;
    assert((lane >> sh) & 0xff <= 0xff) by (bit_vector);
    v as u8
}

impl Spongos {
    /// The state is well formed: the offset lies in the outer part.
    pub open spec fn wf(&self) -> bool {
        self@.wf()
    }

    /// A state that nothing has passed through.
    pub fn init() -> (r: Spongos)
        ensures
            r@ == Sponge::init(),
            r.wf(),
    {
        let r = Spongos { state: [0u8; 200], pos: 0 };
        assert(r.state@ =~= Sponge::init().state);
        r
    }

    /// A state with the given bytes and offset, if the offset lies in the
    /// outer part.
    pub fn from_parts(state: [u8; 200], pos: usize) -> (r: Option<Spongos>)
        ensures
            r is Some <==> pos < RATE,
            r is Some ==> r->0@ == (Sponge { state: state@, pos: pos as int }) && r->0.wf(),
    {
        if pos < RATE {
            Some(Spongos { state, pos })
        } else {
            None
        }
    }

    /// The bytes of the state.
    pub fn state_bytes(&self) -> (r: [u8; 200])
        ensures
            r@ == self@.state,
    {
        self.state
    }

    /// The offset in the outer part.
    pub fn offset(&self) -> (r: usize)
        ensures
            r == self@.pos,
    {
        self.pos
    }

    /// Whether two states are the same.
    pub fn same(&self, other: &Spongos) -> (r: bool)
        ensures
            r == (self@ == other@),
    {
        if self.pos != other.pos {
            return false;
        }
        let mut i: usize = 0;
        while i < 200
            invariant
                i <= 200,
                forall|j: int| 0 <= j < i ==> self.state@[j] == other.state@[j],
            decreases 200 - i,
        {
            if self.state[i] != other.state[i] {
                return false;
            }
            i = i + 1;
        }
        assert(self.state@ =~= other.state@);
        true
    }

    fn transform(&mut self)
        ensures
            final(self).pos == old(self).pos,
            final(self).state@ == permute(old(self).state@),
    {
        let mut lanes: [u64; 25] = [0u64; 25];
        let mut i: usize = 0;
        while i < 25
            invariant
                i <= 25,
                forall|j: int| 0 <= j < i ==> lanes@[j] == lane_of(self.state@, j),
            decreases 25 - i,
        {
            lanes[i] = load_lane(&self.state, i);
            i = i + 1;
        }
        assert(lanes@ =~= pack(self.state@));
        keccak_f1600(&mut lanes);
        let ghost after = lanes@;
        let mut j: usize = 0;
        while j < 200
            invariant
                j <= 200,
                lanes@ == after,
                self.pos == old(self).pos,
                forall|m: int| 0 <= m < j ==> self.state@[m] == lane_byte(after[m / 8], m % 8),
            decreases 200 - j,
        {
            self.state[j] = store_byte(lanes[j / 8], j % 8);
            j = j + 1;
        }
        assert(self.state@ =~= unpack(after));
    }

    fn step(&mut self)
        requires
            old(self).pos < RATE,
        ensures
            final(self)@ == old(self)@.advance(),
            final(self).wf(),
    {
        if self.pos + 1 == RATE {
            self.transform();
            self.pos = 0;
        } else {
            self.pos = self.pos + 1;
        }
    }

    /// Absorbs `x`.
    pub fn absorb(&mut self, x: &[u8])
        requires
            old(self).wf(),
        ensures
            final(self)@ == old(self)@.absorb(x@),
            final(self).wf(),
    {
        let mut i: usize = 0;
        while i < x.len()
            invariant
                i <= x.len(),
                self.wf(),
                self@ == old(self)@.absorb(x@.take(i as int)),
            decreases x.len() - i,
        {
            proof {
                assert(x@.take(i + 1).drop_last() =~= x@.take(i as int));
            }
            self.state[self.pos] = x[i];
            self.step();
            i = i + 1;
        }
        assert(x@.take(i as int) =~= x@);
    }

    /// Squeezes `n` bytes.
    pub fn squeeze(&mut self, n: usize) -> (y: Vec<u8>)
        requires
            old(self).wf(),
        ensures
            final(self)@ == old(self)@.squeeze(n as nat).0,
            y@ == old(self)@.squeeze(n as nat).1,
            y@.len() == n,
            final(self).wf(),
    {
        let mut y: Vec<u8> = Vec::with_capacity(n);
        let mut i: usize = 0;
        while i < n
            invariant
                i <= n,
                self.wf(),
                self@ == old(self)@.squeeze(i as nat).0,
                y@ == old(self)@.squeeze(i as nat).1,
                y@.len() == i,
            decreases n - i,
        {
            y.push(self.state[self.pos]);
            self.state[self.pos] = 0;
            self.step();
            i = i + 1;
        }
        y
    }

    /// Encrypts `x` and absorbs it.
    pub fn encrypt(&mut self, x: &[u8]) -> (y: Vec<u8>)
        requires
            old(self).wf(),
        ensures
            final(self)@ == old(self)@.encrypt(x@).0,
            y@ == old(self)@.encrypt(x@).1,
            y@.len() == x@.len(),
            final(self).wf(),
    {
        let mut y: Vec<u8> = Vec::with_capacity(x.len());
        let mut i: usize = 0;
        while i < x.len()
            invariant
                i <= x.len(),
                self.wf(),
                self@ == old(self)@.encrypt(x@.take(i as int)).0,
                y@ == old(self)@.encrypt(x@.take(i as int)).1,
                y@.len() == i,
            decreases x.len() - i,
        {
            proof {
                assert(x@.take(i + 1).drop_last() =~= x@.take(i as int));
            }
            y.push(x[i] ^ self.state[self.pos]);
            self.state[self.pos] = x[i];
            self.step();
            i = i + 1;
        }
        assert(x@.take(i as int) =~= x@);
        y
    }

    /// Decrypts `x` and absorbs what it stood for.
    pub fn decrypt(&mut self, x: &[u8]) -> (y: Vec<u8>)
        requires
            old(self).wf(),
        ensures
            final(self)@ == old(self)@.decrypt(x@).0,
            y@ == old(self)@.decrypt(x@).1,
            y@.len() == x@.len(),
            final(self).wf(),
    {
        let mut y: Vec<u8> = Vec::with_capacity(x.len());
        let mut i: usize = 0;
        while i < x.len()
            invariant
                i <= x.len(),
                self.wf(),
                self@ == old(self)@.decrypt(x@.take(i as int)).0,
                y@ == old(self)@.decrypt(x@.take(i as int)).1,
                y@.len() == i,
            decreases x.len() - i,
        {
            proof {
                assert(x@.take(i + 1).drop_last() =~= x@.take(i as int));
            }
            let p: u8 = x[i] ^ self.state[self.pos];
            y.push(p);
            self.state[self.pos] = p;
            self.step();
            i = i + 1;
        }
        assert(x@.take(i as int) =~= x@);
        y
    }

    /// Commits: what follows is cryptographically after what came before.
    pub fn commit(&mut self)
        requires
            old(self).wf(),
        ensures
            final(self)@ == old(self)@.commit(),
            final(self).wf(),
    {
        if self.pos != 0 {
            self.transform();
            self.pos = 0;
        }
    }

    /// Continues `parent`, which is left as it is.
    pub fn join(&mut self, parent: &Spongos)
        requires
            old(self).wf(),
            parent.wf(),
        ensures
            final(self)@ == old(self)@.join(parent@),
            final(self).wf(),
    {
        let mut joinee: Spongos = *parent;
        joinee.commit();
        let digest = joinee.squeeze(CAPACITY);
        self.absorb(digest.as_slice());
        self.commit();
    }
}

} // verus!
