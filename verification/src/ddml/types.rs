//! How the values of a message stand on the wire, and what passing them does
//! to the sponge.

use vstd::prelude::*;
use crate::error::Error;
use crate::spongos::lemma_absorb_wf;
use crate::spongos::lemma_decrypt_encrypt;
use crate::spongos::lemma_decrypt_wf;
use crate::spongos::lemma_encrypt_wf;
use crate::spongos::Sponge;

verus! {

/// How a value passes the sponge.
#[derive(Clone, Copy, Debug, PartialEq, Eq, Structural)]
pub enum Mode {
    /// The bytes stand on the wire as they are and are mixed into the sponge.
    Absorb,
    /// The bytes are mixed into the sponge and stand on the wire encrypted.
    Mask,
    /// The bytes stand on the wire as they are and do not touch the sponge.
    Skip,
}

/// What reading leaves: the sponge, the value read and the input that follows.
pub struct Taken<T> {
    pub sponge: Sponge,
    pub value: T,
    pub rest: Seq<u8>,
}

/// The sponge and the wire bytes after `x` has passed under `mode`.
#[verifier::opaque]
pub open spec fn put(s: Sponge, mode: Mode, x: Seq<u8>) -> (Sponge, Seq<u8>) {
    match mode {
        Mode::Absorb => (s.absorb(x), x),
        Mode::Mask => s.encrypt(x),
        Mode::Skip => (s, x),
    }
}

/// Reads `n` bytes under `mode`.
#[verifier::opaque]
pub open spec fn take(s: Sponge, mode: Mode, input: Seq<u8>, n: nat) -> Result<
    Taken<Seq<u8>>,
    Error,
> {
    if input.len() < n {
        Err(Error::UnexpectedEnd)
    } else {
        let raw = input.take(n as int);
        let rest = input.skip(n as int);
        match mode {
            Mode::Absorb => Ok(Taken { sponge: s.absorb(raw), value: raw, rest }),
            Mode::Mask => Ok(Taken { sponge: s.decrypt(raw).0, value: s.decrypt(raw).1, rest }),
            Mode::Skip => Ok(Taken { sponge: s, value: raw, rest }),
        }
    }
}

/// Passing keeps the sponge well formed and writes as many bytes as it was
/// given.
pub proof fn lemma_put_wf(s: Sponge, mode: Mode, x: Seq<u8>)
    requires
        s.wf(),
    ensures
        put(s, mode, x).0.wf(),
        put(s, mode, x).1.len() == x.len(),
{
    reveal(put);
    lemma_absorb_wf(s, x);
    lemma_encrypt_wf(s, x);
}

/// Reading keeps the sponge well formed and hands out `n` bytes.
pub proof fn lemma_take_wf(s: Sponge, mode: Mode, input: Seq<u8>, n: nat)
    requires
        s.wf(),
    ensures
        take(s, mode, input, n) is Ok <==> n <= input.len(),
        take(s, mode, input, n) is Ok ==> {
            let t = take(s, mode, input, n)->Ok_0;
            t.sponge.wf() && t.value.len() == n && t.rest == input.skip(n as int)
        },
{
    reveal(take);
    if n <= input.len() {
        lemma_absorb_wf(s, input.take(n as int));
        lemma_decrypt_wf(s, input.take(n as int));
    }
}

/// Reading what was written under the same mode from the same sponge gives
/// the bytes back, with the sponge that writing left.
pub proof fn lemma_take_put(s: Sponge, mode: Mode, x: Seq<u8>, rest: Seq<u8>)
    requires
        s.wf(),
    ensures
        take(s, mode, put(s, mode, x).1 + rest, x.len()) == Ok::<Taken<Seq<u8>>, Error>(
            Taken { sponge: put(s, mode, x).0, value: x, rest },
        ),
{
    reveal(put);
    reveal(take);
    lemma_put_wf(s, mode, x);
    let w = put(s, mode, x).1;
    assert((w + rest).take(x.len() as int) =~= w);
    assert((w + rest).skip(x.len() as int) =~= rest);
    lemma_decrypt_encrypt(s, x);
}

/// The digits of `n` to the base 256, the most significant first, none for 0.
pub open spec fn be_digits(n: nat) -> Seq<u8>
    decreases n,
{
    if n == 0 {
        Seq::empty()
    } else {
        be_digits(n / 256).push((n % 256) as u8)
    }
}

/// The number that digits to the base 256 stand for, the most significant
/// first.
pub open spec fn be_value(d: Seq<u8>) -> nat
    decreases d.len(),
{
    if d.len() == 0 {
        0
    } else {
        be_value(d.drop_last()) * 256 + d.last() as nat
    }
}

/// The digits of a number stand for that number.
pub proof fn lemma_value_of_digits(n: nat)
    ensures
        be_value(be_digits(n)) == n,
    decreases n,
{
    if n != 0 {
        lemma_value_of_digits(n / 256);
        let d = be_digits(n);
        assert(d.drop_last() =~= be_digits(n / 256));
    }
}

/// A number below 2^64 has at most eight digits.
pub proof fn lemma_digits_len(n: nat)
    requires
        n <= u64::MAX,
    ensures
        be_digits(n).len() <= 8,
{
    reveal_with_fuel(be_digits, 10);
}

/// A prefix of digits stands for no more than the whole.
pub proof fn lemma_value_prefix(d: Seq<u8>, i: int)
    requires
        0 <= i <= d.len(),
    ensures
        be_value(d.take(i)) <= be_value(d),
    decreases d.len() - i,
{
    if i < d.len() {
        lemma_value_prefix(d, i + 1);
        assert(d.take(i + 1).drop_last() =~= d.take(i));
    } else {
        assert(d.take(i) =~= d);
    }
}

/// Appends the digits of `n` to `out`.
pub fn push_digits(n: u64, out: &mut Vec<u8>)
    ensures
        final(out)@ == old(out)@ + be_digits(n as nat),
    decreases n,
{
    if n != 0 {
        push_digits(n / 256, out);
        out.push((n % 256) as u8);
        assert(out@ =~= old(out)@ + be_digits(n as nat));
    } else {
        assert(out@ =~= old(out)@ + be_digits(n as nat));
    }
}

/// The digits of `n`.
pub fn digits(n: u64) -> (r: Vec<u8>)
    ensures
        r@ == be_digits(n as nat),
        r@.len() <= 8,
{
    let mut out: Vec<u8> = Vec::new();
    push_digits(n, &mut out);
    proof {
        lemma_digits_len(n as nat);
        assert(out@ =~= be_digits(n as nat));
    }
    out
}

/// The number that the digits stand for, if it is below 2^64.
pub fn digits_value(d: &[u8]) -> (r: Option<u64>)
    ensures
        r is Some <==> be_value(d@) <= u64::MAX,
        r is Some ==> r->0 == be_value(d@),
{
    let mut v: u64 = 0;
    let mut i: usize = 0;
    while i < d.len()
        invariant
            i <= d.len(),
            v == be_value(d@.take(i as int)),
        decreases d.len() - i,
    {
        proof {
            assert(d@.take(i + 1).drop_last() =~= d@.take(i as int));
            lemma_value_prefix(d@, i + 1);
        }
        if v > (u64::MAX - d[i] as u64) / 256 {
            return None;
        }
        v = v * 256 + d[i] as u64;
        i = i + 1;
    }
    assert(d@.take(i as int) =~= d@);
    Some(v)
}

/// The sponge and the wire bytes after one byte has passed.
pub open spec fn put_u8(s: Sponge, mode: Mode, v: u8) -> (Sponge, Seq<u8>) {
    put(s, mode, seq![v])
}

/// Reads one byte.
pub open spec fn take_u8(s: Sponge, mode: Mode, input: Seq<u8>) -> Result<Taken<u8>, Error> {
    match take(s, mode, input, 1) {
        Ok(t) => Ok(Taken { sponge: t.sponge, value: t.value[0], rest: t.rest }),
        Err(e) => Err(e),
    }
}

/// The sponge and the wire bytes after a size has passed: the number of its
/// digits, then the digits.
pub open spec fn put_size(s: Sponge, mode: Mode, n: u64) -> (Sponge, Seq<u8>) {
    let d = be_digits(n as nat);
    let (s1, a) = put(s, mode, seq![d.len() as u8]);
    let (s2, b) = put(s1, mode, d);
    (s2, a + b)
}

/// Reads a size. More than eight digits, or digits that stand for 2^64 or
/// more, are refused.
pub open spec fn take_size(s: Sponge, mode: Mode, input: Seq<u8>) -> Result<Taken<u64>, Error> {
    match take_u8(s, mode, input) {
        Ok(t) => if t.value > 8 {
            Err(Error::SizeOverflow)
        } else {
            match take(t.sponge, mode, t.rest, t.value as nat) {
                Ok(u) => if be_value(u.value) <= u64::MAX {
                    Ok(Taken { sponge: u.sponge, value: be_value(u.value) as u64, rest: u.rest })
                } else {
                    Err(Error::SizeOverflow)
                },
                Err(e) => Err(e),
            }
        },
        Err(e) => Err(e),
    }
}

/// The sponge and the wire bytes after a byte string has passed: its length
/// as a size, then the bytes.
pub open spec fn put_bytes(s: Sponge, mode: Mode, x: Seq<u8>) -> (Sponge, Seq<u8>) {
    let (s1, a) = put_size(s, mode, x.len() as u64);
    let (s2, b) = put(s1, mode, x);
    (s2, a + b)
}

/// Reads a byte string.
pub open spec fn take_bytes(s: Sponge, mode: Mode, input: Seq<u8>) -> Result<
    Taken<Seq<u8>>,
    Error,
> {
    match take_size(s, mode, input) {
        Ok(t) => take(t.sponge, mode, t.rest, t.value as nat),
        Err(e) => Err(e),
    }
}

/// The sponge and the wire bytes after a byte string has passed whose length
/// is absorbed and whose bytes are masked: who cannot unmask the bytes still
/// reads how many there are.
pub open spec fn put_masked(s: Sponge, x: Seq<u8>) -> (Sponge, Seq<u8>) {
    let (s1, a) = put_size(s, Mode::Absorb, x.len() as u64);
    let (s2, b) = put(s1, Mode::Mask, x);
    (s2, a + b)
}

/// Reads a byte string whose length is absorbed and whose bytes are masked.
pub open spec fn take_masked(s: Sponge, input: Seq<u8>) -> Result<Taken<Seq<u8>>, Error> {
    match take_size(s, Mode::Absorb, input) {
        Ok(t) => take(t.sponge, Mode::Mask, t.rest, t.value as nat),
        Err(e) => Err(e),
    }
}

/// Number of bytes that a size takes on the wire.
pub open spec fn size_len(n: u64) -> nat {
    1 + be_digits(n as nat).len()
}

/// Number of bytes that a byte string takes on the wire.
pub open spec fn bytes_len(x: Seq<u8>) -> nat {
    size_len(x.len() as u64) + x.len()
}

/// One byte read back.
pub proof fn lemma_take_put_u8(s: Sponge, mode: Mode, v: u8, rest: Seq<u8>)
    requires
        s.wf(),
    ensures
        take_u8(s, mode, put_u8(s, mode, v).1 + rest) == Ok::<Taken<u8>, Error>(
            Taken { sponge: put_u8(s, mode, v).0, value: v, rest },
        ),
        put_u8(s, mode, v).0.wf(),
        put_u8(s, mode, v).1.len() == 1,
{
    lemma_take_put(s, mode, seq![v], rest);
    lemma_put_wf(s, mode, seq![v]);
}

/// A size read back.
pub proof fn lemma_take_put_size(s: Sponge, mode: Mode, n: u64, rest: Seq<u8>)
    requires
        s.wf(),
    ensures
        take_size(s, mode, put_size(s, mode, n).1 + rest) == Ok::<Taken<u64>, Error>(
            Taken { sponge: put_size(s, mode, n).0, value: n, rest },
        ),
        put_size(s, mode, n).0.wf(),
        put_size(s, mode, n).1.len() == size_len(n),
{
    let d = be_digits(n as nat);
    lemma_digits_len(n as nat);
    lemma_value_of_digits(n as nat);
    let (s1, a) = put(s, mode, seq![d.len() as u8]);
    let (s2, b) = put(s1, mode, d);
    lemma_put_wf(s, mode, seq![d.len() as u8]);
    lemma_put_wf(s1, mode, d);
    assert((a + b) + rest =~= a + (b + rest));
    lemma_take_put(s, mode, seq![d.len() as u8], b + rest);
    lemma_take_put(s1, mode, d, rest);
}

/// A byte string read back.
pub proof fn lemma_take_put_bytes(s: Sponge, mode: Mode, x: Seq<u8>, rest: Seq<u8>)
    requires
        s.wf(),
        x.len() <= u64::MAX,
    ensures
        take_bytes(s, mode, put_bytes(s, mode, x).1 + rest) == Ok::<Taken<Seq<u8>>, Error>(
            Taken { sponge: put_bytes(s, mode, x).0, value: x, rest },
        ),
        put_bytes(s, mode, x).0.wf(),
        put_bytes(s, mode, x).1.len() == bytes_len(x),
{
    let (s1, a) = put_size(s, mode, x.len() as u64);
    let (s2, b) = put(s1, mode, x);
    lemma_take_put_size(s, mode, x.len() as u64, b + rest);
    lemma_put_wf(s1, mode, x);
    assert((a + b) + rest =~= a + (b + rest));
    lemma_take_put(s1, mode, x, rest);
}

/// A byte string whose length is absorbed and whose bytes are masked, read
/// back.
pub proof fn lemma_take_put_masked(s: Sponge, x: Seq<u8>, rest: Seq<u8>)
    requires
        s.wf(),
        x.len() <= u64::MAX,
    ensures
        take_masked(s, put_masked(s, x).1 + rest) == Ok::<Taken<Seq<u8>>, Error>(
            Taken { sponge: put_masked(s, x).0, value: x, rest },
        ),
        put_masked(s, x).0.wf(),
        put_masked(s, x).1.len() == bytes_len(x),
{
    let (s1, a) = put_size(s, Mode::Absorb, x.len() as u64);
    let (s2, b) = put(s1, Mode::Mask, x);
    lemma_take_put_size(s, Mode::Absorb, x.len() as u64, b + rest);
    lemma_put_wf(s1, Mode::Mask, x);
    assert((a + b) + rest =~= a + (b + rest));
    lemma_take_put(s1, Mode::Mask, x, rest);
}

/// The sponge and the wire bytes after a code of `n` bytes has been squeezed
/// and written.
pub open spec fn put_mac(s: Sponge, n: nat) -> (Sponge, Seq<u8>) {
    s.squeeze(n)
}

/// Reads a code of `n` bytes and holds it against what the sponge squeezes.
pub open spec fn take_mac(s: Sponge, input: Seq<u8>, n: nat) -> Result<Taken<()>, Error> {
    match take(s, Mode::Skip, input, n) {
        Ok(t) => if t.value == s.squeeze(n).1 {
            Ok(Taken { sponge: s.squeeze(n).0, value: (), rest: t.rest })
        } else {
            Err(Error::BadMac)
        },
        Err(e) => Err(e),
    }
}

/// A code read back from the sponge that it was squeezed from is accepted.
pub proof fn lemma_take_put_mac(s: Sponge, n: nat, rest: Seq<u8>)
    requires
        s.wf(),
    ensures
        take_mac(s, put_mac(s, n).1 + rest, n) == Ok::<Taken<()>, Error>(
            Taken { sponge: put_mac(s, n).0, value: (), rest },
        ),
        put_mac(s, n).0.wf(),
        put_mac(s, n).1.len() == n,
{
    crate::spongos::lemma_squeeze_wf(s, n);
    reveal(put);
    assert(put(s, Mode::Skip, s.squeeze(n).1) == (s, s.squeeze(n).1));
    lemma_take_put(s, Mode::Skip, s.squeeze(n).1, rest);
}

/// The array that holds the bytes of `x`.
pub fn array_from<const N: usize>(x: &[u8]) -> (r: [u8; N])
    requires
        x@.len() == N,
    ensures
        r@ == x@,
{
    let mut r: [u8; N] = [0u8; N];
    let mut i: usize = 0;
    while i < N
        invariant
            i <= N,
            x@.len() == N,
            forall|j: int| 0 <= j < i ==> r@[j] == x@[j],
        decreases N - i,
    {
        r[i] = x[i];
        i = i + 1;
    }
    assert(r@ =~= x@);
    r
}

/// Whether two byte strings are the same.
pub fn same_bytes(a: &[u8], b: &[u8]) -> (r: bool)
    ensures
        r == (a@ == b@),
{
    if a.len() != b.len() {
        return false;
    }
    let mut i: usize = 0;
    while i < a.len()
        invariant
            i <= a.len(),
            a@.len() == b@.len(),
            forall|j: int| 0 <= j < i ==> a@[j] == b@[j],
        decreases a.len() - i,
    {
        if a[i] != b[i] {
            return false;
        }
        i = i + 1;
    }
    assert(a@ =~= b@);
    true
}

/// Appends `x` to `out`.
pub fn append(out: &mut Vec<u8>, x: &[u8])
    ensures
        final(out)@ == old(out)@ + x@,
{
    let mut i: usize = 0;
    while i < x.len()
        invariant
            i <= x.len(),
            out@ == old(out)@ + x@.take(i as int),
        decreases x.len() - i,
    {
        out.push(x[i]);
        assert(out@ =~= old(out)@ + x@.take(i + 1));
        i = i + 1;
    }
    assert(x@.take(i as int) =~= x@);
}

} // verus!
