//! The context that reads a message and threads the sponge through it.

use vstd::prelude::*;
use crate::ddml::types::digits_value;
use crate::ddml::types::lemma_take_wf;
use crate::ddml::types::Mode;
use crate::ddml::types::take;
use crate::ddml::types::take_bytes;
use crate::ddml::types::take_size;
use crate::ddml::types::take_u8;
use crate::ddml::types::Taken;
use crate::error::Error;
use crate::spongos::Sponge;
use crate::spongos::Spongos;

verus! {

/// What a reading context holds, as a value: the sponge and the bytes not yet
/// read.
pub struct Input {
    pub sponge: Sponge,
    pub bytes: Seq<u8>,
}

impl Input {
    /// The input after a command that leaves the sponge `s` and reads nothing.
    pub open spec fn with_sponge(self, s: Sponge) -> Input {
        Input { sponge: s, bytes: self.bytes }
    }

    /// The context stands where reading `spec` leaves it, and `got` is what
    /// `spec` reads.
    pub open spec fn follows<T>(self, spec: Result<Taken<T>, Error>, got: Result<T, Error>) -> bool {
        match spec {
            Ok(t) => got == Ok::<T, Error>(t.value) && self.sponge == t.sponge && self.bytes
                == t.rest,
            Err(e) => got == Err::<T, Error>(e),
        }
    }
}

/// The view of what was read, or the error.
pub open spec fn viewed<V: View>(r: Result<V, Error>) -> Result<V::V, Error> {
    match r {
        Ok(v) => Ok(v@),
        Err(e) => Err(e),
    }
}

/// The context that reads.
pub struct Context {
    spongos: Spongos,
    stream: Vec<u8>,
    cursor: usize,
}

impl View for Context {
    type V = Input;

    closed spec fn view(&self) -> Input {
        Input { sponge: self.spongos@, bytes: self.stream@.skip(self.cursor as int) }
    }
}

impl Context {
    /// The sponge is well formed and the context stands inside its input.
    pub closed spec fn wf(&self) -> bool {
        self.spongos.wf() && self.cursor <= self.stream@.len()
    }

    /// A context with a fresh sponge at the start of `stream`.
    pub fn new(stream: Vec<u8>) -> (r: Context)
        ensures
            r@ == (Input { sponge: Sponge::init(), bytes: stream@ }),
            r.wf(),
    {
        let r = Context { spongos: Spongos::init(), stream, cursor: 0 };
        assert(r.stream@.skip(0) =~= r.stream@);
        r
    }

    /// Number of bytes not yet read.
    pub fn remaining(&self) -> (r: usize)
        requires
            self.wf(),
        ensures
            r == self@.bytes.len(),
    {
        self.stream.len() - self.cursor
    }

    /// A copy of the sponge.
    pub fn spongos(&self) -> (r: Spongos)
        requires
            self.wf(),
        ensures
            r@ == self@.sponge,
            r.wf(),
    {
        self.spongos
    }

    /// Puts the sponge back to `s`. With `spongos`, this brackets a fork.
    pub fn restore(&mut self, s: Spongos)
        requires
            old(self).wf(),
            s.wf(),
        ensures
            final(self)@ == old(self)@.with_sponge(s@),
            final(self).wf(),
    {
        self.spongos = s;
    }

    /// Reads `n` bytes under `mode`.
    pub fn take(&mut self, mode: Mode, n: usize) -> (r: Result<Vec<u8>, Error>)
        requires
            old(self).wf(),
        ensures
            final(self)@.follows(take(old(self)@.sponge, mode, old(self)@.bytes, n as nat), viewed(r)),
            r is Ok ==> r->Ok_0@.len() == n,
            final(self).wf(),
    {
        proof {
            reveal(take);
            lemma_take_wf(self@.sponge, mode, self@.bytes, n as nat);
        }
        if self.stream.len() - self.cursor < n {
            return Err(Error::UnexpectedEnd);
        }
        let raw = vstd::slice::slice_subrange(self.stream.as_slice(), self.cursor, self.cursor + n);
        proof {
            assert(raw@ =~= self@.bytes.take(n as int));
            assert(self.stream@.skip(self.cursor + n) =~= self@.bytes.skip(n as int));
        }
        let value = match mode {
            Mode::Absorb => {
                self.spongos.absorb(raw);
                vstd::slice::slice_to_vec(raw)
            },
            Mode::Mask => self.spongos.decrypt(raw),
            Mode::Skip => vstd::slice::slice_to_vec(raw),
        };
        self.cursor = self.cursor + n;
        Ok(value)
    }

    /// Reads `n` bytes as they are and mixes them into the sponge.
    pub fn absorb(&mut self, n: usize) -> (r: Result<Vec<u8>, Error>)
        requires
            old(self).wf(),
        ensures
            final(self)@.follows(
                take(old(self)@.sponge, Mode::Absorb, old(self)@.bytes, n as nat),
                viewed(r),
            ),
            r is Ok ==> r->Ok_0@.len() == n,
            final(self).wf(),
    {
        self.take(Mode::Absorb, n)
    }

    /// Reads `n` encrypted bytes and mixes into the sponge what they stand
    /// for.
    pub fn mask(&mut self, n: usize) -> (r: Result<Vec<u8>, Error>)
        requires
            old(self).wf(),
        ensures
            final(self)@.follows(
                take(old(self)@.sponge, Mode::Mask, old(self)@.bytes, n as nat),
                viewed(r),
            ),
            r is Ok ==> r->Ok_0@.len() == n,
            final(self).wf(),
    {
        self.take(Mode::Mask, n)
    }

    /// Reads `n` bytes as they are and leaves the sponge alone.
    pub fn skip(&mut self, n: usize) -> (r: Result<Vec<u8>, Error>)
        requires
            old(self).wf(),
        ensures
            final(self)@.follows(
                take(old(self)@.sponge, Mode::Skip, old(self)@.bytes, n as nat),
                viewed(r),
            ),
            r is Ok ==> r->Ok_0@.len() == n,
            final(self).wf(),
    {
        self.take(Mode::Skip, n)
    }

    /// Reads one byte.
    pub fn take_u8(&mut self, mode: Mode) -> (r: Result<u8, Error>)
        requires
            old(self).wf(),
        ensures
            final(self)@.follows(take_u8(old(self)@.sponge, mode, old(self)@.bytes), r),
            final(self).wf(),
    {
        let v = self.take(mode, 1)?;
        Ok(v[0])
    }

    /// Reads a size.
    pub fn take_size(&mut self, mode: Mode) -> (r: Result<u64, Error>)
        requires
            old(self).wf(),
        ensures
            final(self)@.follows(take_size(old(self)@.sponge, mode, old(self)@.bytes), r),
            final(self).wf(),
    {
        let n = self.take_u8(mode)?;
        if n > 8 {
            return Err(Error::SizeOverflow);
        }
        let d = self.take(mode, n as usize)?;
        match digits_value(d.as_slice()) {
            Some(v) => Ok(v),
            None => Err(Error::SizeOverflow),
        }
    }

    /// Reads a byte string with its length.
    pub fn take_bytes(&mut self, mode: Mode) -> (r: Result<Vec<u8>, Error>)
        requires
            old(self).wf(),
        ensures
            final(self)@.follows(take_bytes(old(self)@.sponge, mode, old(self)@.bytes), viewed(r)),
            final(self).wf(),
    {
        let n = self.take_size(mode)?;
        if n > usize::MAX as u64 {
            proof {
                assert(self.stream@.len() == self.stream.len());
                assert(self@.bytes.len() == self.stream@.len() - self.cursor);
                reveal(take);
            }
            return Err(Error::UnexpectedEnd);
        }
        self.take(mode, n as usize)
    }

    /// Reads a byte string whose length is absorbed and whose bytes are
    /// masked.
    pub fn take_masked(&mut self) -> (r: Result<Vec<u8>, Error>)
        requires
            old(self).wf(),
        ensures
            final(self)@.follows(
                crate::ddml::types::take_masked(old(self)@.sponge, old(self)@.bytes),
                viewed(r),
            ),
            final(self).wf(),
    {
        let n = self.take_size(Mode::Absorb)?;
        if n > usize::MAX as u64 {
            proof {
                assert(self.stream@.len() == self.stream.len());
                assert(self@.bytes.len() == self.stream@.len() - self.cursor);
                reveal(take);
            }
            return Err(Error::UnexpectedEnd);
        }
        self.take(Mode::Mask, n as usize)
    }

    /// Mixes `x` into the sponge and reads nothing.
    pub fn absorb_external(&mut self, x: &[u8])
        requires
            old(self).wf(),
        ensures
            final(self)@ == old(self)@.with_sponge(old(self)@.sponge.absorb(x@)),
            final(self).wf(),
    {
        self.spongos.absorb(x);
    }

    /// Commits the sponge.
    pub fn commit(&mut self)
        requires
            old(self).wf(),
        ensures
            final(self)@ == old(self)@.with_sponge(old(self)@.sponge.commit()),
            final(self).wf(),
    {
        self.spongos.commit();
    }

    /// Squeezes `n` bytes and hands them out; nothing is read.
    pub fn squeeze_external(&mut self, n: usize) -> (y: Vec<u8>)
        requires
            old(self).wf(),
        ensures
            final(self)@ == old(self)@.with_sponge(old(self)@.sponge.squeeze(n as nat).0),
            y@ == old(self)@.sponge.squeeze(n as nat).1,
            y@.len() == n,
            final(self).wf(),
    {
        self.spongos.squeeze(n)
    }

    /// Reads a code of `n` bytes and holds it against what the sponge
    /// squeezes.
    pub fn take_mac(&mut self, n: usize) -> (r: Result<(), Error>)
        requires
            old(self).wf(),
        ensures
            final(self)@.follows(crate::ddml::types::take_mac(old(self)@.sponge, old(self)@.bytes, n as nat), r),
            final(self).wf(),
    {
        proof {
            reveal(take);
        }
        let got = self.take(Mode::Skip, n)?;
        let want = self.spongos.squeeze(n);
        if crate::ddml::types::same_bytes(got.as_slice(), want.as_slice()) {
            Ok(())
        } else {
            Err(Error::BadMac)
        }
    }

    /// Continues the sponge of an earlier message.
    pub fn join(&mut self, parent: &Spongos)
        requires
            old(self).wf(),
            parent.wf(),
        ensures
            final(self)@ == old(self)@.with_sponge(old(self)@.sponge.join(parent@)),
            final(self).wf(),
    {
        self.spongos.join(parent);
    }

    /// Commits and hands out the sponge.
    pub fn finalize(self) -> (r: Spongos)
        requires
            self.wf(),
        ensures
            r@ == self@.sponge.commit(),
            r.wf(),
    {
        let mut spongos = self.spongos;
        spongos.commit();
        spongos
    }
}

} // verus!
