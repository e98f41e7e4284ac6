//! The context that writes a message and threads the sponge through it.

use vstd::prelude::*;
use crate::ddml::types::append;
use crate::ddml::types::digits;
use crate::ddml::types::lemma_put_wf;
use crate::ddml::types::Mode;
use crate::ddml::types::put;
use crate::ddml::types::put_bytes;
use crate::ddml::types::put_size;
use crate::ddml::types::put_u8;
use crate::spongos::Sponge;
use crate::spongos::Spongos;

verus! {

/// What a writing context holds, as a value: the sponge and the bytes written
/// so far.
pub struct Wire {
    pub sponge: Sponge,
    pub bytes: Seq<u8>,
}

impl Wire {
    /// The wire after a command that leaves the sponge `r.0` and writes `r.1`.
    pub open spec fn after(self, r: (Sponge, Seq<u8>)) -> Wire {
        Wire { sponge: r.0, bytes: self.bytes + r.1 }
    }

    /// The wire after a command that leaves the sponge `s` and writes nothing.
    pub open spec fn with_sponge(self, s: Sponge) -> Wire {
        Wire { sponge: s, bytes: self.bytes }
    }
}

/// The context that writes.
pub struct Context {
    spongos: Spongos,
    stream: Vec<u8>,
}

impl View for Context {
    type V = Wire;

    closed spec fn view(&self) -> Wire {
        Wire { sponge: self.spongos@, bytes: self.stream@ }
    }
}

impl Context {
    /// The sponge is well formed.
    pub open spec fn wf(&self) -> bool {
        self@.sponge.wf()
    }

    /// A context with a fresh sponge and room for `capacity` bytes.
    pub fn new(capacity: usize) -> (r: Context)
        ensures
            r@ == (Wire { sponge: Sponge::init(), bytes: Seq::empty() }),
            r.wf(),
    {
        Context { spongos: Spongos::init(), stream: Vec::with_capacity(capacity) }
    }

    /// Number of bytes written so far.
    pub fn len(&self) -> (r: usize)
        ensures
            r == self@.bytes.len(),
    {
        self.stream.len()
    }

    /// A copy of the sponge.
    pub fn spongos(&self) -> (r: Spongos)
        ensures
            r@ == self@.sponge,
    {
        self.spongos
    }

    /// Puts the sponge back to `s`. With `spongos`, this brackets a fork: what
    /// is written in between leaves the sponge as it was.
    pub fn restore(&mut self, s: Spongos)
        ensures
            final(self)@ == old(self)@.with_sponge(s@),
    {
        self.spongos = s;
    }

    /// Passes `x` under `mode`.
    pub fn put(&mut self, mode: Mode, x: &[u8])
        requires
            old(self).wf(),
        ensures
            final(self)@ == old(self)@.after(put(old(self)@.sponge, mode, x@)),
            final(self).wf(),
    {
        proof {
            reveal(put);
            lemma_put_wf(self@.sponge, mode, x@);
        }
        match mode {
            Mode::Absorb => {
                self.spongos.absorb(x);
                append(&mut self.stream, x);
            },
            Mode::Mask => {
                let y = self.spongos.encrypt(x);
                append(&mut self.stream, y.as_slice());
            },
            Mode::Skip => {
                append(&mut self.stream, x);
            },
        }
    }

    /// Mixes `x` into the sponge and writes it as it is.
    pub fn absorb(&mut self, x: &[u8])
        requires
            old(self).wf(),
        ensures
            final(self)@ == old(self)@.after(put(old(self)@.sponge, Mode::Absorb, x@)),
            final(self).wf(),
    {
        self.put(Mode::Absorb, x);
    }

    /// Mixes `x` into the sponge and writes it encrypted.
    pub fn mask(&mut self, x: &[u8])
        requires
            old(self).wf(),
        ensures
            final(self)@ == old(self)@.after(put(old(self)@.sponge, Mode::Mask, x@)),
            final(self).wf(),
    {
        self.put(Mode::Mask, x);
    }

    /// Writes `x` as it is and leaves the sponge alone.
    pub fn skip(&mut self, x: &[u8])
        requires
            old(self).wf(),
        ensures
            final(self)@ == old(self)@.after(put(old(self)@.sponge, Mode::Skip, x@)),
            final(self).wf(),
    {
        self.put(Mode::Skip, x);
    }

    /// Passes one byte.
    pub fn put_u8(&mut self, mode: Mode, v: u8)
        requires
            old(self).wf(),
        ensures
            final(self)@ == old(self)@.after(put_u8(old(self)@.sponge, mode, v)),
            final(self).wf(),
    {
        let x: [u8; 1] = [v];
        assert(x@ =~= seq![v]);
        self.put(mode, x.as_slice());
    }

    /// Passes a size.
    pub fn put_size(&mut self, mode: Mode, n: u64)
        requires
            old(self).wf(),
        ensures
            final(self)@ == old(self)@.after(put_size(old(self)@.sponge, mode, n)),
            final(self).wf(),
    {
        let d = digits(n);
        self.put_u8(mode, d.len() as u8);
        self.put(mode, d.as_slice());
        assert(self@.bytes =~= old(self)@.after(put_size(old(self)@.sponge, mode, n)).bytes);
    }

    /// Passes a byte string with its length.
    pub fn put_bytes(&mut self, mode: Mode, x: &[u8])
        requires
            old(self).wf(),
        ensures
            final(self)@ == old(self)@.after(put_bytes(old(self)@.sponge, mode, x@)),
            final(self).wf(),
    {
        self.put_size(mode, x.len() as u64);
        self.put(mode, x);
        assert(self@.bytes =~= old(self)@.after(put_bytes(old(self)@.sponge, mode, x@)).bytes);
    }

    /// Passes a byte string whose length is absorbed and whose bytes are
    /// masked.
    pub fn put_masked(&mut self, x: &[u8])
        requires
            old(self).wf(),
        ensures
            final(self)@ == old(self)@.after(crate::ddml::types::put_masked(old(self)@.sponge, x@)),
            final(self).wf(),
    {
        self.put_size(Mode::Absorb, x.len() as u64);
        self.put(Mode::Mask, x);
        assert(self@.bytes =~= old(self)@.after(
            crate::ddml::types::put_masked(old(self)@.sponge, x@),
        ).bytes);
    }

    /// Mixes `x` into the sponge and writes nothing.
    pub fn absorb_external(&mut self, x: &[u8])
        requires
            old(self).wf(),
        ensures
            final(self)@ == old(self)@.with_sponge(old(self)@.sponge.absorb(x@)),
            final(self).wf(),
    {
        self.spongos.absorb(x);
    }

    /// Commits the sponge.
    pub fn commit(&mut self)
        requires
            old(self).wf(),
        ensures
            final(self)@ == old(self)@.with_sponge(old(self)@.sponge.commit()),
            final(self).wf(),
    {
        self.spongos.commit();
    }

    /// Squeezes `n` bytes and writes them.
    pub fn squeeze(&mut self, n: usize)
        requires
            old(self).wf(),
        ensures
            final(self)@ == old(self)@.after(old(self)@.sponge.squeeze(n as nat)),
            final(self).wf(),
    {
        let y = self.spongos.squeeze(n);
        append(&mut self.stream, y.as_slice());
    }

    /// Squeezes `n` bytes and hands them out; nothing is written.
    pub fn squeeze_external(&mut self, n: usize) -> (y: Vec<u8>)
        requires
            old(self).wf(),
        ensures
            final(self)@ == old(self)@.with_sponge(old(self)@.sponge.squeeze(n as nat).0),
            y@ == old(self)@.sponge.squeeze(n as nat).1,
            y@.len() == n,
            final(self).wf(),
    {
        self.spongos.squeeze(n)
    }

    /// Continues the sponge of an earlier message.
    pub fn join(&mut self, parent: &Spongos)
        requires
            old(self).wf(),
            parent.wf(),
        ensures
            final(self)@ == old(self)@.with_sponge(old(self)@.sponge.join(parent@)),
            final(self).wf(),
    {
        self.spongos.join(parent);
    }

    /// Commits and hands out the sponge and the bytes written.
    pub fn finalize(self) -> (r: (Spongos, Vec<u8>))
        requires
            self.wf(),
        ensures
            r.0@ == self@.sponge.commit(),
            r.0.wf(),
            r.1@ == self@.bytes,
    {
        let mut spongos = self.spongos;
        spongos.commit();
        (spongos, self.stream)
    }
}

} // verus!
