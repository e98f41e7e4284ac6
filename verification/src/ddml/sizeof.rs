//! The context that measures a message without writing it.

use vstd::prelude::*;
use crate::ddml::types::bytes_len;
use crate::ddml::types::digits;
use crate::ddml::types::size_len;
use crate::error::Error;

verus! {

/// The context that measures.
pub struct Context {
    size: usize,
}

impl View for Context {
    type V = nat;

    closed spec fn view(&self) -> nat {
        self.size as nat
    }
}

impl Context {
    /// The context stands where `old` stood, `n` bytes further, if that
    /// number fits; else the measuring fails.
    pub open spec fn grown(self, old: Context, n: nat, r: Result<(), Error>) -> bool {
        if old@ + n <= usize::MAX {
            r == Ok::<(), Error>(()) && self@ == old@ + n
        } else {
            r == Err::<(), Error>(Error::SizeOverflow)
        }
    }

    /// A context that has measured nothing.
    pub fn new() -> (r: Context)
        ensures
            r@ == 0,
    {
        Context { size: 0 }
    }

    /// Number of bytes measured.
    pub fn size(&self) -> (r: usize)
        ensures
            r == self@,
    {
        self.size
    }

    /// Measures `n` bytes.
    pub fn add(&mut self, n: usize) -> (r: Result<(), Error>)
        ensures
            final(self).grown(*old(self), n as nat, r),
    {
        match self.size.checked_add(n) {
            Some(s) => {
                self.size = s;
                Ok(())
            },
            None => Err(Error::SizeOverflow),
        }
    }

    /// Measures a size.
    pub fn add_size(&mut self, n: u64) -> (r: Result<(), Error>)
        ensures
            final(self).grown(*old(self), size_len(n), r),
    {
        let d = digits(n);
        self.add(1 + d.len())
    }

    /// Measures a byte string with its length.
    pub fn add_bytes(&mut self, x: &[u8]) -> (r: Result<(), Error>)
        ensures
            final(self).grown(*old(self), bytes_len(x@), r),
    {
        let d = digits(x.len() as u64);
        match (1 + d.len()).checked_add(x.len()) {
            Some(n) => self.add(n),
            None => Err(Error::SizeOverflow),
        }
    }
}

} // verus!
