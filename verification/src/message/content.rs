//! What a content must offer so that a message can carry it.

use vstd::prelude::*;
use crate::ddml::sizeof;
use crate::ddml::wrap;
use crate::error::Error;
use crate::spongos::Sponge;

verus! {

/// A content that can be measured and written.
pub trait ContentWrap {
    /// The content is well formed.
    spec fn wf(&self) -> bool;

    /// Why the content cannot be written, if it cannot.
    spec fn refusal(&self) -> Option<Error>;

    /// Number of bytes that the content takes on the wire.
    spec fn spec_size(&self) -> nat;

    /// The sponge and the wire bytes after the content has passed a context
    /// whose sponge was `s`.
    spec fn spec_wire(&self, s: Sponge) -> (Sponge, Seq<u8>);

    /// Measures the content.
    fn sizeof(&self, ctx: &mut sizeof::Context) -> (r: Result<(), Error>)
        requires
            self.wf(),
        ensures
            self.refusal() is None ==> final(ctx).grown(*old(ctx), self.spec_size(), r),
            self.refusal() is Some ==> r == Err::<(), Error>(self.refusal()->0),
    ;

    /// Writes the content. What is written has the length that `sizeof`
    /// measures.
    fn wrap(&self, ctx: &mut wrap::Context) -> (r: Result<(), Error>)
        requires
            self.wf(),
            old(ctx).wf(),
        ensures
            final(ctx).wf(),
            self.refusal() is None ==> r == Ok::<(), Error>(()) && final(ctx)@ == old(ctx)@.after(
                self.spec_wire(old(ctx)@.sponge),
            ) && self.spec_wire(old(ctx)@.sponge).1.len() == self.spec_size(),
            self.refusal() is Some ==> r == Err::<(), Error>(self.refusal()->0),
    ;
}

} // verus!
