//! The notice of a subscriber that leaves: bound to an earlier message, it
//! holds the subscriber's identifier, signed by the subscriber.

use vstd::prelude::*;
use crate::ddml::sizeof;
use crate::ddml::types::Mode;
use crate::ddml::types::Taken;
use crate::ddml::unwrap;
use crate::ddml::wrap;
use crate::error::Error;
use crate::id::identifier::default_identifier;
use crate::id::identifier::Identifier;
use crate::id::identifier::lemma_identifier;
use crate::id::identifier::lemma_take_put_identifier;
use crate::id::identifier::put_identifier;
use crate::id::identifier::TAG_ED25519;
use crate::id::identifier::take_identifier;
use crate::id::identifier::take_signature;
use crate::id::identity::Keys;
use crate::id::identity::lemma_take_put_signature;
use crate::id::identity::put_signature;
use crate::id::identity::signature_len;
use crate::id::identity::signs;
use crate::id::identity::UserIdentity;
use crate::message::content::ContentWrap;
use crate::spongos::lemma_join_wf;
use crate::spongos::Sponge;
use crate::spongos::Spongos;

verus! {

/// The sponge at which the subscriber signs, and the wire bytes before the
/// signature: the sponge of the linked message joined, the identifier masked,
/// and a commit.
pub open spec fn put_unsubscribed(s: Sponge, initial: Sponge, id: Seq<u8>) -> (Sponge, Seq<u8>) {
    let (s1, x) = put_identifier(s.join(initial), Mode::Mask, id);
    (s1.commit(), x)
}

/// The sponge and the wire bytes after an unsubscription has passed.
pub open spec fn put_unsubscription(s: Sponge, initial: Sponge, id: Seq<u8>, secret: Seq<u8>) -> (
    Sponge,
    Seq<u8>,
) {
    let (s1, x) = put_unsubscribed(s, initial, id);
    let (s2, y) = put_signature(s1, secret);
    (s2, x + y)
}

/// Reads an unsubscription linked to the message whose sponge is `initial`
/// and checks the subscriber's signature.
pub open spec fn take_unsubscription(s: Sponge, initial: Sponge, input: Seq<u8>) -> Result<
    Taken<Seq<u8>>,
    Error,
> {
    match take_identifier(s.join(initial), Mode::Mask, input) {
        Ok(t) => match take_signature(t.sponge.commit(), t.value, t.rest) {
            Ok(u) => Ok(Taken { sponge: u.sponge, value: t.value, rest: u.rest }),
            Err(e) => Err(e),
        },
        Err(e) => Err(e),
    }
}

/// Number of bytes that an unsubscription takes on the wire.
pub open spec fn unsubscription_len(id: Seq<u8>) -> nat {
    id.len() + signature_len()
}

/// An unsubscription whose signature verifies is read back as it was
/// written, against the same linked sponge, and reading leaves the sponge
/// that writing left.
pub proof fn lemma_take_put_unsubscription(
    s: Sponge,
    initial: Sponge,
    secret: Seq<u8>,
    public: Seq<u8>,
    rest: Seq<u8>,
)
    requires
        s.wf(),
        initial.wf(),
        public.len() == 32,
        signs(put_unsubscribed(s, initial, seq![TAG_ED25519] + public).0, secret, public),
    ensures
        take_unsubscription(
            s,
            initial,
            put_unsubscription(s, initial, seq![TAG_ED25519] + public, secret).1 + rest,
        ) == Ok::<Taken<Seq<u8>>, Error>(
            Taken {
                sponge: put_unsubscription(s, initial, seq![TAG_ED25519] + public, secret).0,
                value: seq![TAG_ED25519] + public,
                rest,
            },
        ),
        put_unsubscription(s, initial, seq![TAG_ED25519] + public, secret).1.len()
            == unsubscription_len(seq![TAG_ED25519] + public),
{
    let id = seq![TAG_ED25519] + public;
    lemma_join_wf(s, initial);
    let (s1, x) = put_identifier(s.join(initial), Mode::Mask, id);
    let (s2, y) = put_signature(s1.commit(), secret);
    lemma_take_put_identifier(s.join(initial), Mode::Mask, id, y + rest);
    lemma_take_put_signature(s1.commit(), secret, public, rest);
    assert((x + y) + rest =~= x + (y + rest));
}

/// The unsubscription that a subscriber writes.
#[derive(Clone, Copy, Debug)]
pub struct Wrap {
    initial_state: Spongos,
    subscriber_id: UserIdentity,
}

impl Wrap {
    /// The sponge of the linked message.
    pub closed spec fn spec_initial_state(&self) -> Spongos {
        self.initial_state
    }

    /// The subscriber.
    pub closed spec fn spec_subscriber_id(&self) -> UserIdentity {
        self.subscriber_id
    }

    /// The unsubscription of `subscriber_id`, linked to the message whose
    /// sponge is `initial_state`.
    pub fn new(initial_state: &Spongos, subscriber_id: &UserIdentity) -> (r: Wrap)
        ensures
            r.spec_initial_state() == *initial_state,
            r.spec_subscriber_id() == *subscriber_id,
    {
        Wrap { initial_state: *initial_state, subscriber_id: *subscriber_id }
    }
}

impl ContentWrap for Wrap {
    open spec fn wf(&self) -> bool {
        self.spec_initial_state().wf()
    }

    open spec fn refusal(&self) -> Option<Error> {
        match self.spec_subscriber_id().keys {
            Keys::Keypair(_) => None,
            Keys::Psk(_) => Some(Error::NoSignatureKeyPair),
        }
    }

    open spec fn spec_size(&self) -> nat {
        unsubscription_len(self.spec_subscriber_id().id@)
    }

    open spec fn spec_wire(&self, s: Sponge) -> (Sponge, Seq<u8>) {
        match self.spec_subscriber_id().keys {
            Keys::Keypair(kp) => put_unsubscription(
                s,
                self.spec_initial_state()@,
                self.spec_subscriber_id().id@,
                kp.sig.0@,
            ),
            Keys::Psk(_) => (s, Seq::empty()),
        }
    }

    fn sizeof(&self, ctx: &mut sizeof::Context) -> (r: Result<(), Error>) {
        match &self.subscriber_id.keys {
            Keys::Keypair(_) => {
                self.subscriber_id.id.sizeof(ctx)?;
                self.subscriber_id.sizeof(ctx)
            },
            Keys::Psk(_) => Err(Error::NoSignatureKeyPair),
        }
    }

    fn wrap(&self, ctx: &mut wrap::Context) -> (r: Result<(), Error>) {
        match &self.subscriber_id.keys {
            Keys::Keypair(kp) => {
                ctx.join(&self.initial_state);
                proof {
                    lemma_identifier(self.subscriber_id.id);
                    lemma_take_put_identifier(
                        ctx@.sponge,
                        Mode::Mask,
                        self.subscriber_id.id@,
                        Seq::empty(),
                    );
                }
                self.subscriber_id.id.wrap(ctx, Mode::Mask);
                ctx.commit();
                self.subscriber_id.sign(ctx)?;
                proof {
                    assert(ctx@.bytes =~= old(ctx)@.after(self.spec_wire(old(ctx)@.sponge)).bytes);
                }
                Ok(())
            },
            Keys::Psk(_) => Err(Error::NoSignatureKeyPair),
        }
    }
}

/// The unsubscription that the author reads.
#[derive(Clone, Copy, Debug)]
pub struct Unwrap {
    initial_state: Spongos,
    subscriber_id: Identifier,
}

impl Unwrap {
    /// The sponge of the linked message.
    pub closed spec fn spec_initial_state(&self) -> Spongos {
        self.initial_state
    }

    /// The subscriber's identifier.
    pub closed spec fn spec_subscriber_identifier(&self) -> Identifier {
        self.subscriber_id
    }

    /// An unsubscription that has not been read yet, linked to the message
    /// whose sponge is `initial_state`; it holds the default identifier.
    pub fn new(initial_state: &Spongos) -> (r: Unwrap)
        ensures
            r.spec_initial_state() == *initial_state,
            r.spec_subscriber_identifier()@ == default_identifier(),
            r.spec_subscriber_identifier() is Ed25519,
    {
        Unwrap { initial_state: *initial_state, subscriber_id: Identifier::default() }
    }

    /// The identifier of the subscriber that leaves.
    pub fn subscriber_identifier(&self) -> (r: Identifier)
        ensures
            r == self.spec_subscriber_identifier(),
    {
        self.subscriber_id
    }

    /// Reads the unsubscription and checks the subscriber's signature.
    pub fn unwrap(&mut self, ctx: &mut unwrap::Context) -> (r: Result<(), Error>)
        requires
            old(ctx).wf(),
            old(self).spec_initial_state().wf(),
        ensures
            final(ctx)@.follows(
                take_unsubscription(
                    old(ctx)@.sponge,
                    old(self).spec_initial_state()@,
                    old(ctx)@.bytes,
                ),
                match r {
                    Ok(()) => Ok::<Seq<u8>, Error>(final(self).spec_subscriber_identifier()@),
                    Err(e) => Err::<Seq<u8>, Error>(e),
                },
            ),
            final(self).spec_initial_state() == old(self).spec_initial_state(),
            final(ctx).wf(),
    {
        ctx.join(&self.initial_state);
        let id = Identifier::unwrap(ctx, Mode::Mask)?;
        ctx.commit();
        id.verify(ctx)?;
        self.subscriber_id = id;
        Ok(())
    }
}

} // verus!
