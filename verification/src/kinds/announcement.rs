//! The announcement of a stream: the author's identifier and key-exchange
//! public key, signed by the author.

use vstd::prelude::*;
use crate::ddml::sizeof;
use crate::ddml::types::array_from;
use crate::ddml::types::lemma_put_wf;
use crate::ddml::types::lemma_take_put;
use crate::ddml::types::Mode;
use crate::ddml::types::put;
use crate::ddml::types::take;
use crate::ddml::types::Taken;
use crate::ddml::unwrap;
use crate::ddml::wrap;
use crate::ddml::x25519::KEY_SIZE;
use crate::error::Error;
use crate::id::identifier::default_identifier;
use crate::id::identifier::Identifier;
use crate::id::identifier::lemma_identifier;
use crate::id::identifier::lemma_take_put_identifier;
use crate::id::identifier::put_identifier;
use crate::id::identifier::TAG_ED25519;
use crate::id::identifier::take_identifier;
use crate::id::identifier::take_signature;
use crate::id::identifier::zeros;
use crate::id::identity::Keys;
use crate::id::identity::lemma_take_put_signature;
use crate::id::identity::put_signature;
use crate::id::identity::signature_len;
use crate::id::identity::signs;
use crate::id::identity::UserIdentity;
use crate::message::content::ContentWrap;
use crate::spongos::Sponge;

verus! {

/// What an announcement says: the author's identifier and key-exchange
/// public key.
pub struct Announcement {
    pub author_id: Seq<u8>,
    pub author_ke_pk: Seq<u8>,
}

/// The sponge at which the author signs, and the wire bytes before the
/// signature: the identifier and the public key absorbed, and a commit.
pub open spec fn put_announced(s: Sponge, a: Announcement) -> (Sponge, Seq<u8>) {
    let (s1, x) = put_identifier(s, Mode::Absorb, a.author_id);
    let (s2, y) = put(s1, Mode::Absorb, a.author_ke_pk);
    (s2.commit(), x + y)
}

/// The sponge and the wire bytes after an announcement has passed.
pub open spec fn put_announcement(s: Sponge, a: Announcement, secret: Seq<u8>) -> (Sponge, Seq<u8>) {
    let (s1, x) = put_announced(s, a);
    let (s2, y) = put_signature(s1, secret);
    (s2, x + y)
}

/// Reads an announcement and checks the author's signature.
pub open spec fn take_announcement(s: Sponge, input: Seq<u8>) -> Result<Taken<Announcement>, Error> {
    match take_identifier(s, Mode::Absorb, input) {
        Ok(t) => match take(t.sponge, Mode::Absorb, t.rest, KEY_SIZE as nat) {
            Ok(u) => match take_signature(u.sponge.commit(), t.value, u.rest) {
                Ok(v) => Ok(
                    Taken {
                        sponge: v.sponge,
                        value: Announcement { author_id: t.value, author_ke_pk: u.value },
                        rest: v.rest,
                    },
                ),
                Err(e) => Err(e),
            },
            Err(e) => Err(e),
        },
        Err(e) => Err(e),
    }
}

/// Number of bytes that an announcement takes on the wire.
pub open spec fn announcement_len(a: Announcement) -> nat {
    a.author_id.len() + KEY_SIZE as nat + signature_len()
}

/// An announcement whose signature verifies is read back as it was written,
/// and reading leaves the sponge that writing left.
pub proof fn lemma_take_put_announcement(
    s: Sponge,
    a: Announcement,
    secret: Seq<u8>,
    public: Seq<u8>,
    rest: Seq<u8>,
)
    requires
        s.wf(),
        a.author_id == seq![TAG_ED25519] + public,
        public.len() == 32,
        a.author_ke_pk.len() == KEY_SIZE,
        signs(put_announced(s, a).0, secret, public),
    ensures
        take_announcement(s, put_announcement(s, a, secret).1 + rest) == Ok::<
            Taken<Announcement>,
            Error,
        >(Taken { sponge: put_announcement(s, a, secret).0, value: a, rest }),
        put_announcement(s, a, secret).1.len() == announcement_len(a),
{
    let (s1, x) = put_identifier(s, Mode::Absorb, a.author_id);
    let (s2, y) = put(s1, Mode::Absorb, a.author_ke_pk);
    let (s3, z) = put_signature(s2.commit(), secret);
    lemma_take_put_identifier(s, Mode::Absorb, a.author_id, y + z + rest);
    lemma_put_wf(s1, Mode::Absorb, a.author_ke_pk);
    lemma_take_put(s1, Mode::Absorb, a.author_ke_pk, z + rest);
    lemma_take_put_signature(s2.commit(), secret, public, rest);
    assert((x + y + z) + rest =~= x + (y + z + rest));
    assert(y + z + rest =~= y + (z + rest));
}

/// The announcement that an author writes.
#[derive(Clone, Copy, Debug)]
pub struct Wrap {
    user_id: UserIdentity,
}

impl Wrap {
    /// The author.
    pub closed spec fn spec_user_id(&self) -> UserIdentity {
        self.user_id
    }

    /// The announcement of the stream of `user_id`.
    pub fn new(user_id: &UserIdentity) -> (r: Wrap)
        ensures
            r.spec_user_id() == *user_id,
    {
        Wrap { user_id: *user_id }
    }
}

/// What the announcement of `user_id` says.
pub open spec fn announced_by(user_id: UserIdentity, kp: crate::id::identity::KeyPairs) -> Announcement {
    Announcement { author_id: user_id.id@, author_ke_pk: kp.key_exchange.1@ }
}

impl ContentWrap for Wrap {
    open spec fn wf(&self) -> bool {
        true
    }

    open spec fn refusal(&self) -> Option<Error> {
        match self.spec_user_id().keys {
            Keys::Keypair(_) => None,
            Keys::Psk(_) => Some(Error::NoSignatureKeyPair),
        }
    }

    open spec fn spec_size(&self) -> nat {
        self.spec_user_id().id@.len() + KEY_SIZE as nat + signature_len()
    }

    open spec fn spec_wire(&self, s: Sponge) -> (Sponge, Seq<u8>) {
        match self.spec_user_id().keys {
            Keys::Keypair(kp) => put_announcement(
                s,
                announced_by(self.spec_user_id(), kp),
                kp.sig.0@,
            ),
            Keys::Psk(_) => (s, Seq::empty()),
        }
    }

    fn sizeof(&self, ctx: &mut sizeof::Context) -> (r: Result<(), Error>) {
        match &self.user_id.keys {
            Keys::Keypair(_) => {
                self.user_id.id.sizeof(ctx)?;
                ctx.add(KEY_SIZE)?;
                self.user_id.sizeof(ctx)
            },
            Keys::Psk(_) => Err(Error::NoSignatureKeyPair),
        }
    }

    fn wrap(&self, ctx: &mut wrap::Context) -> (r: Result<(), Error>) {
        match &self.user_id.keys {
            Keys::Keypair(kp) => {
                proof {
                    lemma_identifier(self.user_id.id);
                    lemma_take_put_identifier(ctx@.sponge, Mode::Absorb, self.user_id.id@, Seq::empty());
                }
                self.user_id.id.wrap(ctx, Mode::Absorb);
                proof {
                    lemma_put_wf(ctx@.sponge, Mode::Absorb, kp.key_exchange.1@);
                }
                ctx.put(Mode::Absorb, kp.key_exchange.1.as_slice());
                ctx.commit();
                self.user_id.sign(ctx)?;
                proof {
                    assert(ctx@.bytes =~= old(ctx)@.after(self.spec_wire(old(ctx)@.sponge)).bytes);
                }
                Ok(())
            },
            Keys::Psk(_) => Err(Error::NoSignatureKeyPair),
        }
    }
}

/// The announcement that a subscriber reads.
#[derive(Clone, Copy, Debug)]
pub struct Unwrap {
    author_id: Identifier,
    author_ke_pk: [u8; 32],
}

impl View for Unwrap {
    type V = Announcement;

    closed spec fn view(&self) -> Announcement {
        Announcement { author_id: self.author_id@, author_ke_pk: self.author_ke_pk@ }
    }
}

impl Unwrap {
    /// An announcement that has not been read yet: it holds the default
    /// identifier and a key of zeros.
    pub fn new() -> (r: Unwrap)
        ensures
            r@ == (Announcement { author_id: default_identifier(), author_ke_pk: zeros(32) }),
    {
        let key = [0u8; 32];
        assert(key@ =~= zeros(32));
        Unwrap { author_id: Identifier::default(), author_ke_pk: key }
    }

    /// The author's identifier.
    pub fn author_id(&self) -> (r: Identifier)
        ensures
            r@ == self@.author_id,
    {
        self.author_id
    }

    /// The author's key-exchange public key.
    pub fn author_ke_pk(&self) -> (r: [u8; 32])
        ensures
            r@ == self@.author_ke_pk,
    {
        self.author_ke_pk
    }

    /// Reads the announcement and checks the author's signature.
    pub fn unwrap(&mut self, ctx: &mut unwrap::Context) -> (r: Result<(), Error>)
        requires
            old(ctx).wf(),
        ensures
            final(ctx)@.follows(
                take_announcement(old(ctx)@.sponge, old(ctx)@.bytes),
                match r {
                    Ok(()) => Ok::<Announcement, Error>(final(self)@),
                    Err(e) => Err::<Announcement, Error>(e),
                },
            ),
            final(ctx).wf(),
    {
        let author_id = Identifier::unwrap(ctx, Mode::Absorb)?;
        let key = ctx.take(Mode::Absorb, KEY_SIZE)?;
        ctx.commit();
        author_id.verify(ctx)?;
        self.author_id = author_id;
        self.author_ke_pk = array_from::<32>(key.as_slice());
        Ok(())
    }
}

} // verus!
