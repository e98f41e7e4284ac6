//! The request of a subscriber to join: bound to the announcement, it seals
//! a key for the author and holds the subscriber's identifier and
//! key-exchange public key, signed by the subscriber.

use vstd::prelude::*;
use crate::ddml::sizeof;
use crate::ddml::types::array_from;
use crate::ddml::types::lemma_put_wf;
use crate::ddml::types::lemma_take_put;
use crate::ddml::types::Mode;
use crate::ddml::types::put;
use crate::ddml::types::take;
use crate::ddml::types::Taken;
use crate::ddml::unwrap;
use crate::ddml::wrap;
use crate::ddml::x25519::agree;
use crate::ddml::x25519::KEY_SIZE;
use crate::ddml::x25519::lemma_take_put_sealed;
use crate::ddml::x25519::put_sealed;
use crate::ddml::x25519::seal;
use crate::ddml::x25519::sealed_len;
use crate::ddml::x25519::take_sealed;
use crate::ddml::x25519::unseal;
use crate::error::Error;
use crate::id::identifier::default_identifier;
use crate::id::identifier::Identifier;
use crate::id::identifier::lemma_identifier;
use crate::id::identifier::lemma_take_put_identifier;
use crate::id::identifier::put_identifier;
use crate::id::identifier::TAG_ED25519;
use crate::id::identifier::take_identifier;
use crate::id::identifier::take_signature;
use crate::id::identifier::zeros;
use crate::id::identity::KeyPairs;
use crate::id::identity::Keys;
use crate::id::identity::lemma_take_put_signature;
use crate::id::identity::put_signature;
use crate::id::identity::signature_len;
use crate::id::identity::signs;
use crate::id::identity::UserIdentity;
use crate::message::content::ContentWrap;
use crate::spongos::lemma_join_wf;
use crate::spongos::Sponge;
use crate::spongos::Spongos;

verus! {

/// What a subscription says.
pub struct Subscription {
    pub unsubscribe_key: Seq<u8>,
    pub subscriber_id: Seq<u8>,
    pub subscriber_ke_pk: Seq<u8>,
}

/// The sponge at which the subscriber signs, and the wire bytes before the
/// signature: the sponge of the announcement joined, the key sealed for the
/// author, the identifier and the public key masked, and a commit.
pub open spec fn put_subscribed(
    s: Sponge,
    initial: Sponge,
    ephemeral: Seq<u8>,
    author_ke_pk: Seq<u8>,
    sub: Subscription,
) -> (Sponge, Seq<u8>) {
    let (s1, x) = put_sealed(s.join(initial), ephemeral, author_ke_pk, sub.unsubscribe_key);
    let (s2, y) = put_identifier(s1, Mode::Mask, sub.subscriber_id);
    let (s3, z) = put(s2, Mode::Mask, sub.subscriber_ke_pk);
    (s3.commit(), x + y + z)
}

/// The sponge and the wire bytes after a subscription has passed.
pub open spec fn put_subscription(
    s: Sponge,
    initial: Sponge,
    ephemeral: Seq<u8>,
    author_ke_pk: Seq<u8>,
    sub: Subscription,
    secret: Seq<u8>,
) -> (Sponge, Seq<u8>) {
    let (s1, x) = put_subscribed(s, initial, ephemeral, author_ke_pk, sub);
    let (s2, y) = put_signature(s1, secret);
    (s2, x + y)
}

/// Reads a subscription linked to the announcement whose sponge is
/// `initial`, opens the key with the author's secret key and checks the
/// subscriber's signature.
pub open spec fn take_subscription(
    s: Sponge,
    initial: Sponge,
    author_ke_sk: Seq<u8>,
    input: Seq<u8>,
) -> Result<Taken<Subscription>, Error> {
    match take_sealed(s.join(initial), author_ke_sk, input) {
        Ok(t) => match take_identifier(t.sponge, Mode::Mask, t.rest) {
            Ok(u) => match take(u.sponge, Mode::Mask, u.rest, KEY_SIZE as nat) {
                Ok(v) => match take_signature(v.sponge.commit(), u.value, v.rest) {
                    Ok(w) => Ok(
                        Taken {
                            sponge: w.sponge,
                            value: Subscription {
                                unsubscribe_key: t.value,
                                subscriber_id: u.value,
                                subscriber_ke_pk: v.value,
                            },
                            rest: w.rest,
                        },
                    ),
                    Err(e) => Err(e),
                },
                Err(e) => Err(e),
            },
            Err(e) => Err(e),
        },
        Err(e) => Err(e),
    }
}

/// Number of bytes that a subscription takes on the wire.
pub open spec fn subscription_len(sub: Subscription) -> nat {
    sealed_len() + sub.subscriber_id.len() + KEY_SIZE as nat + signature_len()
}

/// A subscription whose signature verifies, sealed for an author who agrees
/// with the subscriber on the shared secret, is read back as it was written,
/// and reading leaves the sponge that writing left.
pub proof fn lemma_take_put_subscription(
    s: Sponge,
    initial: Sponge,
    ephemeral: Seq<u8>,
    author_ke_sk: Seq<u8>,
    author_ke_pk: Seq<u8>,
    sub: Subscription,
    secret: Seq<u8>,
    public: Seq<u8>,
    rest: Seq<u8>,
)
    requires
        s.wf(),
        initial.wf(),
        sub.unsubscribe_key.len() == KEY_SIZE,
        sub.subscriber_ke_pk.len() == KEY_SIZE,
        sub.subscriber_id == seq![TAG_ED25519] + public,
        public.len() == 32,
        agree(ephemeral, author_ke_sk, author_ke_pk),
        signs(put_subscribed(s, initial, ephemeral, author_ke_pk, sub).0, secret, public),
    ensures
        take_subscription(
            s,
            initial,
            author_ke_sk,
            put_subscription(s, initial, ephemeral, author_ke_pk, sub, secret).1 + rest,
        ) == Ok::<Taken<Subscription>, Error>(
            Taken {
                sponge: put_subscription(s, initial, ephemeral, author_ke_pk, sub, secret).0,
                value: sub,
                rest,
            },
        ),
        put_subscription(s, initial, ephemeral, author_ke_pk, sub, secret).1.len()
            == subscription_len(sub),
{
    lemma_join_wf(s, initial);
    let s0 = s.join(initial);
    let (s1, x) = put_sealed(s0, ephemeral, author_ke_pk, sub.unsubscribe_key);
    let (s2, y) = put_identifier(s1, Mode::Mask, sub.subscriber_id);
    let (s3, z) = put(s2, Mode::Mask, sub.subscriber_ke_pk);
    let (s4, w) = put_signature(s3.commit(), secret);
    lemma_take_put_sealed(
        s0,
        ephemeral,
        author_ke_sk,
        author_ke_pk,
        sub.unsubscribe_key,
        y + z + w + rest,
    );
    lemma_take_put_identifier(s1, Mode::Mask, sub.subscriber_id, z + w + rest);
    lemma_put_wf(s2, Mode::Mask, sub.subscriber_ke_pk);
    lemma_take_put(s2, Mode::Mask, sub.subscriber_ke_pk, w + rest);
    lemma_take_put_signature(s3.commit(), secret, public, rest);
    assert((x + y + z + w) + rest =~= x + (y + z + w + rest));
    assert(y + z + w + rest =~= y + (z + w + rest));
    assert(z + w + rest =~= z + (w + rest));
}

/// The subscription that a subscriber writes.
#[derive(Clone, Copy, Debug)]
pub struct Wrap {
    initial_state: Spongos,
    unsubscribe_key: [u8; 32],
    ephemeral: [u8; 32],
    subscriber_id: UserIdentity,
    author_ke_pk: [u8; 32],
}

impl Wrap {
    /// The sponge of the announcement.
    pub closed spec fn spec_initial_state(&self) -> Spongos {
        self.initial_state
    }

    /// The key that is sealed for the author.
    pub closed spec fn spec_unsubscribe_key(&self) -> Seq<u8> {
        self.unsubscribe_key@
    }

    /// The secret key that the sealing uses once.
    pub closed spec fn spec_ephemeral(&self) -> Seq<u8> {
        self.ephemeral@
    }

    /// The subscriber.
    pub closed spec fn spec_subscriber_id(&self) -> UserIdentity {
        self.subscriber_id
    }

    /// The author's key-exchange public key.
    pub closed spec fn spec_author_ke_pk(&self) -> Seq<u8> {
        self.author_ke_pk@
    }

    /// What the subscription says, for a subscriber with these keys.
    pub open spec fn said(&self, kp: KeyPairs) -> Subscription {
        Subscription {
            unsubscribe_key: self.spec_unsubscribe_key(),
            subscriber_id: self.spec_subscriber_id().id@,
            subscriber_ke_pk: kp.key_exchange.1@,
        }
    }

    /// The subscription of `subscriber_id`, linked to the announcement whose
    /// sponge is `initial_state`; `unsubscribe_key` is sealed for the holder
    /// of the secret key of `author_ke_pk` with the one-time secret key
    /// `ephemeral`.
    pub fn new(
        initial_state: &Spongos,
        unsubscribe_key: [u8; 32],
        ephemeral: [u8; 32],
        subscriber_id: &UserIdentity,
        author_ke_pk: &[u8; 32],
    ) -> (r: Wrap)
        ensures
            r.spec_initial_state() == *initial_state,
            r.spec_unsubscribe_key() == unsubscribe_key@,
            r.spec_ephemeral() == ephemeral@,
            r.spec_subscriber_id() == *subscriber_id,
            r.spec_author_ke_pk() == author_ke_pk@,
    {
        Wrap {
            initial_state: *initial_state,
            unsubscribe_key,
            ephemeral,
            subscriber_id: *subscriber_id,
            author_ke_pk: *author_ke_pk,
        }
    }
}

impl ContentWrap for Wrap {
    open spec fn wf(&self) -> bool {
        self.spec_initial_state().wf()
    }

    open spec fn refusal(&self) -> Option<Error> {
        match self.spec_subscriber_id().keys {
            Keys::Keypair(_) => None,
            Keys::Psk(_) => Some(Error::NoSignatureKeyPair),
        }
    }

    open spec fn spec_size(&self) -> nat {
        sealed_len() + self.spec_subscriber_id().id@.len() + KEY_SIZE as nat + signature_len()
    }

    open spec fn spec_wire(&self, s: Sponge) -> (Sponge, Seq<u8>) {
        match self.spec_subscriber_id().keys {
            Keys::Keypair(kp) => put_subscription(
                s,
                self.spec_initial_state()@,
                self.spec_ephemeral(),
                self.spec_author_ke_pk(),
                self.said(kp),
                kp.sig.0@,
            ),
            Keys::Psk(_) => (s, Seq::empty()),
        }
    }

    fn sizeof(&self, ctx: &mut sizeof::Context) -> (r: Result<(), Error>) {
        match &self.subscriber_id.keys {
            Keys::Keypair(_) => {
                ctx.add(64)?;
                self.subscriber_id.id.sizeof(ctx)?;
                ctx.add(KEY_SIZE)?;
                self.subscriber_id.sizeof(ctx)
            },
            Keys::Psk(_) => Err(Error::NoSignatureKeyPair),
        }
    }

    fn wrap(&self, ctx: &mut wrap::Context) -> (r: Result<(), Error>) {
        match &self.subscriber_id.keys {
            Keys::Keypair(kp) => {
                ctx.join(&self.initial_state);
                seal(ctx, &self.ephemeral, &self.author_ke_pk, &self.unsubscribe_key);
                proof {
                    lemma_identifier(self.subscriber_id.id);
                    lemma_take_put_identifier(
                        ctx@.sponge,
                        Mode::Mask,
                        self.subscriber_id.id@,
                        Seq::empty(),
                    );
                }
                self.subscriber_id.id.wrap(ctx, Mode::Mask);
                proof {
                    lemma_put_wf(ctx@.sponge, Mode::Mask, kp.key_exchange.1@);
                }
                ctx.put(Mode::Mask, kp.key_exchange.1.as_slice());
                ctx.commit();
                self.subscriber_id.sign(ctx)?;
                proof {
                    assert(ctx@.bytes =~= old(ctx)@.after(self.spec_wire(old(ctx)@.sponge)).bytes);
                }
                Ok(())
            },
            Keys::Psk(_) => Err(Error::NoSignatureKeyPair),
        }
    }
}

/// The subscription that the author reads.
#[derive(Clone, Copy, Debug)]
pub struct Unwrap {
    initial_state: Spongos,
    author_ke_sk: [u8; 32],
    unsubscribe_key: [u8; 32],
    subscriber_id: Identifier,
    subscriber_ke_pk: [u8; 32],
}

impl Unwrap {
    /// The sponge of the announcement.
    pub closed spec fn spec_initial_state(&self) -> Spongos {
        self.initial_state
    }

    /// The author's key-exchange secret key.
    pub closed spec fn spec_author_ke_sk(&self) -> Seq<u8> {
        self.author_ke_sk@
    }

    /// What the subscription says.
    pub closed spec fn said(&self) -> Subscription {
        Subscription {
            unsubscribe_key: self.unsubscribe_key@,
            subscriber_id: self.subscriber_id@,
            subscriber_ke_pk: self.subscriber_ke_pk@,
        }
    }

    /// A subscription that has not been read yet, linked to the announcement
    /// whose sponge is `initial_state`, to be opened with the author's secret
    /// key; it holds the default identifier and keys of zeros.
    pub fn new(initial_state: &Spongos, author_ke_sk: &[u8; 32]) -> (r: Unwrap)
        ensures
            r.spec_initial_state() == *initial_state,
            r.spec_author_ke_sk() == author_ke_sk@,
            r.said() == (Subscription {
                unsubscribe_key: zeros(32),
                subscriber_id: default_identifier(),
                subscriber_ke_pk: zeros(32),
            }),
    {
        let key = [0u8; 32];
        assert(key@ =~= zeros(32));
        Unwrap {
            initial_state: *initial_state,
            author_ke_sk: *author_ke_sk,
            unsubscribe_key: key,
            subscriber_id: Identifier::default(),
            subscriber_ke_pk: key,
        }
    }

    /// The subscriber's identifier.
    pub fn subscriber_identifier(&self) -> (r: Identifier)
        ensures
            r@ == self.said().subscriber_id,
    {
        self.subscriber_id
    }

    /// The subscriber's key-exchange public key.
    pub fn subscriber_ke_pk(&self) -> (r: [u8; 32])
        ensures
            r@ == self.said().subscriber_ke_pk,
    {
        self.subscriber_ke_pk
    }

    /// The key that the subscriber sealed for the author.
    pub fn unsubscribe_key(&self) -> (r: [u8; 32])
        ensures
            r@ == self.said().unsubscribe_key,
    {
        self.unsubscribe_key
    }

    /// Reads the subscription and checks the subscriber's signature.
    pub fn unwrap(&mut self, ctx: &mut unwrap::Context) -> (r: Result<(), Error>)
        requires
            old(ctx).wf(),
            old(self).spec_initial_state().wf(),
        ensures
            final(ctx)@.follows(
                take_subscription(
                    old(ctx)@.sponge,
                    old(self).spec_initial_state()@,
                    old(self).spec_author_ke_sk(),
                    old(ctx)@.bytes,
                ),
                match r {
                    Ok(()) => Ok::<Subscription, Error>(final(self).said()),
                    Err(e) => Err::<Subscription, Error>(e),
                },
            ),
            final(ctx).wf(),
    {
        ctx.join(&self.initial_state);
        let key = unseal(ctx, &self.author_ke_sk)?;
        let id = Identifier::unwrap(ctx, Mode::Mask)?;
        let ke_pk = ctx.take(Mode::Mask, KEY_SIZE)?;
        ctx.commit();
        id.verify(ctx)?;
        self.unsubscribe_key = key;
        self.subscriber_id = id;
        self.subscriber_ke_pk = array_from::<32>(ke_pk.as_slice());
        Ok(())
    }
}

} // verus!
