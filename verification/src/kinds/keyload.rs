//! A key for a chosen set of readers: bound to the announcement, it holds one
//! slot for each subscriber and each pre-shared key, in which the key is
//! masked so that only that reader recovers it, and the author's signature.

use vstd::prelude::*;
use crate::ddml::sizeof;
use crate::ddml::types::array_from;
use crate::ddml::types::lemma_put_wf;
use crate::ddml::types::lemma_take_put;
use crate::ddml::types::lemma_take_put_size;
use crate::ddml::types::Mode;
use crate::ddml::types::put;
use crate::ddml::types::put_size;
use crate::ddml::types::size_len;
use crate::ddml::types::take;
use crate::ddml::types::take_size;
use crate::ddml::types::Taken;
use crate::ddml::unwrap;
use crate::ddml::wrap;
use crate::ddml::x25519::KEY_SIZE;
use crate::ddml::x25519::put_sealed;
use crate::ddml::x25519::seal;
use crate::ddml::x25519::sealed_len;
use crate::ddml::x25519::take_sealed;
use crate::ddml::x25519::unseal;
use crate::error::Error;
use crate::id::identifier::Identifier;
use crate::id::identifier::take_signature;
use crate::id::identity::Keys;
use crate::id::identity::put_signature;
use crate::id::identity::signature_len;
use crate::id::identity::UserIdentity;
use crate::id::permission::lemma_take_put_permission;
use crate::id::permission::Permission;
use crate::id::permission::Permissioned;
use crate::id::permission::put_permission;
use crate::id::permission::take_permission;
use crate::id::psk::Psk;
use crate::id::psk::PSK_SIZE;
use crate::id::psk::PskId;
use crate::id::psk::PSKID_SIZE;
use crate::message::content::ContentWrap;
use crate::spongos::lemma_absorb_wf;
use crate::spongos::lemma_join_wf;
use crate::spongos::Sponge;
use crate::spongos::Spongos;
use crate::store::KeyStore;

verus! {

/// Number of bytes of the nonce of a keyload.
pub const NONCE_SIZE: usize = 16;

/// A subscriber that a keyload is for: what they may do, their key-exchange
/// public key, and the one-time secret key that seals the key for them.
#[derive(Clone, Copy, Debug)]
pub struct Recipient {
    pub permission: Permissioned<Identifier>,
    pub ke_pk: [u8; 32],
    pub ephemeral: [u8; 32],
}

/// A subscriber that a keyload is for, as a value.
pub struct Seat {
    pub permission: Permission,
    pub ke_pk: Seq<u8>,
    pub ephemeral: Seq<u8>,
}

impl View for Recipient {
    type V = Seat;

    open spec fn view(&self) -> Seat {
        Seat { permission: self.permission@, ke_pk: self.ke_pk@, ephemeral: self.ephemeral@ }
    }
}

/// The subscribers as values.
pub open spec fn seats(rs: Seq<Recipient>) -> Seq<Seat> {
    Seq::new(rs.len(), |i: int| rs[i]@)
}

/// The pre-shared keys with their identifiers, as bytes.
pub open spec fn psk_pairs(ps: Seq<(PskId, Psk)>) -> Seq<(Seq<u8>, Seq<u8>)> {
    Seq::new(ps.len(), |i: int| (ps[i].0@, ps[i].1@))
}

/// The bytes of the slot of a subscriber, written from the sponge `k`: the
/// permission masked, then the key sealed for the subscriber.
pub open spec fn put_slot(k: Sponge, r: Seat, key: Seq<u8>) -> Seq<u8> {
    let (t1, x) = put_permission(k, Mode::Mask, r.permission);
    let (t2, y) = put_sealed(t1, r.ephemeral, r.ke_pk, key);
    x + y
}

/// The bytes of the slots of the subscribers, each written from the sponge
/// `k`.
pub open spec fn put_slots(k: Sponge, rs: Seq<Seat>, key: Seq<u8>) -> Seq<u8>
    decreases rs.len(),
{
    if rs.len() == 0 {
        Seq::empty()
    } else {
        put_slots(k, rs.drop_last(), key) + put_slot(k, rs.last(), key)
    }
}

/// The bytes of the slot of a pre-shared key, written from the sponge `k`:
/// the identifier masked, the pre-shared key absorbed without being written,
/// a commit, and the key masked.
pub open spec fn put_psk_slot(k: Sponge, pskid: Seq<u8>, psk: Seq<u8>, key: Seq<u8>) -> Seq<u8> {
    let (t1, x) = put(k, Mode::Mask, pskid);
    let (t2, y) = put(t1.absorb(psk).commit(), Mode::Mask, key);
    x + y
}

/// The bytes of the slots of the pre-shared keys, each written from the
/// sponge `k`.
pub open spec fn put_psk_slots(k: Sponge, ps: Seq<(Seq<u8>, Seq<u8>)>, key: Seq<u8>) -> Seq<u8>
    decreases ps.len(),
{
    if ps.len() == 0 {
        Seq::empty()
    } else {
        put_psk_slots(k, ps.drop_last(), key) + put_psk_slot(k, ps.last().0, ps.last().1, key)
    }
}

/// Number of bytes of the slot of a subscriber.
pub open spec fn slot_len(r: Seat) -> nat {
    r.permission.len() + sealed_len()
}

/// Number of bytes of the slots of the subscribers.
pub open spec fn slots_len(rs: Seq<Seat>) -> nat
    decreases rs.len(),
{
    if rs.len() == 0 {
        0
    } else {
        slots_len(rs.drop_last()) + slot_len(rs.last())
    }
}

/// Number of bytes of the slot of a pre-shared key.
pub open spec fn psk_slot_len() -> nat {
    (PSKID_SIZE + KEY_SIZE) as nat
}

/// What a keyload is made of.
pub struct Load {
    pub initial: Sponge,
    pub nonce: Seq<u8>,
    pub subscribers: Seq<Seat>,
    pub psks: Seq<(Seq<u8>, Seq<u8>)>,
    pub key: Seq<u8>,
}

/// The sponge that every slot of a keyload is written from: the sponge of
/// the announcement joined and the nonce absorbed.
pub open spec fn keyload_base(s: Sponge, initial: Sponge, nonce: Seq<u8>) -> Sponge {
    put(s.join(initial), Mode::Absorb, nonce).0
}

/// The sponge at which the author signs a keyload: the key absorbed into the
/// base without being written, and a commit.
pub open spec fn keyload_sealed(s: Sponge, load: Load) -> Sponge {
    keyload_base(s, load.initial, load.nonce).absorb(load.key).commit()
}

/// The wire bytes of a keyload before the signature: the nonce, the number
/// of subscribers and their slots, the number of pre-shared keys and their
/// slots.
pub open spec fn put_keyload_body(s: Sponge, load: Load) -> Seq<u8> {
    let (k, a) = put(s.join(load.initial), Mode::Absorb, load.nonce);
    let b = put_size(k, Mode::Skip, load.subscribers.len() as u64).1;
    let c = put_slots(k, load.subscribers, load.key);
    let d = put_size(k, Mode::Skip, load.psks.len() as u64).1;
    let e = put_psk_slots(k, load.psks, load.key);
    a + b + c + d + e
}

/// The sponge and the wire bytes after a keyload has passed.
pub open spec fn put_keyload(s: Sponge, load: Load, secret: Seq<u8>) -> (Sponge, Seq<u8>) {
    let (s1, f) = put_signature(keyload_sealed(s, load), secret);
    (s1, put_keyload_body(s, load) + f)
}

/// Number of bytes that a keyload takes on the wire.
pub open spec fn keyload_len(load: Load) -> nat {
    NONCE_SIZE as nat + size_len(load.subscribers.len() as u64) + slots_len(load.subscribers)
        + size_len(load.psks.len() as u64) + load.psks.len() * psk_slot_len() + signature_len()
}

/// A reader of a keyload: their identifier and their key-exchange secret
/// key.
pub struct Reader {
    pub id: Seq<u8>,
    pub ke_sk: Seq<u8>,
}

/// What a reader finds in a slot: whose it is, and the key if the slot is
/// theirs.
pub struct Slot<T> {
    pub owner: T,
    pub key: Option<Seq<u8>>,
}

/// Reads the slot of a subscriber from the sponge `k`. The reader opens the
/// slot that holds their identifier and passes over any other.
pub open spec fn take_slot(k: Sponge, me: Option<Reader>, input: Seq<u8>) -> Result<
    Taken<Slot<Permission>>,
    Error,
> {
    match take_permission(k, Mode::Mask, input) {
        Ok(t) => if me is Some && t.value.id == me->0.id {
            match take_sealed(t.sponge, me->0.ke_sk, t.rest) {
                Ok(u) => Ok(
                    Taken {
                        sponge: k,
                        value: Slot { owner: t.value, key: Some(u.value) },
                        rest: u.rest,
                    },
                ),
                Err(e) => Err(e),
            }
        } else {
            match take(t.sponge, Mode::Skip, t.rest, sealed_len()) {
                Ok(u) => Ok(
                    Taken { sponge: k, value: Slot { owner: t.value, key: None }, rest: u.rest },
                ),
                Err(e) => Err(e),
            }
        },
        Err(e) => Err(e),
    }
}

/// The key that a reader keeps: the first that they found.
pub open spec fn first_key(found: Option<Seq<u8>>, next: Option<Seq<u8>>) -> Option<Seq<u8>> {
    if found is Some {
        found
    } else {
        next
    }
}

/// Reads `n` slots of subscribers, each from the sponge `k`.
pub open spec fn take_slots(k: Sponge, me: Option<Reader>, n: nat, input: Seq<u8>) -> Result<
    Taken<Slot<Seq<Permission>>>,
    Error,
>
    decreases n,
{
    if n == 0 {
        Ok(Taken { sponge: k, value: Slot { owner: Seq::empty(), key: None }, rest: input })
    } else {
        match take_slots(k, me, (n - 1) as nat, input) {
            Ok(t) => match take_slot(k, me, t.rest) {
                Ok(u) => Ok(
                    Taken {
                        sponge: k,
                        value: Slot {
                            owner: t.value.owner.push(u.value.owner),
                            key: first_key(t.value.key, u.value.key),
                        },
                        rest: u.rest,
                    },
                ),
                Err(e) => Err(e),
            },
            Err(e) => Err(e),
        }
    }
}

/// Reads the slot of a pre-shared key from the sponge `k`. The reader opens
/// the slot whose pre-shared key they hold and passes over any other.
pub open spec fn take_psk_slot(k: Sponge, psks: Map<Seq<u8>, Seq<u8>>, input: Seq<u8>) -> Result<
    Taken<Slot<Seq<u8>>>,
    Error,
> {
    match take(k, Mode::Mask, input, PSKID_SIZE as nat) {
        Ok(t) => if psks.contains_key(t.value) {
            match take(
                t.sponge.absorb(psks[t.value]).commit(),
                Mode::Mask,
                t.rest,
                KEY_SIZE as nat,
            ) {
                Ok(u) => Ok(
                    Taken {
                        sponge: k,
                        value: Slot { owner: t.value, key: Some(u.value) },
                        rest: u.rest,
                    },
                ),
                Err(e) => Err(e),
            }
        } else {
            match take(t.sponge, Mode::Skip, t.rest, KEY_SIZE as nat) {
                Ok(u) => Ok(
                    Taken { sponge: k, value: Slot { owner: t.value, key: None }, rest: u.rest },
                ),
                Err(e) => Err(e),
            }
        },
        Err(e) => Err(e),
    }
}

/// Reads `n` slots of pre-shared keys, each from the sponge `k`.
pub open spec fn take_psk_slots(
    k: Sponge,
    psks: Map<Seq<u8>, Seq<u8>>,
    n: nat,
    input: Seq<u8>,
) -> Result<Taken<Slot<Seq<Seq<u8>>>>, Error>
    decreases n,
{
    if n == 0 {
        Ok(Taken { sponge: k, value: Slot { owner: Seq::empty(), key: None }, rest: input })
    } else {
        match take_psk_slots(k, psks, (n - 1) as nat, input) {
            Ok(t) => match take_psk_slot(k, psks, t.rest) {
                Ok(u) => Ok(
                    Taken {
                        sponge: k,
                        value: Slot {
                            owner: t.value.owner.push(u.value.owner),
                            key: first_key(t.value.key, u.value.key),
                        },
                        rest: u.rest,
                    },
                ),
                Err(e) => Err(e),
            },
            Err(e) => Err(e),
        }
    }
}

/// What a keyload says to a reader: the nonce, who it is for, and the key if
/// the reader is among them.
pub struct Keyload {
    pub nonce: Seq<u8>,
    pub subscribers: Seq<Permission>,
    pub psks: Seq<Seq<u8>>,
    pub key: Option<Seq<u8>>,
}

/// What follows the slots of a keyload. A reader who found the key absorbs
/// it, commits and checks the author's signature; one who found none commits
/// and passes over the signature.
pub open spec fn take_keyload_end(
    k: Sponge,
    author: Seq<u8>,
    key: Option<Seq<u8>>,
    input: Seq<u8>,
) -> Result<Taken<()>, Error> {
    match key {
        Some(key) => take_signature(k.absorb(key).commit(), author, input),
        None => match take(k.commit(), Mode::Skip, input, signature_len()) {
            Ok(t) => Ok(Taken { sponge: t.sponge, value: (), rest: t.rest }),
            Err(e) => Err(e),
        },
    }
}

/// Reads a keyload linked to the announcement whose sponge is `initial`, as
/// the reader `me` who holds the pre-shared keys `psks`, and checks the
/// signature of `author` where the reader found the key.
pub open spec fn take_keyload(
    s: Sponge,
    initial: Sponge,
    me: Option<Reader>,
    psks: Map<Seq<u8>, Seq<u8>>,
    author: Seq<u8>,
    input: Seq<u8>,
) -> Result<Taken<Keyload>, Error> {
    match take(s.join(initial), Mode::Absorb, input, NONCE_SIZE as nat) {
        Ok(t) => match take_size(t.sponge, Mode::Skip, t.rest) {
            Ok(n) => match take_slots(t.sponge, me, n.value as nat, n.rest) {
                Ok(sl) => match take_size(t.sponge, Mode::Skip, sl.rest) {
                    Ok(m) => match take_psk_slots(t.sponge, psks, m.value as nat, m.rest) {
                        Ok(ps) => match take_keyload_end(
                            t.sponge,
                            author,
                            first_key(sl.value.key, ps.value.key),
                            ps.rest,
                        ) {
                            Ok(v) => Ok(
                                Taken {
                                    sponge: v.sponge,
                                    value: Keyload {
                                        nonce: t.value,
                                        subscribers: sl.value.owner,
                                        psks: ps.value.owner,
                                        key: first_key(sl.value.key, ps.value.key),
                                    },
                                    rest: v.rest,
                                },
                            ),
                            Err(e) => Err(e),
                        },
                        Err(e) => Err(e),
                    },
                    Err(e) => Err(e),
                },
                Err(e) => Err(e),
            },
            Err(e) => Err(e),
        },
        Err(e) => Err(e),
    }
}

/// Reading slots fails where reading fewer of them fails, with the same
/// error.
pub proof fn lemma_take_slots_err(k: Sponge, me: Option<Reader>, i: nat, n: nat, input: Seq<u8>)
    requires
        i <= n,
        take_slots(k, me, i, input) is Err,
    ensures
        take_slots(k, me, n, input) == take_slots(k, me, i, input),
    decreases n - i,
{
    if i < n {
        lemma_take_slots_err(k, me, i, (n - 1) as nat, input);
    }
}

/// Reading slots of pre-shared keys fails where reading fewer of them fails,
/// with the same error.
pub proof fn lemma_take_psk_slots_err(
    k: Sponge,
    psks: Map<Seq<u8>, Seq<u8>>,
    i: nat,
    n: nat,
    input: Seq<u8>,
)
    requires
        i <= n,
        take_psk_slots(k, psks, i, input) is Err,
    ensures
        take_psk_slots(k, psks, n, input) == take_psk_slots(k, psks, i, input),
    decreases n - i,
{
    if i < n {
        lemma_take_psk_slots_err(k, psks, i, (n - 1) as nat, input);
    }
}

/// The slots of fewer subscribers take no more bytes.
pub proof fn lemma_slots_len_prefix(rs: Seq<Seat>, i: int)
    requires
        0 <= i <= rs.len(),
    ensures
        slots_len(rs.take(i)) <= slots_len(rs),
    decreases rs.len() - i,
{
    if i < rs.len() {
        lemma_slots_len_prefix(rs, i + 1);
        assert(rs.take(i + 1).drop_last() =~= rs.take(i));
    } else {
        assert(rs.take(i) =~= rs);
    }
}

/// The permissions as values.
pub open spec fn permission_views(v: Seq<Permissioned<Identifier>>) -> Seq<Permission> {
    Seq::new(v.len(), |i: int| v[i]@)
}

/// The identifiers of pre-shared keys as bytes.
pub open spec fn pskid_views(v: Seq<PskId>) -> Seq<Seq<u8>> {
    Seq::new(v.len(), |i: int| v[i]@)
}

/// The key as bytes, if there is one.
pub open spec fn key_view(key: Option<[u8; 32]>) -> Option<Seq<u8>> {
    match key {
        Some(k) => Some(k@),
        None => None,
    }
}

/// The reader that an identity makes: one with a key pair reads the slot
/// that holds their identifier; any other reads no subscriber's slot.
pub open spec fn reader_of(user_id: Option<UserIdentity>) -> Option<Reader> {
    match user_id {
        Some(user) => match user.keys {
            Keys::Keypair(kp) => Some(Reader { id: user.id@, ke_sk: kp.key_exchange.0@ }),
            Keys::Psk(_) => None,
        },
        None => None,
    }
}

fn sizeof_slots(ctx: &mut sizeof::Context, subscribers: &[Recipient]) -> (r: Result<(), Error>)
    ensures
        final(ctx).grown(*old(ctx), slots_len(seats(subscribers@)), r),
{
    let ghost all = seats(subscribers@);
    let mut i: usize = 0;
    while i < subscribers.len()
        invariant
            i <= subscribers.len(),
            all == seats(subscribers@),
            ctx@ == old(ctx)@ + slots_len(all.take(i as int)),
        decreases subscribers.len() - i,
    {
        proof {
            assert(all.take(i + 1).drop_last() =~= all.take(i as int));
            assert(all.take(i + 1).last() == subscribers[i as int]@);
            lemma_slots_len_prefix(all, i + 1);
        }
        subscribers[i].permission.sizeof(ctx)?;
        ctx.add(64)?;
        i = i + 1;
    }
    assert(all.take(i as int) =~= all);
    let total: usize = ctx.size();
    Ok(())
}

fn wrap_slots(ctx: &mut wrap::Context, base: &Spongos, subscribers: &[Recipient], key: &[u8; 32])
    requires
        old(ctx).wf(),
        base.wf(),
    ensures
        final(ctx)@.sponge == base@,
        final(ctx)@.bytes == old(ctx)@.bytes + put_slots(base@, seats(subscribers@), key@),
        put_slots(base@, seats(subscribers@), key@).len() == slots_len(seats(subscribers@)),
        final(ctx).wf(),
{
    let ghost all = seats(subscribers@);
    let mut i: usize = 0;
    ctx.restore(*base);
    assert(ctx@.bytes =~= old(ctx)@.bytes + put_slots(base@, all.take(0), key@));
    while i < subscribers.len()
        invariant
            i <= subscribers.len(),
            all == seats(subscribers@),
            base.wf(),
            ctx.wf(),
            ctx@.sponge == base@,
            ctx@.bytes == old(ctx)@.bytes + put_slots(base@, all.take(i as int), key@),
            put_slots(base@, all.take(i as int), key@).len() == slots_len(all.take(i as int)),
        decreases subscribers.len() - i,
    {
        proof {
            assert(all.take(i + 1).drop_last() =~= all.take(i as int));
            assert(all.take(i + 1).last() == subscribers[i as int]@);
            subscribers[i as int].permission.lemma_wf();
            lemma_take_put_permission(
                base@,
                Mode::Mask,
                subscribers[i as int].permission@,
                Seq::empty(),
            );
        }
        let r = &subscribers[i];
        r.permission.wrap(ctx, Mode::Mask);
        seal(ctx, &r.ephemeral, &r.ke_pk, key);
        ctx.restore(*base);
        proof {
            assert(ctx@.bytes =~= old(ctx)@.bytes + put_slots(base@, all.take(i + 1), key@));
        }
        i = i + 1;
    }
    assert(all.take(i as int) =~= all);
}

fn wrap_psk_slots(ctx: &mut wrap::Context, base: &Spongos, psks: &[(PskId, Psk)], key: &[u8; 32])
    requires
        old(ctx).wf(),
        base.wf(),
    ensures
        final(ctx)@.sponge == base@,
        final(ctx)@.bytes == old(ctx)@.bytes + put_psk_slots(base@, psk_pairs(psks@), key@),
        put_psk_slots(base@, psk_pairs(psks@), key@).len() == psks@.len() * psk_slot_len(),
        final(ctx).wf(),
{
    let ghost all = psk_pairs(psks@);
    let mut i: usize = 0;
    ctx.restore(*base);
    assert(ctx@.bytes =~= old(ctx)@.bytes + put_psk_slots(base@, all.take(0), key@));
    while i < psks.len()
        invariant
            i <= psks.len(),
            all == psk_pairs(psks@),
            base.wf(),
            ctx.wf(),
            ctx@.sponge == base@,
            ctx@.bytes == old(ctx)@.bytes + put_psk_slots(base@, all.take(i as int), key@),
            put_psk_slots(base@, all.take(i as int), key@).len() == i * psk_slot_len(),
        decreases psks.len() - i,
    {
        proof {
            assert(all.take(i + 1).drop_last() =~= all.take(i as int));
            assert(all.take(i + 1).last() == (psks[i as int].0@, psks[i as int].1@));
            lemma_put_wf(base@, Mode::Mask, psks[i as int].0@);
        }
        let pskid = psks[i].0.to_bytes();
        let psk = psks[i].1.to_bytes();
        ctx.put(Mode::Mask, pskid.as_slice());
        ctx.absorb_external(psk.as_slice());
        ctx.commit();
        proof {
            lemma_put_wf(ctx@.sponge, Mode::Mask, key@);
        }
        ctx.put(Mode::Mask, key.as_slice());
        ctx.restore(*base);
        proof {
            assert(ctx@.bytes =~= old(ctx)@.bytes + put_psk_slots(base@, all.take(i + 1), key@));
            assert((i + 1) * psk_slot_len() == i * psk_slot_len() + psk_slot_len()) by (nonlinear_arith);
        }
        i = i + 1;
    }
    assert(all.take(i as int) =~= all);
}

/// The keyload that an author writes.
pub struct Wrap<'a> {
    initial_state: Spongos,
    subscribers: &'a [Recipient],
    psks: &'a [(PskId, Psk)],
    key: [u8; 32],
    nonce: [u8; 16],
    user_id: UserIdentity,
}

impl<'a> Wrap<'a> {
    /// What the keyload is made of.
    pub closed spec fn load(&self) -> Load {
        Load {
            initial: self.initial_state@,
            nonce: self.nonce@,
            subscribers: seats(self.subscribers@),
            psks: psk_pairs(self.psks@),
            key: self.key@,
        }
    }

    /// The author.
    pub closed spec fn spec_user_id(&self) -> UserIdentity {
        self.user_id
    }

    /// The keyload of `user_id` that hands `key` to `subscribers` and to the
    /// holders of `psks`, linked to the announcement whose sponge is
    /// `initial_state`.
    pub fn new(
        initial_state: &Spongos,
        subscribers: &'a [Recipient],
        psks: &'a [(PskId, Psk)],
        key: [u8; 32],
        nonce: [u8; 16],
        user_id: &UserIdentity,
    ) -> (r: Wrap<'a>)
        ensures
            r.load() == (Load {
                initial: initial_state@,
                nonce: nonce@,
                subscribers: seats(subscribers@),
                psks: psk_pairs(psks@),
                key: key@,
            }),
            r.spec_user_id() == *user_id,
    {
        Wrap { initial_state: *initial_state, subscribers, psks, key, nonce, user_id: *user_id }
    }
}

impl<'a> ContentWrap for Wrap<'a> {
    open spec fn wf(&self) -> bool {
        self.load().initial.wf()
    }

    open spec fn refusal(&self) -> Option<Error> {
        match self.spec_user_id().keys {
            Keys::Keypair(_) => None,
            Keys::Psk(_) => Some(Error::NoSignatureKeyPair),
        }
    }

    open spec fn spec_size(&self) -> nat {
        keyload_len(self.load())
    }

    open spec fn spec_wire(&self, s: Sponge) -> (Sponge, Seq<u8>) {
        match self.spec_user_id().keys {
            Keys::Keypair(kp) => put_keyload(s, self.load(), kp.sig.0@),
            Keys::Psk(_) => (s, Seq::empty()),
        }
    }

    fn sizeof(&self, ctx: &mut sizeof::Context) -> (r: Result<(), Error>) {
        match &self.user_id.keys {
            Keys::Keypair(_) => {
                proof {
                    assert(psk_slot_len() == 48);
                }
                ctx.add(NONCE_SIZE)?;
                ctx.add_size(self.subscribers.len() as u64)?;
                sizeof_slots(ctx, self.subscribers)?;
                ctx.add_size(self.psks.len() as u64)?;
                match self.psks.len().checked_mul(48) {
                    Some(n) => {
                        ctx.add(n)?;
                    },
                    None => {
                        return Err(Error::SizeOverflow);
                    },
                }
                self.user_id.sizeof(ctx)
            },
            Keys::Psk(_) => Err(Error::NoSignatureKeyPair),
        }
    }

    #[verifier::rlimit(40)]
    fn wrap(&self, ctx: &mut wrap::Context) -> (r: Result<(), Error>) {
        match &self.user_id.keys {
            Keys::Keypair(kp) => {
                let ghost s = ctx@.sponge;
                let n: usize = self.subscribers.len();
                let m: usize = self.psks.len();
                ctx.join(&self.initial_state);
                proof {
                    lemma_join_wf(s, self.initial_state@);
                    lemma_put_wf(ctx@.sponge, Mode::Absorb, self.nonce@);
                }
                ctx.put(Mode::Absorb, self.nonce.as_slice());
                let base = ctx.spongos();
                proof {
                    lemma_take_put_size(base@, Mode::Skip, n as u64, Seq::empty());
                    lemma_take_put_size(base@, Mode::Skip, m as u64, Seq::empty());
                }
                ctx.put_size(Mode::Skip, n as u64);
                wrap_slots(ctx, &base, self.subscribers, &self.key);
                ctx.put_size(Mode::Skip, m as u64);
                wrap_psk_slots(ctx, &base, self.psks, &self.key);
                ctx.absorb_external(self.key.as_slice());
                ctx.commit();
                proof {
                    assert(ctx@.sponge == keyload_sealed(s, self.load()));
                    assert(ctx@.bytes =~= old(ctx)@.bytes + put_keyload_body(s, self.load()));
                }
                self.user_id.sign(ctx)?;
                proof {
                    assert(ctx@.bytes =~= old(ctx)@.after(self.spec_wire(s)).bytes);
                }
                Ok(())
            },
            Keys::Psk(_) => Err(Error::NoSignatureKeyPair),
        }
    }
}

/// The reader that an identity makes, for the reading of slots: the
/// identifier and the key-exchange secret key.
pub open spec fn reader_view(me: Option<(Identifier, [u8; 32])>) -> Option<Reader> {
    match me {
        Some(m) => Some(Reader { id: m.0@, ke_sk: m.1@ }),
        None => None,
    }
}

fn unwrap_slot(ctx: &mut unwrap::Context, base: &Spongos, me: &Option<(Identifier, [u8; 32])>) -> (r:
    Result<(Permissioned<Identifier>, Option<[u8; 32]>), Error>)
    requires
        old(ctx).wf(),
        base.wf(),
        old(ctx)@.sponge == base@,
    ensures
        final(ctx)@.follows(
            take_slot(base@, reader_view(*me), old(ctx)@.bytes),
            match r {
                Ok(v) => Ok::<Slot<Permission>, Error>(Slot { owner: v.0@, key: key_view(v.1) }),
                Err(e) => Err::<Slot<Permission>, Error>(e),
            },
        ),
        final(ctx).wf(),
{
    let permission = Permissioned::<Identifier>::unwrap(ctx, Mode::Mask)?;
    let mine = match me {
        Some(m) => permission.identifier().same(&m.0),
        None => false,
    };
    let key = if mine {
        match me {
            Some(m) => Some(unseal(ctx, &m.1)?),
            None => None,
        }
    } else {
        ctx.take(Mode::Skip, 64)?;
        None
    };
    ctx.restore(*base);
    Ok((permission, key))
}

fn unwrap_slots(
    ctx: &mut unwrap::Context,
    base: &Spongos,
    me: &Option<(Identifier, [u8; 32])>,
    n: u64,
) -> (r: Result<(Vec<Permissioned<Identifier>>, Option<[u8; 32]>), Error>)
    requires
        old(ctx).wf(),
        base.wf(),
    ensures
        final(ctx)@.follows(
            take_slots(base@, reader_view(*me), n as nat, old(ctx)@.bytes),
            match r {
                Ok(v) => Ok::<Slot<Seq<Permission>>, Error>(
                    Slot { owner: permission_views(v.0@), key: key_view(v.1) },
                ),
                Err(e) => Err::<Slot<Seq<Permission>>, Error>(e),
            },
        ),
        final(ctx).wf(),
{
    let ghost input = ctx@.bytes;
    let ghost reader = reader_view(*me);
    let mut owners: Vec<Permissioned<Identifier>> = Vec::new();
    let mut found: Option<[u8; 32]> = None;
    let mut i: u64 = 0;
    ctx.restore(*base);
    assert(permission_views(owners@) =~= Seq::<Permission>::empty());
    while i < n
        invariant
            i <= n,
            base.wf(),
            ctx.wf(),
            ctx@.sponge == base@,
            reader == reader_view(*me),
            input == old(ctx)@.bytes,
            take_slots(base@, reader, i as nat, input) == Ok::<Taken<Slot<Seq<Permission>>>, Error>(
                Taken {
                    sponge: base@,
                    value: Slot { owner: permission_views(owners@), key: key_view(found) },
                    rest: ctx@.bytes,
                },
            ),
        decreases n - i,
    {
        let ghost before = owners@;
        let ghost rest = ctx@.bytes;
        match unwrap_slot(ctx, base, me) {
            Ok((permission, key)) => {
                owners.push(permission);
                if found.is_none() {
                    found = key;
                }
                proof {
                    assert(permission_views(owners@) =~= permission_views(before).push(permission@));
                }
            },
            Err(e) => {
                proof {
                    assert(take_slot(base@, reader, rest) is Err);
                    assert(take_slot(base@, reader, rest)->Err_0 == e);
                    assert(take_slots(base@, reader, (i + 1) as nat, input) is Err);
                    assert(take_slots(base@, reader, (i + 1) as nat, input)->Err_0 == e);
                    lemma_take_slots_err(base@, reader, (i + 1) as nat, n as nat, input);
                }
                return Err(e);
            },
        }
        i = i + 1;
    }
    Ok((owners, found))
}

fn unwrap_psk_slot(ctx: &mut unwrap::Context, base: &Spongos, psks: &KeyStore) -> (r: Result<
    (PskId, Option<[u8; 32]>),
    Error,
>)
    requires
        old(ctx).wf(),
        base.wf(),
        psks.wf(),
        old(ctx)@.sponge == base@,
    ensures
        final(ctx)@.follows(
            take_psk_slot(base@, psks@, old(ctx)@.bytes),
            match r {
                Ok(v) => Ok::<Slot<Seq<u8>>, Error>(Slot { owner: v.0@, key: key_view(v.1) }),
                Err(e) => Err::<Slot<Seq<u8>>, Error>(e),
            },
        ),
        final(ctx).wf(),
{
    let id = ctx.take(Mode::Mask, PSKID_SIZE)?;
    let key = match psks.get(&id) {
        Some(psk) => {
            ctx.absorb_external(psk.as_slice());
            ctx.commit();
            let k = ctx.take(Mode::Mask, KEY_SIZE)?;
            Some(array_from::<32>(k.as_slice()))
        },
        None => {
            ctx.take(Mode::Skip, KEY_SIZE)?;
            None
        },
    };
    ctx.restore(*base);
    Ok((PskId::new(array_from::<16>(id.as_slice())), key))
}

fn unwrap_psk_slots(ctx: &mut unwrap::Context, base: &Spongos, psks: &KeyStore, n: u64) -> (r:
    Result<(Vec<PskId>, Option<[u8; 32]>), Error>)
    requires
        old(ctx).wf(),
        base.wf(),
        psks.wf(),
    ensures
        final(ctx)@.follows(
            take_psk_slots(base@, psks@, n as nat, old(ctx)@.bytes),
            match r {
                Ok(v) => Ok::<Slot<Seq<Seq<u8>>>, Error>(
                    Slot { owner: pskid_views(v.0@), key: key_view(v.1) },
                ),
                Err(e) => Err::<Slot<Seq<Seq<u8>>>, Error>(e),
            },
        ),
        final(ctx).wf(),
{
    let ghost input = ctx@.bytes;
    let mut owners: Vec<PskId> = Vec::new();
    let mut found: Option<[u8; 32]> = None;
    let mut i: u64 = 0;
    ctx.restore(*base);
    assert(pskid_views(owners@) =~= Seq::<Seq<u8>>::empty());
    while i < n
        invariant
            i <= n,
            base.wf(),
            psks.wf(),
            ctx.wf(),
            ctx@.sponge == base@,
            input == old(ctx)@.bytes,
            take_psk_slots(base@, psks@, i as nat, input) == Ok::<
                Taken<Slot<Seq<Seq<u8>>>>,
                Error,
            >(
                Taken {
                    sponge: base@,
                    value: Slot { owner: pskid_views(owners@), key: key_view(found) },
                    rest: ctx@.bytes,
                },
            ),
        decreases n - i,
    {
        let ghost before = owners@;
        let ghost rest = ctx@.bytes;
        match unwrap_psk_slot(ctx, base, psks) {
            Ok((pskid, key)) => {
                owners.push(pskid);
                if found.is_none() {
                    found = key;
                }
                proof {
                    assert(pskid_views(owners@) =~= pskid_views(before).push(pskid@));
                }
            },
            Err(e) => {
                proof {
                    assert(take_psk_slot(base@, psks@, rest) is Err);
                    assert(take_psk_slot(base@, psks@, rest)->Err_0 == e);
                    assert(take_psk_slots(base@, psks@, (i + 1) as nat, input) is Err);
                    assert(take_psk_slots(base@, psks@, (i + 1) as nat, input)->Err_0 == e);
                    lemma_take_psk_slots_err(base@, psks@, (i + 1) as nat, n as nat, input);
                }
                return Err(e);
            },
        }
        i = i + 1;
    }
    Ok((owners, found))
}

/// The keyload that a reader reads.
pub struct Unwrap<'a> {
    initial_state: Spongos,
    user_id: Option<UserIdentity>,
    author_id: Identifier,
    psk_store: &'a KeyStore,
    nonce: [u8; 16],
    subscribers: Vec<Permissioned<Identifier>>,
    psks: Vec<PskId>,
    key: Option<[u8; 32]>,
}

impl<'a> Unwrap<'a> {
    /// The sponge of the announcement.
    pub closed spec fn spec_initial_state(&self) -> Spongos {
        self.initial_state
    }

    /// The reader.
    pub closed spec fn spec_user_id(&self) -> Option<UserIdentity> {
        self.user_id
    }

    /// The author whose signature is checked.
    pub closed spec fn spec_author_id(&self) -> Identifier {
        self.author_id
    }

    /// The pre-shared keys that the reader holds.
    pub closed spec fn spec_psk_store(&self) -> KeyStore {
        *self.psk_store
    }

    /// The subscribers that the keyload is for.
    pub closed spec fn spec_subscribers(&self) -> Seq<Permissioned<Identifier>> {
        self.subscribers@
    }

    /// What the keyload says to the reader.
    pub closed spec fn said(&self) -> Keyload {
        Keyload {
            nonce: self.nonce@,
            subscribers: permission_views(self.subscribers@),
            psks: pskid_views(self.psks@),
            key: key_view(self.key),
        }
    }

    /// What was read is what the subscribers are.
    pub proof fn lemma_said(&self)
        ensures
            self.said().subscribers == permission_views(self.spec_subscribers()),
    {
    }

    /// A keyload of `author_id` that has not been read yet, linked to the
    /// announcement whose sponge is `initial_state`, to be read by `user_id`
    /// with the pre-shared keys of `psk_store`; it names nobody and holds no
    /// key.
    pub fn new(
        initial_state: &Spongos,
        user_id: Option<&UserIdentity>,
        author_id: Identifier,
        psk_store: &'a KeyStore,
    ) -> (r: Unwrap<'a>)
        ensures
            r.spec_initial_state() == *initial_state,
            r.spec_user_id() == match user_id {
                Some(u) => Some(*u),
                None => None,
            },
            r.spec_author_id() == author_id,
            r.spec_psk_store() == *psk_store,
            r.spec_subscribers() == Seq::<Permissioned<Identifier>>::empty(),
            r.said() == (Keyload {
                nonce: crate::id::identifier::zeros(NONCE_SIZE as nat),
                subscribers: Seq::empty(),
                psks: Seq::empty(),
                key: None,
            }),
    {
        let nonce = [0u8; 16];
        assert(nonce@ =~= crate::id::identifier::zeros(NONCE_SIZE as nat));
        let r = Unwrap {
            initial_state: *initial_state,
            user_id: match user_id {
                Some(u) => Some(*u),
                None => None,
            },
            author_id,
            psk_store,
            nonce,
            subscribers: Vec::new(),
            psks: Vec::new(),
            key: None,
        };
        assert(permission_views(r.subscribers@) =~= Seq::<Permission>::empty());
        assert(pskid_views(r.psks@) =~= Seq::<Seq<u8>>::empty());
        r
    }

    /// The subscribers that the keyload is for.
    pub fn subscribers(&self) -> (r: &Vec<Permissioned<Identifier>>)
        ensures
            r@ == self.spec_subscribers(),
    {
        &self.subscribers
    }

    /// The pre-shared keys that the keyload is for, by their identifiers.
    pub fn psks(&self) -> (r: &Vec<PskId>)
        ensures
            pskid_views(r@) == self.said().psks,
    {
        &self.psks
    }

    /// The key, if the reader is among those that the keyload is for.
    pub fn key(&self) -> (r: Option<[u8; 32]>)
        ensures
            key_view(r) == self.said().key,
    {
        self.key
    }

    /// Who the keyload is for, out of it: the subscribers and the
    /// identifiers of the pre-shared keys.
    pub fn into_recipients(self) -> (r: (Vec<Permissioned<Identifier>>, Vec<PskId>))
        ensures
            r.0@ == self.spec_subscribers(),
            pskid_views(r.1@) == self.said().psks,
    {
        (self.subscribers, self.psks)
    }

    /// The nonce.
    pub fn nonce(&self) -> (r: [u8; 16])
        ensures
            r@ == self.said().nonce,
    {
        self.nonce
    }

    /// Reads the keyload; checks the author's signature where the reader
    /// found the key.
    #[verifier::rlimit(40)]
    pub fn unwrap(&mut self, ctx: &mut unwrap::Context) -> (r: Result<(), Error>)
        requires
            old(ctx).wf(),
            old(self).spec_initial_state().wf(),
            old(self).spec_psk_store().wf(),
        ensures
            final(ctx)@.follows(
                take_keyload(
                    old(ctx)@.sponge,
                    old(self).spec_initial_state()@,
                    reader_of(old(self).spec_user_id()),
                    old(self).spec_psk_store()@,
                    old(self).spec_author_id()@,
                    old(ctx)@.bytes,
                ),
                match r {
                    Ok(()) => Ok::<Keyload, Error>(final(self).said()),
                    Err(e) => Err::<Keyload, Error>(e),
                },
            ),
            final(ctx).wf(),
    {
        let me: Option<(Identifier, [u8; 32])> = match &self.user_id {
            Some(user) => match &user.keys {
                Keys::Keypair(kp) => Some((user.id, kp.key_exchange.0)),
                Keys::Psk(_) => None,
            },
            None => None,
        };
        assert(reader_view(me) == reader_of(self.user_id));
        ctx.join(&self.initial_state);
        let nonce = ctx.take(Mode::Absorb, NONCE_SIZE)?;
        let base = ctx.spongos();
        let n = ctx.take_size(Mode::Skip)?;
        let (subscribers, found) = unwrap_slots(ctx, &base, &me, n)?;
        let m = ctx.take_size(Mode::Skip)?;
        let (psks, found_by_psk) = unwrap_psk_slots(ctx, &base, self.psk_store, m)?;
        let key = if found.is_some() {
            found
        } else {
            found_by_psk
        };
        match key {
            Some(k) => {
                ctx.absorb_external(k.as_slice());
                ctx.commit();
                self.author_id.verify(ctx)?;
            },
            None => {
                ctx.commit();
                ctx.take(Mode::Skip, 65)?;
            },
        }
        self.nonce = array_from::<16>(nonce.as_slice());
        self.subscribers = subscribers;
        self.psks = psks;
        self.key = key;
        Ok(())
    }
}

/// Whether a slot is the reader's: it holds their identifier.
pub open spec fn mine(me: Option<Reader>, seat: Seat) -> bool {
    me is Some && seat.permission.id == me->0.id
}

/// The key that a reader finds in the slots of the subscribers: `key` where
/// one of the slots is theirs.
pub open spec fn opened(me: Option<Reader>, seats: Seq<Seat>, key: Seq<u8>) -> Option<Seq<u8>>
    decreases seats.len(),
{
    if seats.len() == 0 {
        None
    } else {
        first_key(
            opened(me, seats.drop_last(), key),
            if mine(me, seats.last()) {
                Some(key)
            } else {
                None
            },
        )
    }
}

/// The key that a reader finds in the slots of the pre-shared keys: `key`
/// where they hold one of the pre-shared keys.
pub open spec fn opened_by_psk(
    held: Map<Seq<u8>, Seq<u8>>,
    ps: Seq<(Seq<u8>, Seq<u8>)>,
    key: Seq<u8>,
) -> Option<Seq<u8>>
    decreases ps.len(),
{
    if ps.len() == 0 {
        None
    } else {
        first_key(
            opened_by_psk(held, ps.drop_last(), key),
            if held.contains_key(ps.last().0) {
                Some(key)
            } else {
                None
            },
        )
    }
}

/// The permissions of the subscribers.
pub open spec fn permissions_of(seats: Seq<Seat>) -> Seq<Permission> {
    Seq::new(seats.len(), |i: int| seats[i].permission)
}

/// The identifiers of the pre-shared keys.
pub open spec fn pskids_of(ps: Seq<(Seq<u8>, Seq<u8>)>) -> Seq<Seq<u8>> {
    Seq::new(ps.len(), |i: int| ps[i].0)
}

/// Whether the slot of a subscriber can be read back by `me`: the
/// permission is well formed, the one-time public key has its width, and
/// where the slot is the reader's, the two agree on the shared secret.
pub open spec fn readable(me: Option<Reader>, seat: Seat) -> bool {
    &&& seat.permission.wf()
    &&& crate::crypto::x25519_public_spec(seat.ephemeral).len() == KEY_SIZE
    &&& mine(me, seat) ==> crate::ddml::x25519::agree(seat.ephemeral, me->0.ke_sk, seat.ke_pk)
}

/// Whether the slot of a pre-shared key can be read back by a holder of
/// `held`: the widths are right, and where the reader holds a key under the
/// identifier, it is this key.
pub open spec fn readable_psk(held: Map<Seq<u8>, Seq<u8>>, p: (Seq<u8>, Seq<u8>)) -> bool {
    &&& p.0.len() == PSKID_SIZE
    &&& p.1.len() == PSK_SIZE
    &&& held.contains_key(p.0) ==> held[p.0] == p.1
}

/// A sealed key takes 64 bytes, whoever it is for.
pub proof fn lemma_sealed_len(s: Sponge, ephemeral: Seq<u8>, recipient: Seq<u8>, key: Seq<u8>)
    requires
        s.wf(),
        key.len() == KEY_SIZE,
        crate::crypto::x25519_public_spec(ephemeral).len() == KEY_SIZE,
    ensures
        put_sealed(s, ephemeral, recipient, key).1.len() == sealed_len(),
{
    let pk = crate::crypto::x25519_public_spec(ephemeral);
    let (s1, a) = put(s, Mode::Absorb, pk);
    let s2 = s1.absorb(crate::crypto::x25519_shared_spec(ephemeral, recipient)).commit();
    lemma_put_wf(s, Mode::Absorb, pk);
    lemma_absorb_wf(s1, crate::crypto::x25519_shared_spec(ephemeral, recipient));
    lemma_put_wf(s2, Mode::Mask, key);
}

/// The slot of a subscriber read back: the reader opens it where it is
/// theirs and passes over it where it is not.
pub proof fn lemma_take_put_slot(
    k: Sponge,
    me: Option<Reader>,
    seat: Seat,
    key: Seq<u8>,
    rest: Seq<u8>,
)
    requires
        k.wf(),
        key.len() == KEY_SIZE,
        readable(me, seat),
    ensures
        take_slot(k, me, put_slot(k, seat, key) + rest) == Ok::<Taken<Slot<Permission>>, Error>(
            Taken {
                sponge: k,
                value: Slot {
                    owner: seat.permission,
                    key: if mine(me, seat) {
                        Some(key)
                    } else {
                        None
                    },
                },
                rest,
            },
        ),
        put_slot(k, seat, key).len() == slot_len(seat),
{
    let (t1, x) = put_permission(k, Mode::Mask, seat.permission);
    let (t2, y) = put_sealed(t1, seat.ephemeral, seat.ke_pk, key);
    lemma_take_put_permission(k, Mode::Mask, seat.permission, y + rest);
    lemma_sealed_len(t1, seat.ephemeral, seat.ke_pk, key);
    assert((x + y) + rest =~= x + (y + rest));
    if mine(me, seat) {
        crate::ddml::x25519::lemma_take_put_sealed(
            t1,
            seat.ephemeral,
            me->0.ke_sk,
            seat.ke_pk,
            key,
            rest,
        );
    } else {
        reveal(put);
        assert(put(t1, Mode::Skip, y) == (t1, y));
        lemma_take_put(t1, Mode::Skip, y, rest);
    }
}

/// The slots of the subscribers read back.
pub proof fn lemma_take_put_slots(
    k: Sponge,
    me: Option<Reader>,
    seats: Seq<Seat>,
    key: Seq<u8>,
    rest: Seq<u8>,
)
    requires
        k.wf(),
        key.len() == KEY_SIZE,
        forall|i: int| 0 <= i < seats.len() ==> readable(me, #[trigger] seats[i]),
    ensures
        take_slots(k, me, seats.len(), put_slots(k, seats, key) + rest) == Ok::<
            Taken<Slot<Seq<Permission>>>,
            Error,
        >(
            Taken {
                sponge: k,
                value: Slot { owner: permissions_of(seats), key: opened(me, seats, key) },
                rest,
            },
        ),
        put_slots(k, seats, key).len() == slots_len(seats),
    decreases seats.len(),
{
    if seats.len() == 0 {
        assert(put_slots(k, seats, key) + rest =~= rest);
        assert(permissions_of(seats) =~= Seq::<Permission>::empty());
    } else {
        let front = seats.drop_last();
        let last = seats.last();
        let a = put_slots(k, front, key);
        let b = put_slot(k, last, key);
        assert(readable(me, seats[seats.len() - 1]));
        assert forall|i: int| 0 <= i < front.len() implies readable(me, #[trigger] front[i]) by {
            assert(front[i] == seats[i]);
        }
        lemma_take_put_slots(k, me, front, key, b + rest);
        lemma_take_put_slot(k, me, last, key, rest);
        assert((a + b) + rest =~= a + (b + rest));
        assert(permissions_of(seats) =~= permissions_of(front).push(last.permission));
    }
}

/// The slot of a pre-shared key read back: the reader opens it where they
/// hold the pre-shared key and passes over it where they do not.
pub proof fn lemma_take_put_psk_slot(
    k: Sponge,
    held: Map<Seq<u8>, Seq<u8>>,
    p: (Seq<u8>, Seq<u8>),
    key: Seq<u8>,
    rest: Seq<u8>,
)
    requires
        k.wf(),
        key.len() == KEY_SIZE,
        readable_psk(held, p),
    ensures
        take_psk_slot(k, held, put_psk_slot(k, p.0, p.1, key) + rest) == Ok::<
            Taken<Slot<Seq<u8>>>,
            Error,
        >(
            Taken {
                sponge: k,
                value: Slot {
                    owner: p.0,
                    key: if held.contains_key(p.0) {
                        Some(key)
                    } else {
                        None
                    },
                },
                rest,
            },
        ),
        put_psk_slot(k, p.0, p.1, key).len() == psk_slot_len(),
{
    let (t1, x) = put(k, Mode::Mask, p.0);
    let t2 = t1.absorb(p.1).commit();
    let (t3, y) = put(t2, Mode::Mask, key);
    lemma_put_wf(k, Mode::Mask, p.0);
    lemma_take_put(k, Mode::Mask, p.0, y + rest);
    lemma_absorb_wf(t1, p.1);
    lemma_put_wf(t2, Mode::Mask, key);
    assert((x + y) + rest =~= x + (y + rest));
    if held.contains_key(p.0) {
        lemma_take_put(t2, Mode::Mask, key, rest);
    } else {
        reveal(put);
        assert(put(t1, Mode::Skip, y) == (t1, y));
        lemma_take_put(t1, Mode::Skip, y, rest);
    }
}

/// The slots of the pre-shared keys read back.
pub proof fn lemma_take_put_psk_slots(
    k: Sponge,
    held: Map<Seq<u8>, Seq<u8>>,
    ps: Seq<(Seq<u8>, Seq<u8>)>,
    key: Seq<u8>,
    rest: Seq<u8>,
)
    requires
        k.wf(),
        key.len() == KEY_SIZE,
        forall|i: int| 0 <= i < ps.len() ==> readable_psk(held, #[trigger] ps[i]),
    ensures
        take_psk_slots(k, held, ps.len(), put_psk_slots(k, ps, key) + rest) == Ok::<
            Taken<Slot<Seq<Seq<u8>>>>,
            Error,
        >(
            Taken {
                sponge: k,
                value: Slot { owner: pskids_of(ps), key: opened_by_psk(held, ps, key) },
                rest,
            },
        ),
        put_psk_slots(k, ps, key).len() == ps.len() * psk_slot_len(),
    decreases ps.len(),
{
    if ps.len() == 0 {
        assert(put_psk_slots(k, ps, key) + rest =~= rest);
        assert(pskids_of(ps) =~= Seq::<Seq<u8>>::empty());
    } else {
        let front = ps.drop_last();
        let last = ps.last();
        let a = put_psk_slots(k, front, key);
        let b = put_psk_slot(k, last.0, last.1, key);
        assert(readable_psk(held, ps[ps.len() - 1]));
        assert forall|i: int| 0 <= i < front.len() implies readable_psk(held, #[trigger] front[i]) by {
            assert(front[i] == ps[i]);
        }
        lemma_take_put_psk_slots(k, held, front, key, b + rest);
        lemma_take_put_psk_slot(k, held, last, key, rest);
        assert((a + b) + rest =~= a + (b + rest));
        assert(pskids_of(ps) =~= pskids_of(front).push(last.0));
        assert(ps.len() * psk_slot_len() == front.len() * psk_slot_len() + psk_slot_len())
            by (nonlinear_arith)
            requires
                ps.len() == front.len() + 1,
        ;
    }
}

/// The key that a reader recovers from a keyload: `key` where a slot of a
/// subscriber or of a pre-shared key is theirs, none otherwise.
pub open spec fn recovered(me: Option<Reader>, held: Map<Seq<u8>, Seq<u8>>, load: Load) -> Option<
    Seq<u8>,
> {
    first_key(opened(me, load.subscribers, load.key), opened_by_psk(held, load.psks, load.key))
}

/// Whether a keyload can be read back by the reader `me` who holds the
/// pre-shared keys `held`.
pub open spec fn readable_load(me: Option<Reader>, held: Map<Seq<u8>, Seq<u8>>, load: Load) -> bool {
    &&& load.initial.wf()
    &&& load.nonce.len() == NONCE_SIZE
    &&& load.key.len() == KEY_SIZE
    &&& load.subscribers.len() <= u64::MAX
    &&& load.psks.len() <= u64::MAX
    &&& forall|i: int| 0 <= i < load.subscribers.len() ==> readable(me, #[trigger] load.subscribers[i])
    &&& forall|i: int| 0 <= i < load.psks.len() ==> readable_psk(held, #[trigger] load.psks[i])
}

/// A keyload read back. A reader who is among those that the keyload is for
/// recovers the key and, where the author's signature verifies, ends with
/// the sponge that writing left. A reader who is not among them recovers no
/// key and ends with another sponge: the base committed without the key.
#[verifier::rlimit(40)]
pub proof fn lemma_take_put_keyload(
    s: Sponge,
    load: Load,
    secret: Seq<u8>,
    public: Seq<u8>,
    me: Option<Reader>,
    held: Map<Seq<u8>, Seq<u8>>,
    rest: Seq<u8>,
)
    requires
        s.wf(),
        readable_load(me, held, load),
        crate::id::identity::signs(keyload_sealed(s, load), secret, public),
    ensures
        take_keyload(
            s,
            load.initial,
            me,
            held,
            seq![crate::id::identifier::TAG_ED25519] + public,
            put_keyload(s, load, secret).1 + rest,
        ) == Ok::<Taken<Keyload>, Error>(
            Taken {
                sponge: if recovered(me, held, load) is Some {
                    put_keyload(s, load, secret).0
                } else {
                    keyload_base(s, load.initial, load.nonce).commit()
                },
                value: Keyload {
                    nonce: load.nonce,
                    subscribers: permissions_of(load.subscribers),
                    psks: pskids_of(load.psks),
                    key: recovered(me, held, load),
                },
                rest,
            },
        ),
        recovered(me, held, load) is Some ==> recovered(me, held, load) == Some(load.key),
{
    lemma_join_wf(s, load.initial);
    let (k, a) = put(s.join(load.initial), Mode::Absorb, load.nonce);
    let b = put_size(k, Mode::Skip, load.subscribers.len() as u64).1;
    let c = put_slots(k, load.subscribers, load.key);
    let d = put_size(k, Mode::Skip, load.psks.len() as u64).1;
    let e = put_psk_slots(k, load.psks, load.key);
    let (s1, f) = put_signature(keyload_sealed(s, load), secret);
    lemma_put_wf(s.join(load.initial), Mode::Absorb, load.nonce);
    lemma_take_put(s.join(load.initial), Mode::Absorb, load.nonce, b + c + d + e + f + rest);
    lemma_skipped_size(k, load.subscribers.len() as u64, c + d + e + f + rest);
    lemma_take_put_slots(k, me, load.subscribers, load.key, d + e + f + rest);
    lemma_skipped_size(k, load.psks.len() as u64, e + f + rest);
    lemma_take_put_psk_slots(k, held, load.psks, load.key, f + rest);
    lemma_absorb_wf(k, load.key);
    crate::id::identity::lemma_take_put_signature(keyload_sealed(s, load), secret, public, rest);
    lemma_opened(me, load.subscribers, load.key);
    lemma_opened_by_psk(held, load.psks, load.key);
    assert((a + b + c + d + e + f) + rest =~= a + (b + c + d + e + f + rest));
    assert(b + c + d + e + f + rest =~= b + (c + d + e + f + rest));
    assert(c + d + e + f + rest =~= c + (d + e + f + rest));
    assert(d + e + f + rest =~= d + (e + f + rest));
    assert(e + f + rest =~= e + (f + rest));
    if recovered(me, held, load) is None {
        reveal(put);
        assert(put(k.commit(), Mode::Skip, f) == (k.commit(), f));
        lemma_take_put(k.commit(), Mode::Skip, f, rest);
    }
}

/// A size that is skipped leaves the sponge as it was.
pub proof fn lemma_skipped_size(k: Sponge, n: u64, rest: Seq<u8>)
    requires
        k.wf(),
    ensures
        take_size(k, Mode::Skip, put_size(k, Mode::Skip, n).1 + rest) == Ok::<Taken<u64>, Error>(
            Taken { sponge: k, value: n, rest },
        ),
{
    lemma_take_put_size(k, Mode::Skip, n, rest);
    reveal(put);
}

/// The key that a reader finds in the slots of the subscribers is the key
/// of the keyload.
pub proof fn lemma_opened(me: Option<Reader>, seats: Seq<Seat>, key: Seq<u8>)
    ensures
        opened(me, seats, key) is Some ==> opened(me, seats, key) == Some(key),
    decreases seats.len(),
{
    if seats.len() > 0 {
        lemma_opened(me, seats.drop_last(), key);
    }
}

/// The key that a reader finds in the slots of the pre-shared keys is the
/// key of the keyload.
pub proof fn lemma_opened_by_psk(held: Map<Seq<u8>, Seq<u8>>, ps: Seq<(Seq<u8>, Seq<u8>)>, key: Seq<u8>)
    ensures
        opened_by_psk(held, ps, key) is Some ==> opened_by_psk(held, ps, key) == Some(key),
    decreases ps.len(),
{
    if ps.len() > 0 {
        lemma_opened_by_psk(held, ps.drop_last(), key);
    }
}

} // verus!
