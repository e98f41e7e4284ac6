//! What a user keeps of a stream.

use vstd::prelude::*;
use crate::address::Address;
use crate::address::MsgId;
use crate::crypto::x25519_public_of_ed25519_spec;
use crate::error::Error;
use crate::id::identifier::Identifier;
use crate::id::identifier::is_identifier;
use crate::id::identifier::TAG_ED25519;
use crate::id::identity::Keys;
use crate::id::identity::UserIdentity;
use crate::id::permission::Permission;
use crate::id::permission::Permissioned;
use crate::id::psk::Psk;
use crate::id::psk::PskId;
use crate::id::psk::pskid_of;
use crate::id::psk::PSKID_SIZE;
use crate::order::sort_keys;
use crate::order::sorted_keys;
use crate::order::sorted_listing;
use crate::spongos::Sponge;
use crate::store::CursorStore;
use crate::store::key_views;
use crate::store::KeyStore;
use crate::store::SpongosStore;

verus! {

/// The sequence number of an announcement.
pub const ANN_MESSAGE_NUM: u64 = 0;

/// The sequence number of a subscription.
pub const SUB_MESSAGE_NUM: u64 = 0;

/// The first sequence number that is not set aside.
pub const INIT_MESSAGE_NUM: u64 = 1;

/// The state of a user as a value.
pub struct StateView {
    pub user_id: Option<UserIdentity>,
    pub stream_address: Option<Address>,
    pub author_identifier: Option<Seq<u8>>,
    pub cursors: Map<Seq<u8>, u64>,
    pub psks: Map<Seq<u8>, Seq<u8>>,
    pub exchange_keys: Map<Seq<u8>, Seq<u8>>,
    pub spongos: Map<Seq<u8>, Sponge>,
}

impl StateView {
    /// The cursor that a publisher has once a message of theirs with this
    /// sequence number is known to exist: the greater of the two.
    pub open spec fn bumped(self, publisher: Seq<u8>, sequence: u64) -> u64 {
        if self.cursors.contains_key(publisher) && self.cursors[publisher] > sequence {
            self.cursors[publisher]
        } else {
            sequence
        }
    }

    /// The state once a message of `publisher` with this sequence number is
    /// known to exist.
    pub open spec fn with_seen(self, publisher: Seq<u8>, sequence: u64) -> StateView {
        StateView { cursors: self.cursors.insert(publisher, self.bumped(publisher, sequence)), ..self }
    }

    /// The state with the cursor of `id` set.
    pub open spec fn with_cursor(self, id: Seq<u8>, cursor: u64) -> StateView {
        StateView { cursors: self.cursors.insert(id, cursor), ..self }
    }

    /// The state with the sponge that the message `id` left.
    pub open spec fn with_spongos(self, id: Seq<u8>, sponge: Sponge) -> StateView {
        StateView { spongos: self.spongos.insert(id, sponge), ..self }
    }

    /// The state with the exchange key of `id` set.
    pub open spec fn with_exchange_key(self, id: Seq<u8>, key: Seq<u8>) -> StateView {
        StateView { exchange_keys: self.exchange_keys.insert(id, key), ..self }
    }

    /// The state without the subscriber `id`: neither their cursor nor their
    /// exchange key.
    pub open spec fn without_subscriber(self, id: Seq<u8>) -> StateView {
        StateView {
            cursors: self.cursors.remove(id),
            exchange_keys: self.exchange_keys.remove(id),
            ..self
        }
    }

    /// Whether the cursor of the holder of a permission is to be set when a
    /// keyload names them: they may write, and they are not followed yet or
    /// stand below the first sequence number, where a subscriber stands
    /// until a keyload lets them write.
    pub open spec fn should_store_cursor(self, p: Permission) -> bool {
        !p.is_readonly() && !(self.cursors.contains_key(p.id) && self.cursors[p.id]
            >= INIT_MESSAGE_NUM)
    }

    /// The state once a keyload has named these subscribers: each that may
    /// write and does not stand at the first sequence number or above
    /// starts there.
    pub open spec fn with_permitted(self, subscribers: Seq<Permission>) -> StateView
        decreases subscribers.len(),
    {
        if subscribers.len() == 0 {
            self
        } else {
            let before = self.with_permitted(subscribers.drop_last());
            if before.should_store_cursor(subscribers.last()) {
                before.with_cursor(subscribers.last().id, INIT_MESSAGE_NUM)
            } else {
                before
            }
        }
    }

    /// The identifier of the user, if they hold an identity.
    pub open spec fn identifier(self) -> Option<Seq<u8>> {
        match self.user_id {
            Some(u) => Some(u.id@),
            None => None,
        }
    }
}

/// Whether the subscribers name `id` as one who may write.
pub open spec fn names_writer(subscribers: Seq<Permission>, id: Seq<u8>) -> bool {
    exists|i: int|
        0 <= i < subscribers.len() && (#[trigger] subscribers[i]).id == id
            && !subscribers[i].is_readonly()
}

/// Naming subscribers in a keyload touches nothing but cursors, and of
/// those only the cursors of the subscribers that may write: such a
/// subscriber who was not followed, or stood below the first sequence
/// number, stands there afterwards; every other cursor is as it was.
pub proof fn lemma_with_permitted(s: StateView, subscribers: Seq<Permission>)
    ensures
        s.with_permitted(subscribers) == (StateView {
            cursors: s.with_permitted(subscribers).cursors,
            ..s
        }),
        forall|id: Seq<u8>| #[trigger]
            s.with_permitted(subscribers).cursors.contains_key(id) <==> s.cursors.contains_key(id)
                || names_writer(subscribers, id),
        forall|id: Seq<u8>|
            s.with_permitted(subscribers).cursors.contains_key(id) ==> #[trigger] s.with_permitted(
                subscribers,
            ).cursors[id] == if names_writer(subscribers, id) && !(s.cursors.contains_key(id)
                && s.cursors[id] >= INIT_MESSAGE_NUM) {
                INIT_MESSAGE_NUM
            } else {
                s.cursors[id]
            },
    decreases subscribers.len(),
{
    if subscribers.len() > 0 {
        let front = subscribers.drop_last();
        let last = subscribers.last();
        let before = s.with_permitted(front);
        let after = s.with_permitted(subscribers);
        lemma_with_permitted(s, front);
        assert forall|id: Seq<u8>|
            names_writer(subscribers, id) <==> names_writer(front, id) || (last.id == id
                && !last.is_readonly()) by {
            if names_writer(front, id) {
                let i = choose|i: int|
                    0 <= i < front.len() && (#[trigger] front[i]).id == id
                        && !front[i].is_readonly();
                assert(subscribers[i] == front[i]);
            }
            if last.id == id && !last.is_readonly() {
                assert(subscribers[subscribers.len() - 1] == last);
            }
            if names_writer(subscribers, id) {
                let i = choose|i: int|
                    0 <= i < subscribers.len() && (#[trigger] subscribers[i]).id == id
                        && !subscribers[i].is_readonly();
                if i < front.len() {
                    assert(front[i] == subscribers[i]);
                }
            }
        }
        assert forall|id: Seq<u8>| #[trigger]
            after.cursors.contains_key(id) <==> s.cursors.contains_key(id) || names_writer(
                subscribers,
                id,
            ) by {
            assert(before.cursors.contains_key(id) <==> s.cursors.contains_key(id) || names_writer(
                front,
                id,
            ));
            if last.id == id && !last.is_readonly() && !before.should_store_cursor(last) {
                assert(before.cursors.contains_key(id));
            }
        }
        assert forall|id: Seq<u8>| after.cursors.contains_key(id) implies #[trigger] after.cursors[id]
            == if names_writer(subscribers, id) && !(s.cursors.contains_key(id) && s.cursors[id]
            >= INIT_MESSAGE_NUM) {
            INIT_MESSAGE_NUM
        } else {
            s.cursors[id]
        } by {
            assert(before.cursors.contains_key(id) <==> s.cursors.contains_key(id) || names_writer(
                front,
                id,
            ));
            if before.cursors.contains_key(id) {
                assert(before.cursors[id] == if names_writer(front, id) && !(s.cursors.contains_key(
                    id,
                ) && s.cursors[id] >= INIT_MESSAGE_NUM) {
                    INIT_MESSAGE_NUM
                } else {
                    s.cursors[id]
                });
            }
        }
    }
}

/// What a user keeps of a stream.
pub struct State {
    /// The user's identity, with the keys that sign and exchange.
    pub user_id: Option<UserIdentity>,
    /// The address of the announcement of the stream; `None` until the user
    /// has created a stream or received its announcement.
    pub stream_address: Option<Address>,
    /// The author of the stream.
    pub author_identifier: Option<Identifier>,
    /// The last sequence number seen of each publisher.
    pub cursor_store: CursorStore,
    /// The pre-shared keys that the user trusts, by their identifiers.
    pub psk_store: KeyStore,
    /// The key-exchange public keys of the subscribers, by their identifiers.
    pub exchange_keys: KeyStore,
    /// The sponge that each message left, by the identifier of the message.
    pub spongos_store: SpongosStore,
}

impl View for State {
    type V = StateView;

    open spec fn view(&self) -> StateView {
        StateView {
            user_id: self.user_id,
            stream_address: self.stream_address,
            author_identifier: match self.author_identifier {
                Some(a) => Some(a@),
                None => None,
            },
            cursors: self.cursor_store@,
            psks: self.psk_store@,
            exchange_keys: self.exchange_keys@,
            spongos: self.spongos_store@,
        }
    }
}

impl State {
    /// The stores are well formed, and the store of sponges holds the sponge
    /// of the announcement of the stream that the user is bound to.
    pub open spec fn wf(&self) -> bool {
        &&& self.cursor_store.wf()
        &&& self.psk_store.wf()
        &&& self.exchange_keys.wf()
        &&& self.spongos_store.wf()
        &&& self.stream_address is Some ==> self.spongos_store@.contains_key(
            self.stream_address->0.relative@,
        )
        &&& forall|k: Seq<u8>| #[trigger] self.cursor_store@.contains_key(k) ==> is_identifier(k)
        &&& forall|k: Seq<u8>| #[trigger] self.exchange_keys@.contains_key(k) ==> is_identifier(k)
        &&& forall|k: Seq<u8>| #[trigger] self.psk_store@.contains_key(k) ==> k.len() == PSKID_SIZE
    }

    /// The subscribers whose exchange keys the user knows, in the order of
    /// their identifiers.
    pub fn subscribers(&self) -> (r: Vec<Identifier>)
        requires
            self.wf(),
        ensures
            identifier_views(r@) == sorted_keys(self@.exchange_keys.dom()),
    {
        let keys = sort_keys(self.exchange_keys.keys());
        let mut out: Vec<Identifier> = Vec::new();
        let mut i: usize = 0;
        while i < keys.len()
            invariant
                i <= keys.len(),
                self.wf(),
                sorted_listing(key_views(keys@), self@.exchange_keys.dom()),
                out@.len() == i,
                forall|j: int| 0 <= j < i ==> (#[trigger] out@[j])@ == keys@[j]@,
            decreases keys.len() - i,
        {
            let key = &keys[i];
            proof {
                assert(key_views(keys@)[i as int] == key@);
                assert(key_views(keys@).contains(key@));
                assert(self@.exchange_keys.dom().contains(key@));
            }
            let content = vstd::slice::slice_subrange(key.as_slice(), 1, key.len());
            assert(content@ =~= key@.skip(1));
            match Identifier::from_parts(key[0], content) {
                Some(id) => {
                    assert(id@ =~= key@);
                    out.push(id);
                },
                None => {},
            }
            i = i + 1;
        }
        assert(identifier_views(out@) =~= key_views(keys@));
        out
    }

    /// The addresses at which the next message of each publisher that the
    /// user follows is to be looked for, in the order of the publishers'
    /// identifiers; none where the user is bound to no stream.
    pub fn next_addresses(&self) -> (r: Vec<Address>)
        requires
            self.wf(),
        ensures
            address_views(r@) == next_addresses_of(self@),
    {
        let mut out: Vec<Address> = Vec::new();
        let stream = match self.stream_address {
            Some(a) => a,
            None => {
                assert(address_views(out@) =~= next_addresses_of(self@));
                return out;
            },
        };
        let keys = sort_keys(self.cursor_store.keys());
        let ghost all = key_views(keys@);
        let mut i: usize = 0;
        assert(address_views(out@) =~= next_addresses_at(self@, stream.base@, all.take(0)));
        while i < keys.len()
            invariant
                i <= keys.len(),
                self.wf(),
                all == key_views(keys@),
                sorted_listing(all, self@.cursors.dom()),
                address_views(out@) == next_addresses_at(self@, stream.base@, all.take(i as int)),
            decreases keys.len() - i,
        {
            let key = &keys[i];
            let ghost before = out@;
            proof {
                assert(all[i as int] == key@);
                assert(all.contains(key@));
                assert(self@.cursors.dom().contains(key@));
                assert(all.take(i + 1).drop_last() =~= all.take(i as int));
                assert(all.take(i + 1).last() == key@);
            }
            let content = vstd::slice::slice_subrange(key.as_slice(), 1, key.len());
            assert(content@ =~= key@.skip(1));
            match (Identifier::from_parts(key[0], content), self.cursor_store.get_raw(key)) {
                (Some(id), Some(cursor)) => {
                    assert(id@ =~= key@);
                    if cursor < u64::MAX {
                        let relative = MsgId::gen(stream.base(), id, cursor + 1);
                        out.push(Address::new(stream.base(), relative));
                        proof {
                            assert(address_views(out@) =~= address_views(before).push(
                                (stream.base@, relative@),
                            ));
                        }
                    }
                },
                _ => {},
            }
            i = i + 1;
        }
        assert(all.take(i as int) =~= all);
        out
    }

    /// The pre-shared keys that the user trusts, by their identifiers, in
    /// the order of the identifiers.
    pub fn psk_ids(&self) -> (r: Vec<PskId>)
        requires
            self.wf(),
        ensures
            crate::kinds::keyload::pskid_views(r@) == sorted_keys(self@.psks.dom()),
    {
        let keys = sort_keys(self.psk_store.keys());
        let mut out: Vec<PskId> = Vec::new();
        let mut i: usize = 0;
        while i < keys.len()
            invariant
                i <= keys.len(),
                self.wf(),
                sorted_listing(key_views(keys@), self@.psks.dom()),
                out@.len() == i,
                forall|j: int| 0 <= j < i ==> (#[trigger] out@[j])@ == keys@[j]@,
            decreases keys.len() - i,
        {
            let key = &keys[i];
            proof {
                assert(key_views(keys@)[i as int] == key@);
                assert(key_views(keys@).contains(key@));
                assert(self@.psks.dom().contains(key@));
            }
            out.push(PskId::new(crate::ddml::types::array_from::<16>(key.as_slice())));
            i = i + 1;
        }
        assert(crate::kinds::keyload::pskid_views(out@) =~= key_views(keys@));
        out
    }

    /// The state of a new user, as a value.
    pub open spec fn new_spec(user_id: Option<UserIdentity>, psks: Seq<(PskId, Psk)>) -> StateView {
        StateView {
            user_id,
            stream_address: None,
            author_identifier: None,
            cursors: Map::empty(),
            psks: psks_of(psks),
            exchange_keys: own_exchange_key(user_id),
            spongos: Map::empty(),
        }
    }

    /// The state of a user with this identity who trusts these pre-shared
    /// keys. A user with a key pair knows their own exchange key.
    pub fn new(user_id: Option<UserIdentity>, psks: &[(PskId, Psk)]) -> (r: State)
        ensures
            r.wf(),
            r@ == State::new_spec(user_id, psks@),
    {
        let mut psk_store = KeyStore::new();
        let mut i: usize = 0;
        while i < psks.len()
            invariant
                i <= psks.len(),
                psk_store.wf(),
                psk_store@ == psks_of(psks@.take(i as int)),
                forall|k: Seq<u8>| #[trigger] psk_store@.contains_key(k) ==> k.len() == PSKID_SIZE,
            decreases psks.len() - i,
        {
            proof {
                assert(psks@.take(i + 1).drop_last() =~= psks@.take(i as int));
            }
            let id = psks[i].0.to_bytes();
            psk_store.insert(vstd::slice::slice_to_vec(id.as_slice()), psks[i].1.to_bytes());
            proof {
                lemma_psks_of(psks@.take(i + 1));
            }
            i = i + 1;
        }
        assert(psks@.take(i as int) =~= psks@);
        let mut exchange_keys = KeyStore::new();
        match &user_id {
            Some(user) => match &user.keys {
                Keys::Keypair(kp) => {
                    exchange_keys.insert(user.id.to_bytes(), kp.key_exchange.1);
                },
                Keys::Psk(_) => {},
            },
            None => {},
        }
        State {
            user_id,
            stream_address: None,
            author_identifier: None,
            cursor_store: CursorStore::new(),
            psk_store,
            exchange_keys,
            spongos_store: SpongosStore::new(),
        }
    }

    /// The identifier of the user.
    pub fn identifier(&self) -> (r: Result<Identifier, Error>)
        ensures
            r == match self.user_id {
                Some(u) => Ok::<Identifier, Error>(u.id),
                None => Err::<Identifier, Error>(Error::NoIdentity),
            },
    {
        match &self.user_id {
            Some(u) => Ok(u.to_identifier()),
            None => Err(Error::NoIdentity),
        }
    }

    /// The identity of the user.
    pub fn identity(&self) -> (r: Result<&UserIdentity, Error>)
        ensures
            match self.user_id {
                Some(u) => r is Ok && *r->Ok_0 == u,
                None => r is Err && r->Err_0 == Error::NoIdentity,
            },
    {
        match &self.user_id {
            Some(u) => Ok(u),
            None => Err(Error::NoIdentity),
        }
    }

    /// The cursor of the user, if they hold an identity and are tracked.
    pub fn cursor(&self) -> (r: Option<u64>)
        requires
            self.wf(),
        ensures
            r == match self@.identifier() {
                Some(id) => if self@.cursors.contains_key(id) {
                    Some(self@.cursors[id])
                } else {
                    None
                },
                None => None,
            },
    {
        match &self.user_id {
            Some(u) => self.cursor_store.get_cursor(&u.id),
            None => None,
        }
    }

    /// The sequence number of the next message of the user: one more than
    /// their cursor.
    pub fn next_cursor(&self) -> (r: Result<u64, Error>)
        requires
            self.wf(),
        ensures
            r == next_cursor_of(self@),
    {
        match self.cursor() {
            Some(c) => if c < u64::MAX {
                Ok(c + 1)
            } else {
                Err(Error::SizeOverflow)
            },
            None => Err(Error::NotPublisher),
        }
    }

    /// The address of the announcement of the stream.
    pub fn stream_address(&self) -> (r: Option<Address>)
        ensures
            r == self.stream_address,
    {
        self.stream_address
    }

    /// Whether the cursor of the holder of a permission is to be set when a
    /// keyload names them.
    pub fn should_store_cursor(&self, subscriber: &Permissioned<Identifier>) -> (r: bool)
        requires
            self.wf(),
        ensures
            r == self@.should_store_cursor(subscriber@),
    {
        proof {
            subscriber.lemma_wf();
        }
        let cursor = match subscriber {
            Permissioned::Read(id) => self.cursor_store.get_cursor(id),
            Permissioned::ReadWrite(id, _) => self.cursor_store.get_cursor(id),
            Permissioned::Admin(id) => self.cursor_store.get_cursor(id),
        };
        let promoted = match cursor {
            Some(c) => c >= INIT_MESSAGE_NUM,
            None => false,
        };
        !subscriber.is_readonly() && !promoted
    }

    /// Keeps the exchange key that belongs to the identifier of a
    /// subscriber; whether the subscriber was not known. The identifier must
    /// be an Ed25519 key that converts to an exchange key: see
    /// `try_add_subscriber`.
    pub fn add_subscriber(&mut self, subscriber: Identifier) -> (r: bool)
        requires
            old(self).wf(),
            exchange_key_of(subscriber@) is Some,
        ensures
            final(self).wf(),
            final(self)@ == old(self)@.with_exchange_key(
                subscriber@,
                exchange_key_of(subscriber@)->0,
            ),
            r == !old(self)@.exchange_keys.contains_key(subscriber@),
    {
        match subscriber._ke_pk() {
            Some(key) => self.exchange_keys.insert(subscriber.to_bytes(), key),
            None => false,
        }
    }

    /// Keeps the exchange key that belongs to the identifier of a
    /// subscriber, where the identifier has one, and says whether the
    /// subscriber was not known; `None`, and nothing kept, where it has
    /// none.
    pub fn try_add_subscriber(&mut self, subscriber: Identifier) -> (r: Option<bool>)
        requires
            old(self).wf(),
        ensures
            final(self).wf(),
            r is Some <==> exchange_key_of(subscriber@) is Some,
            r is Some ==> final(self)@ == old(self)@.with_exchange_key(
                subscriber@,
                exchange_key_of(subscriber@)->0,
            ) && r->0 == !old(self)@.exchange_keys.contains_key(subscriber@),
            r is None ==> final(self)@ == old(self)@,
    {
        match subscriber._ke_pk() {
            Some(_) => Some(self.add_subscriber(subscriber)),
            None => None,
        }
    }

    /// Forgets a subscriber; whether their cursor or their exchange key was
    /// known.
    pub fn remove_subscriber(&mut self, id: Identifier) -> (r: bool)
        requires
            old(self).wf(),
        ensures
            final(self).wf(),
            final(self)@ == old(self)@.without_subscriber(id@),
            r == (old(self)@.cursors.contains_key(id@) || old(self)@.exchange_keys.contains_key(
                id@,
            )),
    {
        let followed = self.cursor_store.remove(&id);
        let key = id.to_bytes();
        let known = self.exchange_keys.remove(&key);
        followed || known
    }

    /// Trusts a pre-shared key; whether it was not trusted before.
    pub fn add_psk(&mut self, psk: Psk) -> (r: bool)
        requires
            old(self).wf(),
        ensures
            final(self).wf(),
            final(self)@ == (StateView {
                psks: old(self)@.psks.insert(pskid_of(psk@), psk@),
                ..old(self)@
            }),
            r == !old(self)@.psks.contains_key(pskid_of(psk@)),
    {
        let id = psk.to_pskid().to_bytes();
        self.psk_store.insert(vstd::slice::slice_to_vec(id.as_slice()), psk.to_bytes())
    }

    /// Stops trusting a pre-shared key; whether it was trusted.
    pub fn remove_psk(&mut self, pskid: PskId) -> (r: bool)
        requires
            old(self).wf(),
        ensures
            final(self).wf(),
            final(self)@ == (StateView { psks: old(self)@.psks.remove(pskid@), ..old(self)@ }),
            r == old(self)@.psks.contains_key(pskid@),
    {
        let id = pskid.to_bytes();
        let key = vstd::slice::slice_to_vec(id.as_slice());
        self.psk_store.remove(&key)
    }
}

/// The exchange key that belongs to an identifier: an Ed25519 key has the
/// one that it converts to, if it converts; any other identifier has none.
pub open spec fn exchange_key_of(id: Seq<u8>) -> Option<Seq<u8>> {
    if id[0] == TAG_ED25519 {
        x25519_public_of_ed25519_spec(id.skip(1))
    } else {
        None
    }
}

/// The sequence number of the next message of the user, or why they cannot
/// publish.
pub open spec fn next_cursor_of(s: StateView) -> Result<u64, Error> {
    match s.identifier() {
        Some(id) => if s.cursors.contains_key(id) {
            if s.cursors[id] < u64::MAX {
                Ok((s.cursors[id] + 1) as u64)
            } else {
                Err(Error::SizeOverflow)
            }
        } else {
            Err(Error::NotPublisher)
        },
        None => Err(Error::NotPublisher),
    }
}

/// The map of pre-shared keys by their identifiers; of two with the same
/// identifier the later stays.
pub open spec fn psks_of(psks: Seq<(PskId, Psk)>) -> Map<Seq<u8>, Seq<u8>>
    decreases psks.len(),
{
    if psks.len() == 0 {
        Map::empty()
    } else {
        psks_of(psks.drop_last()).insert(psks.last().0@, psks.last().1@)
    }
}

/// The addresses as pairs of bytes: the stream and the message.
pub open spec fn address_views(v: Seq<Address>) -> Seq<(Seq<u8>, Seq<u8>)> {
    Seq::new(v.len(), |i: int| (v[i].base@, v[i].relative@))
}

/// The addresses of the next messages of the publishers `keys` in the
/// stream at `base`: for each with a cursor below 2^64 - 1, the identifier
/// of their message with the sequence number after the cursor.
pub open spec fn next_addresses_at(s: StateView, base: Seq<u8>, keys: Seq<Seq<u8>>) -> Seq<
    (Seq<u8>, Seq<u8>),
>
    decreases keys.len(),
{
    if keys.len() == 0 {
        Seq::empty()
    } else {
        let front = next_addresses_at(s, base, keys.drop_last());
        let cursor = s.cursors[keys.last()];
        if cursor < u64::MAX {
            front.push((base, crate::address::msgid_of(base, keys.last(), (cursor + 1) as u64)))
        } else {
            front
        }
    }
}

/// The addresses at which the next messages of the publishers that a user
/// follows are to be looked for.
pub open spec fn next_addresses_of(s: StateView) -> Seq<(Seq<u8>, Seq<u8>)> {
    match s.stream_address {
        Some(stream) => next_addresses_at(s, stream.base@, sorted_keys(s.cursors.dom())),
        None => Seq::empty(),
    }
}

/// The identifiers as bytes.
pub open spec fn identifier_views(v: Seq<Identifier>) -> Seq<Seq<u8>> {
    Seq::new(v.len(), |i: int| v[i]@)
}

/// Every identifier in the map of pre-shared keys has its width.
pub proof fn lemma_psks_of(psks: Seq<(PskId, Psk)>)
    ensures
        forall|k: Seq<u8>| #[trigger] psks_of(psks).contains_key(k) ==> k.len() == PSKID_SIZE,
    decreases psks.len(),
{
    if psks.len() > 0 {
        lemma_psks_of(psks.drop_last());
        assert(psks.last().0@.len() == PSKID_SIZE);
        assert(psks_of(psks) == psks_of(psks.drop_last()).insert(psks.last().0@, psks.last().1@));
        assert forall|k: Seq<u8>| #[trigger] psks_of(psks).contains_key(k) implies k.len()
            == PSKID_SIZE by {
            if k != psks.last().0@ {
                assert(psks_of(psks.drop_last()).contains_key(k));
            }
        }
    }
}

/// The exchange keys that a new user knows: their own, where they hold a key
/// pair.
pub open spec fn own_exchange_key(user_id: Option<UserIdentity>) -> Map<Seq<u8>, Seq<u8>> {
    match user_id {
        Some(user) => match user.keys {
            Keys::Keypair(kp) => Map::<Seq<u8>, Seq<u8>>::empty().insert(
                user.id@,
                kp.key_exchange.1@,
            ),
            Keys::Psk(_) => Map::empty(),
        },
        None => Map::empty(),
    }
}

} // verus!
