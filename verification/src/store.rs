//! The maps that a user keeps: sponges by message, exchange keys and cursors
//! by identifier, pre-shared keys by their identifier. All of them sit on one
//! hash map from byte strings to byte strings.

use vstd::prelude::*;
use crate::address::MsgId;
use crate::address::MSGID_SIZE;
use crate::ddml::types::array_from;
use crate::ddml::types::be_digits;
use crate::ddml::types::be_value;
use crate::ddml::types::digits;
use crate::ddml::types::digits_value;
use crate::ddml::types::lemma_value_of_digits;
use crate::id::identifier::Identifier;
use crate::id::identifier::is_identifier;
use crate::id::identifier::is_identifier_bytes;
use crate::id::psk::PSK_SIZE;
use crate::id::psk::PSKID_SIZE;
use crate::spongos::RATE;
use crate::spongos::Sponge;
use crate::spongos::Spongos;
use crate::spongos::WIDTH;

verus! {

/// A `hashbrown::HashMap` from byte strings to byte strings. Verus does not
/// look inside: what it holds is named `byte_map_entries`.
#[verifier::external_body]
pub struct ByteMap {
    inner: hashbrown::HashMap<Vec<u8>, Vec<u8>>,
}

/// The entries of a map.
pub uninterp spec fn byte_map_entries(m: ByteMap) -> Map<Seq<u8>, Seq<u8>>;

/// The map that holds nothing.
pub open spec fn no_entries() -> Map<Seq<u8>, Seq<u8>> {
    Map::empty()
}

/// Calls `hashbrown::HashMap::new`: the new map holds nothing.
#[verifier::external_body]
fn byte_map_new() -> (r: ByteMap)
    ensures
        byte_map_entries(r) == no_entries(),
{
    ByteMap { inner: hashbrown::HashMap::new() }
}

/// Calls `hashbrown::HashMap::insert`: the map then holds `value` at `key`
/// and is otherwise as before; the value that stood at `key` comes back.
#[verifier::external_body]
fn byte_map_insert(m: &mut ByteMap, key: Vec<u8>, value: Vec<u8>) -> (r: Option<Vec<u8>>)
    ensures
        byte_map_entries(*final(m)) == byte_map_entries(*old(m)).insert(key@, value@),
        r is Some <==> byte_map_entries(*old(m)).contains_key(key@),
        r is Some ==> r->0@ == byte_map_entries(*old(m))[key@],
{
    m.inner.insert(key, value)
}

/// Calls `hashbrown::HashMap::get` and copies what it finds: the value at
/// `key`, if the map holds one.
#[verifier::external_body]
fn byte_map_get(m: &ByteMap, key: &Vec<u8>) -> (r: Option<Vec<u8>>)
    ensures
        r is Some <==> byte_map_entries(*m).contains_key(key@),
        r is Some ==> r->0@ == byte_map_entries(*m)[key@],
{
    m.inner.get(key).cloned()
}

/// Calls `hashbrown::HashMap::remove`: the map then holds nothing at `key`
/// and is otherwise as before; the value that stood at `key` comes back.
#[verifier::external_body]
fn byte_map_remove(m: &mut ByteMap, key: &Vec<u8>) -> (r: Option<Vec<u8>>)
    ensures
        byte_map_entries(*final(m)) == byte_map_entries(*old(m)).remove(key@),
        r is Some <==> byte_map_entries(*old(m)).contains_key(key@),
        r is Some ==> r->0@ == byte_map_entries(*old(m))[key@],
{
    m.inner.remove(key)
}

/// Calls `hashbrown::HashMap::keys` and copies the keys: each key of the map
/// once, in an order that nothing is known of.
#[verifier::external_body]
fn byte_map_keys(m: &ByteMap) -> (r: Vec<Vec<u8>>)
    ensures
        key_views(r@).no_duplicates(),
        key_views(r@).to_set() == byte_map_entries(*m).dom(),
{
    m.inner.keys().cloned().collect()
}

/// The keys as byte strings.
pub open spec fn key_views(keys: Seq<Vec<u8>>) -> Seq<Seq<u8>> {
    Seq::new(keys.len(), |i: int| keys[i]@)
}

impl ByteMap {
    /// The entries of the map.
    pub open spec fn entries(&self) -> Map<Seq<u8>, Seq<u8>> {
        byte_map_entries(*self)
    }

    /// A map that holds nothing.
    pub fn new() -> (m: ByteMap)
        ensures
            m.entries() == Map::<Seq<u8>, Seq<u8>>::empty(),
    {
        byte_map_new()
    }

    /// Puts `value` at `key`; the value that stood there comes back.
    pub fn insert(&mut self, key: Vec<u8>, value: Vec<u8>) -> (r: Option<Vec<u8>>)
        ensures
            final(self).entries() == old(self).entries().insert(key@, value@),
            r is Some <==> old(self).entries().contains_key(key@),
            r is Some ==> r->0@ == old(self).entries()[key@],
    {
        byte_map_insert(self, key, value)
    }

    /// The value at `key`, if the map holds one.
    pub fn get(&self, key: &Vec<u8>) -> (r: Option<Vec<u8>>)
        ensures
            r is Some <==> self.entries().contains_key(key@),
            r is Some ==> r->0@ == self.entries()[key@],
    {
        byte_map_get(self, key)
    }

    /// Takes away what stands at `key`; it comes back.
    pub fn remove(&mut self, key: &Vec<u8>) -> (r: Option<Vec<u8>>)
        ensures
            final(self).entries() == old(self).entries().remove(key@),
            r is Some <==> old(self).entries().contains_key(key@),
            r is Some ==> r->0@ == old(self).entries()[key@],
    {
        byte_map_remove(self, key)
    }

    /// Each key of the map once, in an order that nothing is known of.
    pub fn keys(&self) -> (r: Vec<Vec<u8>>)
        ensures
            key_views(r@).no_duplicates(),
            key_views(r@).to_set() == self.entries().dom(),
    {
        byte_map_keys(self)
    }

    /// Whether every entry of the map is an entry of `other`.
    pub fn within(&self, other: &ByteMap) -> (r: bool)
        ensures
            r == self.entries().submap_of(other.entries()),
    {
        let keys = self.keys();
        let ghost m = self.entries();
        let mut i: usize = 0;
        while i < keys.len()
            invariant
                i <= keys.len(),
                m == self.entries(),
                key_views(keys@).to_set() == m.dom(),
                forall|j: int|
                    0 <= j < i ==> other.entries().contains_key(#[trigger] keys@[j]@)
                        && other.entries()[keys@[j]@] == m[keys@[j]@],
            decreases keys.len() - i,
        {
            proof {
                assert(key_views(keys@)[i as int] == keys@[i as int]@);
                assert(key_views(keys@).contains(keys@[i as int]@));
                assert(key_views(keys@).to_set().contains(keys@[i as int]@));
            }
            let mine = self.get(&keys[i]);
            let theirs = other.get(&keys[i]);
            let same = match (&mine, &theirs) {
                (Some(a), Some(b)) => crate::ddml::types::same_bytes(a.as_slice(), b.as_slice()),
                _ => false,
            };
            if !same {
                return false;
            }
            i = i + 1;
        }
        proof {
            assert forall|k: Seq<u8>| #[trigger] m.dom().contains(k) implies other.entries().dom().contains(
                k,
            ) && m[k] == other.entries()[k] by {
                assert(key_views(keys@).to_set().contains(k));
                assert(key_views(keys@).contains(k));
                let j = choose|j: int| 0 <= j < keys@.len() && key_views(keys@)[j] == k;
                assert(keys@[j]@ == k);
            }
        }
        true
    }

    /// Whether two maps hold the same entries.
    pub fn same(&self, other: &ByteMap) -> (r: bool)
        ensures
            r == (self.entries() == other.entries()),
    {
        let r = self.within(other) && other.within(self);
        proof {
            if r {
                let a = self.entries();
                let b = other.entries();
                assert forall|k: Seq<u8>| a.contains_key(k) <==> b.contains_key(k) by {
                    if a.dom().contains(k) {
                        assert(b.dom().contains(k));
                    }
                    if b.dom().contains(k) {
                        assert(a.dom().contains(k));
                    }
                }
                assert forall|k: Seq<u8>| #[trigger] a.contains_key(k) implies a[k] == b[k] by {
                    assert(a.dom().contains(k));
                }
                assert(a =~= b);
            }
        }
        r
    }
}

/// What a store is for, which decides the shape of its entries.
#[derive(Clone, Copy, Debug, PartialEq, Eq, Structural)]
pub enum Shape {
    /// Sponges by the identifiers of messages.
    Spongos,
    /// Sequence numbers by identifiers.
    Cursors,
    /// Exchange keys by identifiers.
    ExchangeKeys,
    /// Pre-shared keys by their identifiers.
    Psks,
}

/// Whether an entry has the shape that the store asks for.
pub open spec fn entry_ok(shape: Shape, k: Seq<u8>, v: Seq<u8>) -> bool {
    match shape {
        Shape::Spongos => k.len() == MSGID_SIZE && is_sponge(v),
        Shape::Cursors => is_identifier(k) && exists|n: u64| v == be_digits(n as nat),
        Shape::ExchangeKeys => is_identifier(k) && v.len() == 32,
        Shape::Psks => k.len() == PSKID_SIZE && v.len() == PSK_SIZE,
    }
}

/// Whether every entry of a map has the shape that the store asks for.
pub open spec fn conforming(m: Map<Seq<u8>, Seq<u8>>, shape: Shape) -> bool {
    forall|k: Seq<u8>| #[trigger] m.contains_key(k) ==> entry_ok(shape, k, m[k])
}

/// Whether an entry has the shape that the store asks for.
pub fn entry_conforms(shape: Shape, k: &[u8], v: &[u8]) -> (r: bool)
    ensures
        r == entry_ok(shape, k@, v@),
{
    match shape {
        Shape::Spongos => k.len() == MSGID_SIZE && v.len() == WIDTH + 1 && (v[WIDTH] as usize)
            < RATE,
        Shape::Cursors => {
            if !is_identifier_bytes(k) {
                return false;
            }
            match digits_value(v) {
                Some(n) => {
                    let d = digits(n);
                    let same = crate::ddml::types::same_bytes(d.as_slice(), v);
                    proof {
                        if !same {
                            assert forall|m: u64| v@ != be_digits(m as nat) by {
                                lemma_value_of_digits(m as nat);
                            }
                        }
                    }
                    same
                },
                None => {
                    proof {
                        assert forall|m: u64| v@ != be_digits(m as nat) by {
                            lemma_value_of_digits(m as nat);
                        }
                    }
                    false
                },
            }
        },
        Shape::ExchangeKeys => is_identifier_bytes(k) && v.len() == 32,
        Shape::Psks => k.len() == PSKID_SIZE && v.len() == PSK_SIZE,
    }
}

/// Whether every entry of a map has the shape that the store asks for.
pub fn conforms(map: &ByteMap, shape: Shape) -> (r: bool)
    ensures
        r == conforming(map.entries(), shape),
        map.entries().dom().finite(),
{
    let keys = map.keys();
    let ghost m = map.entries();
    let mut i: usize = 0;
    while i < keys.len()
        invariant
            i <= keys.len(),
            m == map.entries(),
            key_views(keys@).to_set() == m.dom(),
            forall|j: int| 0 <= j < i ==> entry_ok(shape, #[trigger] keys@[j]@, m[keys@[j]@]),
        decreases keys.len() - i,
    {
        proof {
            assert(key_views(keys@)[i as int] == keys@[i as int]@);
            assert(key_views(keys@).contains(keys@[i as int]@));
            assert(key_views(keys@).to_set().contains(keys@[i as int]@));
        }
        match map.get(&keys[i]) {
            Some(v) => {
                if !entry_conforms(shape, keys[i].as_slice(), v.as_slice()) {
                    return false;
                }
            },
            None => {},
        }
        i = i + 1;
    }
    proof {
        assert forall|k: Seq<u8>| #[trigger] m.contains_key(k) implies entry_ok(shape, k, m[k]) by {
            assert(key_views(keys@).to_set().contains(k));
            assert(key_views(keys@).contains(k));
            let j = choose|j: int| 0 <= j < keys@.len() && key_views(keys@)[j] == k;
            assert(keys@[j]@ == k);
        }
    }
    true
}

/// The bytes that stand for a sponge in a store: the state, then the offset.
pub open spec fn sponge_bytes(s: Sponge) -> Seq<u8> {
    s.state.push(s.pos as u8)
}

/// The sponge that bytes in a store stand for.
pub open spec fn sponge_of(b: Seq<u8>) -> Sponge {
    Sponge { state: b.take(WIDTH as int), pos: b[WIDTH as int] as int }
}

/// The bytes stand for a well-formed sponge.
pub open spec fn is_sponge(b: Seq<u8>) -> bool {
    b.len() == WIDTH + 1 && b[WIDTH as int] < RATE
}

/// The bytes of a sponge stand for that sponge.
pub proof fn lemma_sponge_bytes(s: Sponge)
    requires
        s.wf(),
    ensures
        sponge_of(sponge_bytes(s)) == s,
        is_sponge(sponge_bytes(s)),
{
    assert(sponge_bytes(s).take(WIDTH as int) =~= s.state);
}

/// A sponge is the one that its bytes stand for.
pub proof fn lemma_sponge_of(b: Seq<u8>)
    requires
        is_sponge(b),
    ensures
        sponge_bytes(sponge_of(b)) == b,
        sponge_of(b).wf(),
{
    assert(sponge_bytes(sponge_of(b)) =~= b);
}

/// The bytes that stand for `s`.
pub fn spongos_to_bytes(s: &Spongos) -> (r: Vec<u8>)
    requires
        s.wf(),
    ensures
        r@ == sponge_bytes(s@),
{
    let state = s.state_bytes();
    let mut r = vstd::slice::slice_to_vec(state.as_slice());
    r.push(s.offset() as u8);
    r
}

/// The sponge that `b` stands for, if it stands for one.
pub fn spongos_from_bytes(b: &[u8]) -> (r: Option<Spongos>)
    ensures
        r is Some <==> is_sponge(b@),
        r is Some ==> r->0@ == sponge_of(b@) && r->0.wf(),
{
    if b.len() != WIDTH + 1 {
        return None;
    }
    let state = array_from::<200>(vstd::slice::slice_subrange(b, 0, WIDTH));
    assert(state@ =~= b@.take(WIDTH as int));
    Spongos::from_parts(state, b[WIDTH] as usize)
}

/// The sponges that a user has seen, by the identifier of the message that
/// each was left by.
pub struct SpongosStore {
    map: ByteMap,
}

impl View for SpongosStore {
    type V = Map<Seq<u8>, Sponge>;

    closed spec fn view(&self) -> Map<Seq<u8>, Sponge> {
        Map::new(
            |k: Seq<u8>| self.map.entries().contains_key(k),
            |k: Seq<u8>| sponge_of(self.map.entries()[k]),
        )
    }
}

impl SpongosStore {
    /// The bytes that the store holds, by key.
    pub closed spec fn raw(&self) -> Map<Seq<u8>, Seq<u8>> {
        self.map.entries()
    }

    /// Every key is the identifier of a message and every value is a
    /// well-formed sponge.
    pub closed spec fn wf(&self) -> bool {
        &&& self.map.entries().dom().finite()
        &&& forall|k: Seq<u8>| #[trigger]
            self.map.entries().contains_key(k) ==> k.len() == MSGID_SIZE && is_sponge(
                self.map.entries()[k],
            )
    }

    /// The sponges of a well-formed store are well formed, and the store
    /// holds their bytes.
    pub proof fn lemma_wf(&self)
        requires
            self.wf(),
        ensures
            forall|k: Seq<u8>| #[trigger]
                self@.contains_key(k) ==> self@[k].wf() && k.len() == MSGID_SIZE,
            self@.dom() == self.raw().dom(),
            self@.dom().finite(),
            conforming(self.raw(), Shape::Spongos),
            forall|k: Seq<u8>| #[trigger]
                self.raw().contains_key(k) ==> self.raw()[k] == sponge_bytes(self@[k]),
    {
        assert forall|k: Seq<u8>| #[trigger] self@.contains_key(k) implies self@[k].wf() && k.len()
            == MSGID_SIZE && self.raw()[k] == sponge_bytes(self@[k]) by {
            lemma_sponge_of(self.map.entries()[k]);
        }
        assert(self@.dom() =~= self.raw().dom());
    }

    /// The map under the store.
    pub fn raw_map(&self) -> (r: &ByteMap)
        ensures
            r.entries() == self.raw(),
    {
        &self.map
    }

    /// The store on `map`, if every entry of `map` is a well-formed sponge
    /// at the identifier of a message.
    pub fn from_map(map: ByteMap) -> (r: Option<SpongosStore>)
        ensures
            r is Some <==> conforming(map.entries(), Shape::Spongos),
            r is Some ==> r->0.raw() == map.entries() && r->0.wf(),
    {
        if conforms(&map, Shape::Spongos) {
            Some(SpongosStore { map })
        } else {
            None
        }
    }

    /// A store that holds nothing.
    pub fn new() -> (r: SpongosStore)
        ensures
            r@ == Map::<Seq<u8>, Sponge>::empty(),
            r.wf(),
    {
        let r = SpongosStore { map: ByteMap::new() };
        assert(r@ =~= Map::<Seq<u8>, Sponge>::empty());
        r
    }

    /// The sponge that the message `id` left, if the store holds it.
    pub fn get(&self, id: &MsgId) -> (r: Option<Spongos>)
        requires
            self.wf(),
        ensures
            r is Some <==> self@.contains_key(id@),
            r is Some ==> r->0@ == self@[id@] && r->0.wf(),
    {
        let key = id.to_vec();
        match self.map.get(&key) {
            Some(b) => spongos_from_bytes(b.as_slice()),
            None => None,
        }
    }

    /// Whether the store holds the sponge of the message `id`.
    pub fn contains(&self, id: &MsgId) -> (r: bool)
        requires
            self.wf(),
        ensures
            r == self@.contains_key(id@),
    {
        self.get(id).is_some()
    }

    /// Keeps `spongos` as what the message `id` left.
    pub fn insert(&mut self, id: MsgId, spongos: Spongos)
        requires
            old(self).wf(),
            spongos.wf(),
        ensures
            final(self)@ == old(self)@.insert(id@, spongos@),
            final(self).wf(),
    {
        let key = id.to_vec();
        let value = spongos_to_bytes(&spongos);
        proof {
            lemma_sponge_bytes(spongos@);
        }
        self.map.insert(key, value);
        assert(self@ =~= old(self)@.insert(id@, spongos@));
    }

    /// The identifiers of the messages whose sponges the store holds, each
    /// once, in an order that nothing is known of.
    pub fn keys(&self) -> (r: Vec<Vec<u8>>)
        requires
            self.wf(),
        ensures
            key_views(r@).no_duplicates(),
            key_views(r@).to_set() == self@.dom(),
    {
        let r = self.map.keys();
        assert(self@.dom() =~= self.map.entries().dom());
        r
    }
}

/// Keys of 32 bytes by byte strings: the exchange keys of subscribers by
/// their identifiers, or pre-shared keys by theirs.
pub struct KeyStore {
    map: ByteMap,
}

impl View for KeyStore {
    type V = Map<Seq<u8>, Seq<u8>>;

    closed spec fn view(&self) -> Map<Seq<u8>, Seq<u8>> {
        self.map.entries()
    }
}

impl KeyStore {
    /// Every value has 32 bytes.
    pub closed spec fn wf(&self) -> bool {
        &&& self.map.entries().dom().finite()
        &&& forall|k: Seq<u8>| #[trigger]
            self.map.entries().contains_key(k) ==> self.map.entries()[k].len() == 32
    }

    /// The values of a well-formed store have 32 bytes.
    pub proof fn lemma_wf(&self)
        requires
            self.wf(),
        ensures
            forall|k: Seq<u8>| #[trigger] self@.contains_key(k) ==> self@[k].len() == 32,
            self@.dom().finite(),
    {
    }

    /// The map under the store.
    pub fn raw_map(&self) -> (r: &ByteMap)
        ensures
            r.entries() == self@,
    {
        &self.map
    }

    /// The store on `map`, if every entry of `map` has the shape that
    /// `shape` asks for; `shape` is that of exchange keys or of pre-shared
    /// keys.
    pub fn from_map(map: ByteMap, shape: Shape) -> (r: Option<KeyStore>)
        requires
            shape == Shape::ExchangeKeys || shape == Shape::Psks,
        ensures
            r is Some <==> conforming(map.entries(), shape),
            r is Some ==> r->0@ == map.entries() && r->0.wf(),
    {
        if conforms(&map, shape) {
            Some(KeyStore { map })
        } else {
            None
        }
    }

    /// A store that holds nothing.
    pub fn new() -> (r: KeyStore)
        ensures
            r@ == Map::<Seq<u8>, Seq<u8>>::empty(),
            r.wf(),
    {
        KeyStore { map: ByteMap::new() }
    }

    /// The value at `key`, if the store holds one.
    pub fn get(&self, key: &Vec<u8>) -> (r: Option<[u8; 32]>)
        requires
            self.wf(),
        ensures
            r is Some <==> self@.contains_key(key@),
            r is Some ==> r->0@ == self@[key@],
    {
        match self.map.get(key) {
            Some(b) => Some(array_from::<32>(b.as_slice())),
            None => None,
        }
    }

    /// Puts `value` at `key`; whether nothing stood there.
    pub fn insert(&mut self, key: Vec<u8>, value: [u8; 32]) -> (r: bool)
        requires
            old(self).wf(),
        ensures
            final(self)@ == old(self)@.insert(key@, value@),
            r == !old(self)@.contains_key(key@),
            final(self).wf(),
    {
        let v = vstd::slice::slice_to_vec(value.as_slice());
        self.map.insert(key, v).is_none()
    }

    /// Takes away what stands at `key`; whether anything stood there.
    pub fn remove(&mut self, key: &Vec<u8>) -> (r: bool)
        requires
            old(self).wf(),
        ensures
            final(self)@ == old(self)@.remove(key@),
            r == old(self)@.contains_key(key@),
            final(self).wf(),
    {
        self.map.remove(key).is_some()
    }

    /// Each key of the store once, in an order that nothing is known of.
    pub fn keys(&self) -> (r: Vec<Vec<u8>>)
        ensures
            key_views(r@).no_duplicates(),
            key_views(r@).to_set() == self@.dom(),
    {
        self.map.keys()
    }
}

/// The last sequence number seen of each publisher.
pub struct CursorStore {
    map: ByteMap,
}

impl View for CursorStore {
    type V = Map<Seq<u8>, u64>;

    closed spec fn view(&self) -> Map<Seq<u8>, u64> {
        Map::new(
            |k: Seq<u8>| self.map.entries().contains_key(k),
            |k: Seq<u8>| be_value(self.map.entries()[k]) as u64,
        )
    }
}

impl CursorStore {
    /// Every value is the digits of a number below 2^64.
    pub closed spec fn wf(&self) -> bool {
        &&& self.map.entries().dom().finite()
        &&& forall|k: Seq<u8>| #[trigger]
            self.map.entries().contains_key(k) ==> exists|n: u64|
                self.map.entries()[k] == be_digits(n as nat)
    }

    /// The bytes that the store holds, by key.
    pub closed spec fn raw(&self) -> Map<Seq<u8>, Seq<u8>> {
        self.map.entries()
    }

    /// The store holds the digits of its cursors.
    pub proof fn lemma_wf(&self)
        requires
            self.wf(),
        ensures
            self@.dom() == self.raw().dom(),
            self@.dom().finite(),
            forall|k: Seq<u8>| #[trigger]
                self.raw().contains_key(k) ==> self.raw()[k] == be_digits(self@[k] as nat),
            forall|k: Seq<u8>| #[trigger]
                self.raw().contains_key(k) ==> exists|n: u64| self.raw()[k] == be_digits(n as nat),
    {
        assert forall|k: Seq<u8>| #[trigger] self.raw().contains_key(k) implies self.raw()[k]
            == be_digits(self@[k] as nat) by {
            let n = choose|n: u64| self.map.entries()[k] == be_digits(n as nat);
            lemma_value_of_digits(n as nat);
        }
        assert(self@.dom() =~= self.raw().dom());
    }

    /// The map under the store.
    pub fn raw_map(&self) -> (r: &ByteMap)
        ensures
            r.entries() == self.raw(),
    {
        &self.map
    }

    /// The store on `map`, if every entry of `map` is the digits of a
    /// sequence number at an identifier.
    pub fn from_map(map: ByteMap) -> (r: Option<CursorStore>)
        ensures
            r is Some <==> conforming(map.entries(), Shape::Cursors),
            r is Some ==> r->0.raw() == map.entries() && r->0.wf(),
    {
        if conforms(&map, Shape::Cursors) {
            Some(CursorStore { map })
        } else {
            None
        }
    }

    /// A store that tracks nobody.
    pub fn new() -> (r: CursorStore)
        ensures
            r@ == Map::<Seq<u8>, u64>::empty(),
            r.wf(),
    {
        let r = CursorStore { map: ByteMap::new() };
        assert(r@ =~= Map::<Seq<u8>, u64>::empty());
        r
    }

    /// The cursor of `id`, if it is tracked.
    pub fn get_cursor(&self, id: &Identifier) -> (r: Option<u64>)
        requires
            self.wf(),
        ensures
            r is Some <==> self@.contains_key(id@),
            r is Some ==> r->0 == self@[id@],
    {
        let key = id.to_bytes();
        match self.map.get(&key) {
            Some(b) => {
                proof {
                    let n = choose|n: u64| self.map.entries()[key@] == be_digits(n as nat);
                    lemma_value_of_digits(n as nat);
                }
                digits_value(b.as_slice())
            },
            None => None,
        }
    }

    /// Whether the cursor of `id` is tracked.
    pub fn is_cursor_tracked(&self, id: &Identifier) -> (r: bool)
        requires
            self.wf(),
        ensures
            r == self@.contains_key(id@),
    {
        self.get_cursor(id).is_some()
    }

    /// Sets the cursor of `id`; whether it was not tracked before.
    pub fn insert_cursor(&mut self, id: Identifier, cursor: u64) -> (r: bool)
        requires
            old(self).wf(),
        ensures
            final(self)@ == old(self)@.insert(id@, cursor),
            r == !old(self)@.contains_key(id@),
            final(self).wf(),
    {
        let key = id.to_bytes();
        let value = digits(cursor);
        proof {
            lemma_value_of_digits(cursor as nat);
        }
        let r = self.map.insert(key, value).is_none();
        assert(self@ =~= old(self)@.insert(id@, cursor));
        r
    }

    /// Stops tracking `id`; whether it was tracked.
    pub fn remove(&mut self, id: &Identifier) -> (r: bool)
        requires
            old(self).wf(),
        ensures
            final(self)@ == old(self)@.remove(id@),
            r == old(self)@.contains_key(id@),
            final(self).wf(),
    {
        let key = id.to_bytes();
        let r = self.map.remove(&key).is_some();
        assert(self@ =~= old(self)@.remove(id@));
        r
    }

    /// Each tracked identifier once, as bytes, in an order that nothing is
    /// known of.
    pub fn keys(&self) -> (r: Vec<Vec<u8>>)
        ensures
            key_views(r@).no_duplicates(),
            key_views(r@).to_set() == self@.dom(),
    {
        let r = self.map.keys();
        assert(self@.dom() =~= self.map.entries().dom());
        r
    }

    /// The cursor at `key`, if it is tracked.
    pub fn get_raw(&self, key: &Vec<u8>) -> (r: Option<u64>)
        requires
            self.wf(),
        ensures
            r is Some <==> self@.contains_key(key@),
            r is Some ==> r->0 == self@[key@],
    {
        match self.map.get(key) {
            Some(b) => {
                proof {
                    let n = choose|n: u64| self.map.entries()[key@] == be_digits(n as nat);
                    lemma_value_of_digits(n as nat);
                }
                digits_value(b.as_slice())
            },
            None => None,
        }
    }
}

} // verus!
