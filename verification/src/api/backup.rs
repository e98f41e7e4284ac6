//! The state of a user as bytes under a password, and back.

use vstd::prelude::*;
use crate::address::Address;
use crate::address::AppAddr;
use crate::address::APPADDR_SIZE;
use crate::address::MsgId;
use crate::address::MSGID_SIZE;
use crate::api::state::State;
use crate::api::state::StateView;
use crate::api::table::fits;
use crate::api::table::lemma_take_put_table;
use crate::api::table::put_table;
use crate::api::table::sizeof_table;
use crate::api::table::table_len;
use crate::api::table::take_table;
use crate::api::table::unwrap_table;
use crate::api::table::wrap_table;
use crate::ddml::sizeof;
use crate::ddml::types::array_from;
use crate::ddml::types::be_digits;
use crate::ddml::types::lemma_put_wf;
use crate::ddml::types::lemma_take_put;
use crate::ddml::types::lemma_take_put_mac;
use crate::ddml::types::lemma_take_put_u8;
use crate::ddml::types::Mode;
use crate::ddml::types::put;
use crate::ddml::types::put_mac;
use crate::ddml::types::put_u8;
use crate::ddml::types::take;
use crate::ddml::types::take_mac;
use crate::ddml::types::take_u8;
use crate::ddml::types::Taken;
use crate::ddml::unwrap;
use crate::ddml::wrap;
use crate::error::Error;
use crate::id::identifier::Identifier;
use crate::id::identifier::is_identifier;
use crate::id::identifier::lemma_identifier;
use crate::id::identifier::lemma_take_put_identifier;
use crate::id::identifier::put_identifier;
use crate::id::identifier::take_identifier;
use crate::id::identity::lemma_take_put_identity;
use crate::id::identity::put_identity;
use crate::id::identity::Secrets;
use crate::id::identity::take_identity;
use crate::id::identity::UserIdentity;
use crate::spongos::lemma_squeeze_wf;
use crate::spongos::Sponge;
use crate::spongos::Spongos;
use crate::store::conforming;
use crate::store::CursorStore;
use crate::store::KeyStore;
use crate::store::Shape;
use crate::store::sponge_bytes;
use crate::store::SpongosStore;

verus! {

/// Number of bytes of the code that ends a backup.
pub const BACKUP_MAC_SIZE: usize = 32;

/// The state of a user as it stands in a backup.
pub struct RawState {
    pub user_id: Option<Secrets>,
    pub stream_address: Option<(Seq<u8>, Seq<u8>)>,
    pub author_identifier: Option<Seq<u8>>,
    pub spongos: Map<Seq<u8>, Seq<u8>>,
    pub cursors: Map<Seq<u8>, Seq<u8>>,
    pub exchange_keys: Map<Seq<u8>, Seq<u8>>,
    pub psks: Map<Seq<u8>, Seq<u8>>,
}

/// The state of a user as it stands in a backup: the sponges as their
/// bytes, the cursors as their digits.
pub open spec fn raw_of(v: StateView) -> RawState {
    RawState {
        user_id: match v.user_id {
            Some(u) => Some(u@),
            None => None,
        },
        stream_address: match v.stream_address {
            Some(a) => Some((a.base@, a.relative@)),
            None => None,
        },
        author_identifier: v.author_identifier,
        spongos: Map::new(
            |k: Seq<u8>| v.spongos.contains_key(k),
            |k: Seq<u8>| sponge_bytes(v.spongos[k]),
        ),
        cursors: Map::new(
            |k: Seq<u8>| v.cursors.contains_key(k),
            |k: Seq<u8>| be_digits(v.cursors[k] as nat),
        ),
        exchange_keys: v.exchange_keys,
        psks: v.psks,
    }
}

/// The key that a password stands for: what a fresh sponge squeezes after
/// the password.
pub open spec fn backup_key(pwd: Seq<u8>) -> Seq<u8> {
    Sponge::init().absorb(pwd).commit().squeeze(32).1
}

/// The sponge that a backup under `pwd` is written from: a fresh one that
/// has absorbed the key of the password and committed, so that every byte
/// of the state depends on the key before anything is masked.
pub open spec fn backup_sponge(pwd: Seq<u8>) -> Sponge {
    Sponge::init().absorb(backup_key(pwd)).commit()
}

/// The sponge and the wire bytes after an identity has passed behind its
/// flag.
pub open spec fn put_maybe_identity(s: Sponge, o: Option<Secrets>) -> (Sponge, Seq<u8>) {
    match o {
        Some(u) => {
            let (t1, x) = put_u8(s, Mode::Mask, 1);
            let (t2, y) = put_identity(t1, Mode::Mask, u);
            (t2, x + y)
        },
        None => put_u8(s, Mode::Mask, 0),
    }
}

/// The sponge and the wire bytes after an address has passed behind its
/// flag.
pub open spec fn put_maybe_address(s: Sponge, o: Option<(Seq<u8>, Seq<u8>)>) -> (Sponge, Seq<u8>) {
    match o {
        Some(addr) => {
            let (t1, x) = put_u8(s, Mode::Mask, 1);
            let (t2, y) = put(t1, Mode::Mask, addr.0);
            let (t3, z) = put(t2, Mode::Mask, addr.1);
            (t3, x + y + z)
        },
        None => put_u8(s, Mode::Mask, 0),
    }
}

/// The sponge and the wire bytes after an identifier has passed behind its
/// flag.
pub open spec fn put_maybe_identifier(s: Sponge, o: Option<Seq<u8>>) -> (Sponge, Seq<u8>) {
    match o {
        Some(id) => {
            let (t1, x) = put_u8(s, Mode::Mask, 1);
            let (t2, y) = put_identifier(t1, Mode::Mask, id);
            (t2, x + y)
        },
        None => put_u8(s, Mode::Mask, 0),
    }
}

/// The sponge and the wire bytes after the head of a state has passed: the
/// identity, the address of the stream and the author, each behind a flag
/// that says whether it is there, all masked.
pub open spec fn put_head(s: Sponge, r: RawState) -> (Sponge, Seq<u8>) {
    let (s1, a) = put_maybe_identity(s, r.user_id);
    let (s2, b) = put_maybe_address(s1, r.stream_address);
    let (s3, c) = put_maybe_identifier(s2, r.author_identifier);
    (s3, a + b + c)
}

/// The sponge and the wire bytes after the four maps of a state have
/// passed: the sponges, the cursors, the exchange keys, the pre-shared keys.
pub open spec fn put_tables(s: Sponge, r: RawState) -> (Sponge, Seq<u8>) {
    let (s1, a) = put_table(s, r.spongos);
    let (s2, b) = put_table(s1, r.cursors);
    let (s3, c) = put_table(s2, r.exchange_keys);
    let (s4, d) = put_table(s3, r.psks);
    (s4, a + b + c + d)
}

/// The sponge and the wire bytes after a state has passed: the head, the
/// maps, a commit and a code squeezed from the sponge.
pub open spec fn put_state(s: Sponge, r: RawState) -> (Sponge, Seq<u8>) {
    let (s1, a) = put_head(s, r);
    let (s2, b) = put_tables(s1, r);
    let (s3, c) = put_mac(s2.commit(), BACKUP_MAC_SIZE as nat);
    (s3, a + b + c)
}

/// The backup of a state under a password.
pub open spec fn backup_of(r: RawState, pwd: Seq<u8>) -> Seq<u8> {
    put_state(backup_sponge(pwd), r).1
}

/// Number of bytes of the head of a state.
pub open spec fn head_len(r: RawState) -> nat {
    3 + (match r.user_id {
        Some(u) => u.len(),
        None => 0,
    }) + (match r.stream_address {
        Some(addr) => addr.0.len() + addr.1.len(),
        None => 0,
    }) + (match r.author_identifier {
        Some(id) => id.len(),
        None => 0,
    })
}

/// Number of bytes of the backup of a state.
pub open spec fn state_len(r: RawState) -> nat {
    head_len(r) + table_len(r.spongos) + table_len(r.cursors) + table_len(r.exchange_keys)
        + table_len(r.psks) + BACKUP_MAC_SIZE as nat
}

/// What reading the head of a state leaves.
pub struct Head {
    pub user_id: Option<Secrets>,
    pub stream_address: Option<(Seq<u8>, Seq<u8>)>,
    pub author_identifier: Option<Seq<u8>>,
}

/// Reads an identity behind its flag.
pub open spec fn take_maybe_identity(s: Sponge, input: Seq<u8>) -> Result<
    Taken<Option<Secrets>>,
    Error,
> {
    match take_u8(s, Mode::Mask, input) {
        Ok(t) => if t.value == 0 {
            Ok(Taken { sponge: t.sponge, value: None, rest: t.rest })
        } else if t.value == 1 {
            match take_identity(t.sponge, Mode::Mask, t.rest) {
                Ok(u) => Ok(Taken { sponge: u.sponge, value: Some(u.value), rest: u.rest }),
                Err(e) => Err(e),
            }
        } else {
            Err(Error::BadOneof)
        },
        Err(e) => Err(e),
    }
}

/// Reads an address behind its flag.
pub open spec fn take_maybe_address(s: Sponge, input: Seq<u8>) -> Result<
    Taken<Option<(Seq<u8>, Seq<u8>)>>,
    Error,
> {
    match take_u8(s, Mode::Mask, input) {
        Ok(t) => if t.value == 0 {
            Ok(Taken { sponge: t.sponge, value: None, rest: t.rest })
        } else if t.value == 1 {
            match take(t.sponge, Mode::Mask, t.rest, APPADDR_SIZE as nat) {
                Ok(u) => match take(u.sponge, Mode::Mask, u.rest, MSGID_SIZE as nat) {
                    Ok(v) => Ok(
                        Taken { sponge: v.sponge, value: Some((u.value, v.value)), rest: v.rest },
                    ),
                    Err(e) => Err(e),
                },
                Err(e) => Err(e),
            }
        } else {
            Err(Error::BadOneof)
        },
        Err(e) => Err(e),
    }
}

/// Reads an identifier behind its flag.
pub open spec fn take_maybe_identifier(s: Sponge, input: Seq<u8>) -> Result<
    Taken<Option<Seq<u8>>>,
    Error,
> {
    match take_u8(s, Mode::Mask, input) {
        Ok(t) => if t.value == 0 {
            Ok(Taken { sponge: t.sponge, value: None, rest: t.rest })
        } else if t.value == 1 {
            match take_identifier(t.sponge, Mode::Mask, t.rest) {
                Ok(u) => Ok(Taken { sponge: u.sponge, value: Some(u.value), rest: u.rest }),
                Err(e) => Err(e),
            }
        } else {
            Err(Error::BadOneof)
        },
        Err(e) => Err(e),
    }
}

/// Reads the head of a state.
pub open spec fn take_head(s: Sponge, input: Seq<u8>) -> Result<Taken<Head>, Error> {
    match take_maybe_identity(s, input) {
        Ok(t) => match take_maybe_address(t.sponge, t.rest) {
            Ok(u) => match take_maybe_identifier(u.sponge, u.rest) {
                Ok(v) => Ok(
                    Taken {
                        sponge: v.sponge,
                        value: Head {
                            user_id: t.value,
                            stream_address: u.value,
                            author_identifier: v.value,
                        },
                        rest: v.rest,
                    },
                ),
                Err(e) => Err(e),
            },
            Err(e) => Err(e),
        },
        Err(e) => Err(e),
    }
}

/// What reading the four maps of a state leaves.
pub struct Tables {
    pub spongos: Map<Seq<u8>, Seq<u8>>,
    pub cursors: Map<Seq<u8>, Seq<u8>>,
    pub exchange_keys: Map<Seq<u8>, Seq<u8>>,
    pub psks: Map<Seq<u8>, Seq<u8>>,
}

/// Reads the four maps of a state.
pub open spec fn take_tables(s: Sponge, input: Seq<u8>) -> Result<Taken<Tables>, Error> {
    match take_table(s, input) {
        Ok(a) => match take_table(a.sponge, a.rest) {
            Ok(b) => match take_table(b.sponge, b.rest) {
                Ok(c) => match take_table(c.sponge, c.rest) {
                    Ok(d) => Ok(
                        Taken {
                            sponge: d.sponge,
                            value: Tables {
                                spongos: a.value,
                                cursors: b.value,
                                exchange_keys: c.value,
                                psks: d.value,
                            },
                            rest: d.rest,
                        },
                    ),
                    Err(e) => Err(e),
                },
                Err(e) => Err(e),
            },
            Err(e) => Err(e),
        },
        Err(e) => Err(e),
    }
}

/// Reads a state: the head, the four maps, and the code, which must be what
/// the sponge squeezes.
pub open spec fn take_state(s: Sponge, input: Seq<u8>) -> Result<Taken<RawState>, Error> {
    match take_head(s, input) {
        Ok(h) => match take_tables(h.sponge, h.rest) {
            Ok(t) => match take_mac(t.sponge.commit(), t.rest, BACKUP_MAC_SIZE as nat) {
                Ok(m) => Ok(
                    Taken {
                        sponge: m.sponge,
                        value: RawState {
                            user_id: h.value.user_id,
                            stream_address: h.value.stream_address,
                            author_identifier: h.value.author_identifier,
                            spongos: t.value.spongos,
                            cursors: t.value.cursors,
                            exchange_keys: t.value.exchange_keys,
                            psks: t.value.psks,
                        },
                        rest: m.rest,
                    },
                ),
                Err(e) => Err(e),
            },
            Err(e) => Err(e),
        },
        Err(e) => Err(e),
    }
}

/// What a backup read under a password holds.
pub open spec fn restored_from(backup: Seq<u8>, pwd: Seq<u8>) -> Result<Taken<RawState>, Error> {
    take_state(backup_sponge(pwd), backup)
}

/// Whether what a backup holds is the state of a user: every map has the
/// shape of its store, and the sponge of the announcement is there where
/// the user is bound to a stream.
pub open spec fn valid(r: RawState) -> bool {
    &&& conforming(r.spongos, Shape::Spongos)
    &&& conforming(r.cursors, Shape::Cursors)
    &&& conforming(r.exchange_keys, Shape::ExchangeKeys)
    &&& conforming(r.psks, Shape::Psks)
    &&& match r.stream_address {
        Some(address) => r.spongos.contains_key(address.1),
        None => true,
    }
}

/// Whether a state can stand in a backup and be read back: its parts have
/// their shapes, and its maps are finite with entries whose lengths fit.
pub open spec fn storable(r: RawState) -> bool {
    &&& r.user_id is Some ==> r.user_id->0.wf()
    &&& match r.stream_address {
        Some(address) => address.0.len() == APPADDR_SIZE && address.1.len() == MSGID_SIZE,
        None => true,
    }
    &&& r.author_identifier is Some ==> is_identifier(r.author_identifier->0)
    &&& storable_map(r.spongos)
    &&& storable_map(r.cursors)
    &&& storable_map(r.exchange_keys)
    &&& storable_map(r.psks)
}

/// Whether a map is finite with entries whose lengths fit.
pub open spec fn storable_map(m: Map<Seq<u8>, Seq<u8>>) -> bool {
    fits(m) && m.dom().finite() && m.dom().len() <= u64::MAX
}

/// The head of a state read back.
#[verifier::rlimit(40)]
pub proof fn lemma_take_put_head(s: Sponge, r: RawState, rest: Seq<u8>)
    requires
        s.wf(),
        storable(r),
    ensures
        take_head(s, put_head(s, r).1 + rest) == Ok::<Taken<Head>, Error>(
            Taken {
                sponge: put_head(s, r).0,
                value: Head {
                    user_id: r.user_id,
                    stream_address: r.stream_address,
                    author_identifier: r.author_identifier,
                },
                rest,
            },
        ),
        put_head(s, r).0.wf(),
        put_head(s, r).1.len() == head_len(r),
{
    let (s1, a) = put_maybe_identity(s, r.user_id);
    let (s2, b) = put_maybe_address(s1, r.stream_address);
    let (s3, c) = put_maybe_identifier(s2, r.author_identifier);
    assert((a + b + c) + rest =~= a + (b + c + rest));
    assert(b + c + rest =~= b + (c + rest));
    match r.user_id {
        Some(u) => {
            let (t1, x) = put_u8(s, Mode::Mask, 1);
            let (t2, y) = put_identity(t1, Mode::Mask, u);
            lemma_take_put_u8(s, Mode::Mask, 1, y + (b + c + rest));
            lemma_take_put_identity(t1, Mode::Mask, u, b + c + rest);
            assert((x + y) + (b + c + rest) =~= x + (y + (b + c + rest)));
        },
        None => {
            lemma_take_put_u8(s, Mode::Mask, 0, b + c + rest);
        },
    }
    match r.stream_address {
        Some(addr) => {
            let (t1, x) = put_u8(s1, Mode::Mask, 1);
            let (t2, y) = put(t1, Mode::Mask, addr.0);
            let (t3, z) = put(t2, Mode::Mask, addr.1);
            lemma_take_put_u8(s1, Mode::Mask, 1, y + z + (c + rest));
            lemma_put_wf(t1, Mode::Mask, addr.0);
            lemma_take_put(t1, Mode::Mask, addr.0, z + (c + rest));
            lemma_put_wf(t2, Mode::Mask, addr.1);
            lemma_take_put(t2, Mode::Mask, addr.1, c + rest);
            assert((x + y + z) + (c + rest) =~= x + (y + z + (c + rest)));
            assert(y + z + (c + rest) =~= y + (z + (c + rest)));
        },
        None => {
            lemma_take_put_u8(s1, Mode::Mask, 0, c + rest);
        },
    }
    match r.author_identifier {
        Some(id) => {
            let (t1, x) = put_u8(s2, Mode::Mask, 1);
            let (t2, y) = put_identifier(t1, Mode::Mask, id);
            lemma_take_put_u8(s2, Mode::Mask, 1, y + rest);
            lemma_take_put_identifier(t1, Mode::Mask, id, rest);
            assert((x + y) + rest =~= x + (y + rest));
        },
        None => {
            lemma_take_put_u8(s2, Mode::Mask, 0, rest);
        },
    }
}

/// The four maps of a state read back.
pub proof fn lemma_take_put_tables(s: Sponge, r: RawState, rest: Seq<u8>)
    requires
        s.wf(),
        storable_map(r.spongos),
        storable_map(r.cursors),
        storable_map(r.exchange_keys),
        storable_map(r.psks),
    ensures
        take_tables(s, put_tables(s, r).1 + rest) == Ok::<Taken<Tables>, Error>(
            Taken {
                sponge: put_tables(s, r).0,
                value: Tables {
                    spongos: r.spongos,
                    cursors: r.cursors,
                    exchange_keys: r.exchange_keys,
                    psks: r.psks,
                },
                rest,
            },
        ),
        put_tables(s, r).0.wf(),
        put_tables(s, r).1.len() == table_len(r.spongos) + table_len(r.cursors) + table_len(
            r.exchange_keys,
        ) + table_len(r.psks),
{
    let (s1, a) = put_table(s, r.spongos);
    let (s2, b) = put_table(s1, r.cursors);
    let (s3, c) = put_table(s2, r.exchange_keys);
    let (s4, d) = put_table(s3, r.psks);
    lemma_take_put_table(s, r.spongos, b + c + d + rest);
    lemma_take_put_table(s1, r.cursors, c + d + rest);
    lemma_take_put_table(s2, r.exchange_keys, d + rest);
    lemma_take_put_table(s3, r.psks, rest);
    assert((a + b + c + d) + rest =~= a + (b + c + d + rest));
    assert(b + c + d + rest =~= b + (c + d + rest));
    assert(c + d + rest =~= c + (d + rest));
}

/// A state that can stand in a backup is read back as it was written, and
/// reading leaves the sponge that writing left.
pub proof fn lemma_take_put_state(s: Sponge, r: RawState, rest: Seq<u8>)
    requires
        s.wf(),
        storable(r),
    ensures
        take_state(s, put_state(s, r).1 + rest) == Ok::<Taken<RawState>, Error>(
            Taken { sponge: put_state(s, r).0, value: r, rest },
        ),
        put_state(s, r).1.len() == state_len(r),
{
    let (s0, h) = put_head(s, r);
    let (s4, t) = put_tables(s0, r);
    let (s5, m) = put_mac(s4.commit(), BACKUP_MAC_SIZE as nat);
    lemma_take_put_head(s, r, t + m + rest);
    lemma_take_put_tables(s0, r, m + rest);
    lemma_take_put_mac(s4.commit(), BACKUP_MAC_SIZE as nat, rest);
    assert((h + t + m) + rest =~= h + (t + m + rest));
    assert(t + m + rest =~= t + (m + rest));
}

impl PartialEq for State {
    /// Whether two states stand alike in a backup.
    fn eq(&self, other: &State) -> (r: bool) {
        self.same_raw(other)
    }
}

impl vstd::std_specs::cmp::PartialEqSpecImpl for State {
    open spec fn obeys_eq_spec() -> bool {
        true
    }

    open spec fn eq_spec(&self, other: &State) -> bool {
        self.raw() == other.raw()
    }
}

impl State {
    /// The state as it stands in a backup.
    pub open spec fn raw(&self) -> RawState {
        RawState {
            user_id: match self.user_id {
                Some(u) => Some(u@),
                None => None,
            },
            stream_address: match self.stream_address {
                Some(a) => Some((a.base@, a.relative@)),
                None => None,
            },
            author_identifier: match self.author_identifier {
                Some(a) => Some(a@),
                None => None,
            },
            spongos: self.spongos_store.raw(),
            cursors: self.cursor_store.raw(),
            exchange_keys: self.exchange_keys@,
            psks: self.psk_store@,
        }
    }

    /// What stands in a backup of a well-formed state is the state as a
    /// value, it is the state of a user, and it has the shapes and the
    /// finite maps that a backup needs.
    pub proof fn lemma_raw(&self)
        requires
            self.wf(),
        ensures
            self.raw() == raw_of(self@),
            valid(self.raw()),
            self.raw().user_id is Some ==> self.raw().user_id->0.wf(),
            match self.raw().stream_address {
                Some(address) => address.0.len() == APPADDR_SIZE && address.1.len() == MSGID_SIZE,
                None => true,
            },
            self.raw().author_identifier is Some ==> is_identifier(
                self.raw().author_identifier->0,
            ),
            self.raw().spongos.dom().finite(),
            self.raw().cursors.dom().finite(),
            self.raw().exchange_keys.dom().finite(),
            self.raw().psks.dom().finite(),
    {
        self.spongos_store.lemma_wf();
        self.cursor_store.lemma_wf();
        self.exchange_keys.lemma_wf();
        self.psk_store.lemma_wf();
        assert(self.raw().spongos =~= raw_of(self@).spongos);
        assert(self.raw().cursors =~= raw_of(self@).cursors);
        match self.user_id {
            Some(u) => {
                u.lemma_wf();
            },
            None => {},
        }
        match self.author_identifier {
            Some(a) => {
                lemma_identifier(a);
            },
            None => {},
        }
        match self.stream_address {
            Some(a) => {
                assert(a.base@.len() == APPADDR_SIZE);
                assert(a.relative@.len() == MSGID_SIZE);
            },
            None => {},
        }
    }

    /// Whether two states stand alike in a backup.
    #[verifier::rlimit(40)]
    pub fn same_raw(&self, other: &State) -> (r: bool)
        ensures
            r == (self.raw() == other.raw()),
    {
        let user_id = match (&self.user_id, &other.user_id) {
            (Some(a), Some(b)) => {
                proof {
                    a.lemma_wf();
                    b.lemma_wf();
                }
                let ka = a.key_bytes();
                let kb = b.key_bytes();
                a.id.same(&b.id) && crate::ddml::types::same_bytes(ka.as_slice(), kb.as_slice())
            },
            (None, None) => true,
            _ => false,
        };
        let stream_address = match (&self.stream_address, &other.stream_address) {
            (Some(a), Some(b)) => a.same(b),
            (None, None) => true,
            _ => false,
        };
        let author_identifier = match (&self.author_identifier, &other.author_identifier) {
            (Some(a), Some(b)) => a.same(b),
            (None, None) => true,
            _ => false,
        };
        user_id && stream_address && author_identifier && self.spongos_store.raw_map().same(
            other.spongos_store.raw_map(),
        ) && self.cursor_store.raw_map().same(other.cursor_store.raw_map())
            && self.exchange_keys.raw_map().same(other.exchange_keys.raw_map())
            && self.psk_store.raw_map().same(other.psk_store.raw_map())
    }

    /// Whether two states are the same as values.
    pub fn same(&self, other: &State) -> (r: bool)
        requires
            self.wf(),
            other.wf(),
        ensures
            r == (self@ == other@),
    {
        proof {
            self.lemma_raw();
            other.lemma_raw();
            self.spongos_store.lemma_wf();
            other.spongos_store.lemma_wf();
            lemma_raw_of_injective(self@, other@);
        }
        self.same_raw(other)
    }

    /// Measures the state.
    pub fn sizeof_state(&self, ctx: &mut sizeof::Context) -> (r: Result<(), Error>)
        requires
            self.wf(),
        ensures
            final(ctx).grown(*old(ctx), state_len(self.raw()), r),
    {
        proof {
            self.lemma_raw();
        }
        ctx.add(3)?;
        match &self.user_id {
            Some(u) => {
                u.sizeof_secrets(ctx)?;
            },
            None => {},
        }
        match &self.stream_address {
            Some(_) => {
                ctx.add(APPADDR_SIZE + MSGID_SIZE)?;
            },
            None => {},
        }
        match &self.author_identifier {
            Some(a) => {
                a.sizeof(ctx)?;
            },
            None => {},
        }
        sizeof_table(ctx, self.spongos_store.raw_map())?;
        sizeof_table(ctx, self.cursor_store.raw_map())?;
        sizeof_table(ctx, self.exchange_keys.raw_map())?;
        sizeof_table(ctx, self.psk_store.raw_map())?;
        ctx.add(BACKUP_MAC_SIZE)
    }

    /// Writes the head of the state.
    pub fn wrap_head(&self, ctx: &mut wrap::Context)
        requires
            self.wf(),
            old(ctx).wf(),
        ensures
            final(ctx)@ == old(ctx)@.after(put_head(old(ctx)@.sponge, self.raw())),
            put_head(old(ctx)@.sponge, self.raw()).1.len() == head_len(self.raw()),
            final(ctx).wf(),
    {
        proof {
            self.lemma_raw();
            lemma_head_len(ctx@.sponge, self.raw());
        }
        wrap_maybe_identity(ctx, &self.user_id);
        wrap_maybe_address(ctx, &self.stream_address);
        wrap_maybe_identifier(ctx, &self.author_identifier);
        assert(ctx@.bytes =~= old(ctx)@.after(put_head(old(ctx)@.sponge, self.raw())).bytes);
    }

    /// Writes the state.
    pub fn wrap_state(&self, ctx: &mut wrap::Context)
        requires
            self.wf(),
            old(ctx).wf(),
        ensures
            final(ctx)@ == old(ctx)@.after(put_state(old(ctx)@.sponge, self.raw())),
            put_state(old(ctx)@.sponge, self.raw()).1.len() == state_len(self.raw()),
            final(ctx).wf(),
    {
        self.wrap_head(ctx);
        wrap_table(ctx, self.spongos_store.raw_map());
        wrap_table(ctx, self.cursor_store.raw_map());
        wrap_table(ctx, self.exchange_keys.raw_map());
        wrap_table(ctx, self.psk_store.raw_map());
        ctx.commit();
        proof {
            lemma_squeeze_wf(ctx@.sponge, BACKUP_MAC_SIZE as nat);
        }
        ctx.squeeze(BACKUP_MAC_SIZE);
        assert(ctx@.bytes =~= old(ctx)@.after(put_state(old(ctx)@.sponge, self.raw())).bytes);
    }

    /// Reads the head of a state.
    pub fn unwrap_head(ctx: &mut unwrap::Context) -> (r: Result<
        (Option<UserIdentity>, Option<Address>, Option<Identifier>),
        Error,
    >)
        requires
            old(ctx).wf(),
        ensures
            final(ctx)@.follows(
                take_head(old(ctx)@.sponge, old(ctx)@.bytes),
                match r {
                    Ok(h) => Ok::<Head, Error>(
                        Head {
                            user_id: match h.0 {
                                Some(u) => Some(u@),
                                None => None,
                            },
                            stream_address: match h.1 {
                                Some(a) => Some((a.base@, a.relative@)),
                                None => None,
                            },
                            author_identifier: match h.2 {
                                Some(a) => Some(a@),
                                None => None,
                            },
                        },
                    ),
                    Err(e) => Err::<Head, Error>(e),
                },
            ),
            final(ctx).wf(),
    {
        let flag = ctx.take_u8(Mode::Mask)?;
        let user_id = if flag == 0 {
            None
        } else if flag == 1 {
            Some(UserIdentity::unwrap_secrets(ctx, Mode::Mask)?)
        } else {
            return Err(Error::BadOneof);
        };
        let flag = ctx.take_u8(Mode::Mask)?;
        let stream_address = if flag == 0 {
            None
        } else if flag == 1 {
            let base = ctx.take(Mode::Mask, APPADDR_SIZE)?;
            let relative = ctx.take(Mode::Mask, MSGID_SIZE)?;
            Some(
                Address::new(
                    AppAddr::new(array_from::<40>(base.as_slice())),
                    MsgId::new(array_from::<12>(relative.as_slice())),
                ),
            )
        } else {
            return Err(Error::BadOneof);
        };
        let flag = ctx.take_u8(Mode::Mask)?;
        let author_identifier = if flag == 0 {
            None
        } else if flag == 1 {
            Some(Identifier::unwrap(ctx, Mode::Mask)?)
        } else {
            return Err(Error::BadOneof);
        };
        Ok((user_id, stream_address, author_identifier))
    }

    /// Reads a state. What does not have the shape of the state of a user
    /// is refused.
    #[verifier::rlimit(40)]
    pub fn unwrap_state(ctx: &mut unwrap::Context) -> (r: Result<State, Error>)
        requires
            old(ctx).wf(),
        ensures
            match take_state(old(ctx)@.sponge, old(ctx)@.bytes) {
                Ok(t) => if valid(t.value) {
                    r is Ok && r->Ok_0.raw() == t.value && r->Ok_0.wf() && final(ctx)@.sponge
                        == t.sponge && final(ctx)@.bytes == t.rest
                } else {
                    r is Err && r->Err_0 == Error::BadState
                },
                Err(e) => r is Err && r->Err_0 == e,
            },
            final(ctx).wf(),
    {
        let (user_id, stream_address, author_identifier) = State::unwrap_head(ctx)?;
        let spongos = unwrap_table(ctx)?;
        let cursors = unwrap_table(ctx)?;
        let exchange_keys = unwrap_table(ctx)?;
        let psks = unwrap_table(ctx)?;
        ctx.commit();
        ctx.take_mac(BACKUP_MAC_SIZE)?;
        let spongos_store = match SpongosStore::from_map(spongos) {
            Some(s) => s,
            None => {
                return Err(Error::BadState);
            },
        };
        let cursor_store = match CursorStore::from_map(cursors) {
            Some(s) => s,
            None => {
                return Err(Error::BadState);
            },
        };
        let exchange_keys = match KeyStore::from_map(exchange_keys, Shape::ExchangeKeys) {
            Some(s) => s,
            None => {
                return Err(Error::BadState);
            },
        };
        let psk_store = match KeyStore::from_map(psks, Shape::Psks) {
            Some(s) => s,
            None => {
                return Err(Error::BadState);
            },
        };
        proof {
            spongos_store.lemma_wf();
            cursor_store.lemma_wf();
        }
        match &stream_address {
            Some(a) => {
                if !spongos_store.contains(&a.relative()) {
                    return Err(Error::BadState);
                }
            },
            None => {},
        }
        Ok(
            State {
                user_id,
                stream_address,
                author_identifier,
                cursor_store,
                psk_store,
                exchange_keys,
                spongos_store,
            },
        )
    }

    /// The backup of the state under the password `pwd`: the state masked
    /// by a sponge that has absorbed the key of the password, and a code.
    /// The bytes depend on the state as a value and on the password alone.
    /// Fails only where the size does not fit the machine.
    pub fn backup(&self, pwd: &[u8]) -> (r: Result<Vec<u8>, Error>)
        requires
            self.wf(),
        ensures
            if state_len(self.raw()) <= usize::MAX {
                r is Ok && r->Ok_0@ == backup_of(self.raw(), pwd@) && r->Ok_0@.len() == state_len(
                    self.raw(),
                )
            } else {
                r is Err && r->Err_0 == Error::SizeOverflow
            },
    {
        let mut size = sizeof::Context::new();
        self.sizeof_state(&mut size)?;
        let mut ctx = wrap::Context::new(size.size());
        let key = password_key(pwd);
        ctx.absorb_external(key.as_slice());
        ctx.commit();
        self.wrap_state(&mut ctx);
        let (_spongos, bytes) = ctx.finalize();
        assert(bytes@ =~= backup_of(self.raw(), pwd@));
        Ok(bytes)
    }

    /// The state that a backup holds under the password `pwd`.
    pub fn restore(backup: &[u8], pwd: &[u8]) -> (r: Result<State, Error>)
        ensures
            match restored_from(backup@, pwd@) {
                Ok(t) => if valid(t.value) {
                    r is Ok && r->Ok_0.raw() == t.value && r->Ok_0.wf()
                } else {
                    r is Err && r->Err_0 == Error::BadState
                },
                Err(e) => r is Err && r->Err_0 == e,
            },
    {
        let mut ctx = unwrap::Context::new(vstd::slice::slice_to_vec(backup));
        let key = password_key(pwd);
        ctx.absorb_external(key.as_slice());
        ctx.commit();
        State::unwrap_state(&mut ctx)
    }
}

fn wrap_maybe_identity(ctx: &mut wrap::Context, o: &Option<UserIdentity>)
    requires
        old(ctx).wf(),
    ensures
        final(ctx)@ == old(ctx)@.after(
            put_maybe_identity(
                old(ctx)@.sponge,
                match *o {
                    Some(u) => Some(u@),
                    None => None,
                },
            ),
        ),
        final(ctx).wf(),
{
    match o {
        Some(u) => {
            ctx.put_u8(Mode::Mask, 1);
            u.wrap_secrets(ctx, Mode::Mask);
            assert(ctx@.bytes =~= old(ctx)@.after(
                put_maybe_identity(old(ctx)@.sponge, Some(u@)),
            ).bytes);
        },
        None => {
            ctx.put_u8(Mode::Mask, 0);
        },
    }
}

fn wrap_maybe_address(ctx: &mut wrap::Context, o: &Option<Address>)
    requires
        old(ctx).wf(),
    ensures
        final(ctx)@ == old(ctx)@.after(
            put_maybe_address(
                old(ctx)@.sponge,
                match *o {
                    Some(a) => Some((a.base@, a.relative@)),
                    None => None,
                },
            ),
        ),
        final(ctx).wf(),
{
    match o {
        Some(a) => {
            ctx.put_u8(Mode::Mask, 1);
            ctx.put(Mode::Mask, a.base.bytes.as_slice());
            ctx.put(Mode::Mask, a.relative.bytes.as_slice());
            assert(ctx@.bytes =~= old(ctx)@.after(
                put_maybe_address(old(ctx)@.sponge, Some((a.base@, a.relative@))),
            ).bytes);
        },
        None => {
            ctx.put_u8(Mode::Mask, 0);
        },
    }
}

fn wrap_maybe_identifier(ctx: &mut wrap::Context, o: &Option<Identifier>)
    requires
        old(ctx).wf(),
    ensures
        final(ctx)@ == old(ctx)@.after(
            put_maybe_identifier(
                old(ctx)@.sponge,
                match *o {
                    Some(a) => Some(a@),
                    None => None,
                },
            ),
        ),
        final(ctx).wf(),
{
    match o {
        Some(a) => {
            ctx.put_u8(Mode::Mask, 1);
            a.wrap(ctx, Mode::Mask);
            assert(ctx@.bytes =~= old(ctx)@.after(
                put_maybe_identifier(old(ctx)@.sponge, Some(a@)),
            ).bytes);
        },
        None => {
            ctx.put_u8(Mode::Mask, 0);
        },
    }
}

/// The key that a password stands for.
pub fn password_key(pwd: &[u8]) -> (r: Vec<u8>)
    ensures
        r@ == backup_key(pwd@),
{
    let mut s = Spongos::init();
    s.absorb(pwd);
    s.commit();
    s.squeeze(32)
}

/// The head of a state takes `head_len` bytes.
pub proof fn lemma_head_len(s: Sponge, r: RawState)
    requires
        s.wf(),
        r.user_id is Some ==> r.user_id->0.wf(),
        match r.stream_address {
            Some(address) => address.0.len() == APPADDR_SIZE && address.1.len() == MSGID_SIZE,
            None => true,
        },
        r.author_identifier is Some ==> is_identifier(r.author_identifier->0),
    ensures
        put_head(s, r).1.len() == head_len(r),
{
    let empty = Map::<Seq<u8>, Seq<u8>>::empty();
    let q = RawState { spongos: empty, cursors: empty, exchange_keys: empty, psks: empty, ..r };
    assert(empty.dom() =~= Set::<Seq<u8>>::empty());
    lemma_take_put_head(s, q, Seq::empty());
    assert(put_head(s, r) == put_head(s, q));
}

/// States that stand alike in a backup are the same, where their sponges
/// are well formed.
pub proof fn lemma_raw_of_injective(a: StateView, b: StateView)
    requires
        forall|k: Seq<u8>| #[trigger] a.spongos.contains_key(k) ==> a.spongos[k].wf(),
        forall|k: Seq<u8>| #[trigger] b.spongos.contains_key(k) ==> b.spongos[k].wf(),
    ensures
        raw_of(a) == raw_of(b) <==> a == b,
{
    if raw_of(a) == raw_of(b) {
        match (a.user_id, b.user_id) {
            (Some(x), Some(y)) => {
                crate::id::identity::lemma_identity_eq(x, y);
            },
            _ => {},
        }
        match (a.stream_address, b.stream_address) {
            (Some(x), Some(y)) => {
                assert(x.base.bytes =~= y.base.bytes);
                assert(x.relative.bytes =~= y.relative.bytes);
            },
            _ => {},
        }
        assert(a.spongos =~= b.spongos) by {
            assert forall|k: Seq<u8>| a.spongos.contains_key(k) <==> b.spongos.contains_key(k) by {
                assert(raw_of(a).spongos.contains_key(k) <==> raw_of(b).spongos.contains_key(k));
            }
            assert forall|k: Seq<u8>| #[trigger] a.spongos.contains_key(k) implies a.spongos[k]
                == b.spongos[k] by {
                assert(raw_of(a).spongos[k] == raw_of(b).spongos[k]);
                assert(b.spongos.contains_key(k));
                crate::store::lemma_sponge_bytes(a.spongos[k]);
                crate::store::lemma_sponge_bytes(b.spongos[k]);
            }
        }
        assert(a.cursors =~= b.cursors) by {
            assert forall|k: Seq<u8>| a.cursors.contains_key(k) <==> b.cursors.contains_key(k) by {
                assert(raw_of(a).cursors.contains_key(k) <==> raw_of(b).cursors.contains_key(k));
            }
            assert forall|k: Seq<u8>| #[trigger] a.cursors.contains_key(k) implies a.cursors[k]
                == b.cursors[k] by {
                assert(raw_of(a).cursors[k] == raw_of(b).cursors[k]);
                crate::ddml::types::lemma_value_of_digits(a.cursors[k] as nat);
                crate::ddml::types::lemma_value_of_digits(b.cursors[k] as nat);
            }
        }
    }
}

} // verus!
