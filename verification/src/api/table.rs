//! How a map of byte strings stands in a backup: the number of entries, then
//! each key with its value, in the order of the keys.

use vstd::prelude::*;
use crate::ddml::sizeof;
use crate::ddml::types::bytes_len;
use crate::ddml::types::lemma_take_put_bytes;
use crate::ddml::types::lemma_take_put_size;
use crate::ddml::types::Mode;
use crate::ddml::types::put_bytes;
use crate::ddml::types::put_size;
use crate::ddml::types::size_len;
use crate::ddml::types::take_bytes;
use crate::ddml::types::take_size;
use crate::ddml::types::Taken;
use crate::ddml::unwrap;
use crate::ddml::wrap;
use crate::error::Error;
use crate::order::lemma_sorted_keys;
use crate::order::sort_keys;
use crate::order::sorted_keys;
use crate::order::sorted_listing;
use crate::spongos::Sponge;
use crate::store::ByteMap;
use crate::store::key_views;

verus! {

/// The sponge and the wire bytes after the entries of `m` at `keys` have
/// passed: each key and its value, masked, with their lengths.
pub open spec fn put_entries(s: Sponge, m: Map<Seq<u8>, Seq<u8>>, keys: Seq<Seq<u8>>) -> (
    Sponge,
    Seq<u8>,
)
    decreases keys.len(),
{
    if keys.len() == 0 {
        (s, Seq::empty())
    } else {
        let (s1, a) = put_entries(s, m, keys.drop_last());
        let (s2, b) = put_bytes(s1, Mode::Mask, keys.last());
        let (s3, c) = put_bytes(s2, Mode::Mask, m[keys.last()]);
        (s3, a + b + c)
    }
}

/// The sponge and the wire bytes after a map has passed: the number of its
/// entries, then the entries in the order of their keys.
pub open spec fn put_table(s: Sponge, m: Map<Seq<u8>, Seq<u8>>) -> (Sponge, Seq<u8>) {
    let keys = sorted_keys(m.dom());
    let (s1, a) = put_size(s, Mode::Mask, keys.len() as u64);
    let (s2, b) = put_entries(s1, m, keys);
    (s2, a + b)
}

/// Number of bytes that the entries of `m` at `keys` take on the wire.
pub open spec fn entries_len(m: Map<Seq<u8>, Seq<u8>>, keys: Seq<Seq<u8>>) -> nat
    decreases keys.len(),
{
    if keys.len() == 0 {
        0
    } else {
        entries_len(m, keys.drop_last()) + bytes_len(keys.last()) + bytes_len(m[keys.last()])
    }
}

/// Number of bytes that a map takes on the wire.
pub open spec fn table_len(m: Map<Seq<u8>, Seq<u8>>) -> nat {
    size_len(sorted_keys(m.dom()).len() as u64) + entries_len(m, sorted_keys(m.dom()))
}

/// Reads `n` entries into a map; of two with the same key the later stays.
pub open spec fn take_entries(s: Sponge, n: nat, input: Seq<u8>) -> Result<
    Taken<Map<Seq<u8>, Seq<u8>>>,
    Error,
>
    decreases n,
{
    if n == 0 {
        Ok(Taken { sponge: s, value: Map::empty(), rest: input })
    } else {
        match take_entries(s, (n - 1) as nat, input) {
            Ok(t) => match take_bytes(t.sponge, Mode::Mask, t.rest) {
                Ok(k) => match take_bytes(k.sponge, Mode::Mask, k.rest) {
                    Ok(v) => Ok(
                        Taken {
                            sponge: v.sponge,
                            value: t.value.insert(k.value, v.value),
                            rest: v.rest,
                        },
                    ),
                    Err(e) => Err(e),
                },
                Err(e) => Err(e),
            },
            Err(e) => Err(e),
        }
    }
}

/// Reads a map.
pub open spec fn take_table(s: Sponge, input: Seq<u8>) -> Result<
    Taken<Map<Seq<u8>, Seq<u8>>>,
    Error,
> {
    match take_size(s, Mode::Mask, input) {
        Ok(n) => take_entries(n.sponge, n.value as nat, n.rest),
        Err(e) => Err(e),
    }
}

/// The entries of `m` at `keys`.
pub open spec fn restricted(m: Map<Seq<u8>, Seq<u8>>, keys: Seq<Seq<u8>>) -> Map<Seq<u8>, Seq<u8>> {
    Map::new(|k: Seq<u8>| keys.contains(k), |k: Seq<u8>| m[k])
}

/// Every key and every value of the map is short enough for its length to
/// stand on the wire.
pub open spec fn fits(m: Map<Seq<u8>, Seq<u8>>) -> bool {
    forall|k: Seq<u8>| #[trigger]
        m.contains_key(k) ==> k.len() <= u64::MAX && m[k].len() <= u64::MAX
}

/// Reading fails where reading fewer entries fails, with the same error.
pub proof fn lemma_take_entries_err(s: Sponge, i: nat, n: nat, input: Seq<u8>)
    requires
        i <= n,
        take_entries(s, i, input) is Err,
    ensures
        take_entries(s, n, input) == take_entries(s, i, input),
    decreases n - i,
{
    if i < n {
        lemma_take_entries_err(s, i, (n - 1) as nat, input);
    }
}

/// The entries at `keys` read back.
pub proof fn lemma_take_put_entries(
    s: Sponge,
    m: Map<Seq<u8>, Seq<u8>>,
    keys: Seq<Seq<u8>>,
    rest: Seq<u8>,
)
    requires
        s.wf(),
        fits(m),
        forall|i: int| 0 <= i < keys.len() ==> m.contains_key(#[trigger] keys[i]),
    ensures
        take_entries(s, keys.len(), put_entries(s, m, keys).1 + rest) == Ok::<
            Taken<Map<Seq<u8>, Seq<u8>>>,
            Error,
        >(Taken { sponge: put_entries(s, m, keys).0, value: restricted(m, keys), rest }),
        put_entries(s, m, keys).0.wf(),
        put_entries(s, m, keys).1.len() == entries_len(m, keys),
    decreases keys.len(),
{
    if keys.len() == 0 {
        assert(restricted(m, keys) =~= Map::<Seq<u8>, Seq<u8>>::empty());
        assert(put_entries(s, m, keys).1 + rest =~= rest);
    } else {
        let front = keys.drop_last();
        let last = keys.last();
        let (s1, a) = put_entries(s, m, front);
        let (s2, b) = put_bytes(s1, Mode::Mask, last);
        let (s3, c) = put_bytes(s2, Mode::Mask, m[last]);
        assert(m.contains_key(keys[keys.len() - 1]));
        lemma_take_put_entries(s, m, front, b + c + rest);
        lemma_take_put_bytes(s1, Mode::Mask, last, c + rest);
        lemma_take_put_bytes(s2, Mode::Mask, m[last], rest);
        assert((a + b + c) + rest =~= a + (b + c + rest));
        assert(b + c + rest =~= b + (c + rest));
        assert(restricted(m, front).insert(last, m[last]) =~= restricted(m, keys)) by {
            assert forall|k: Seq<u8>|
                restricted(m, front).insert(last, m[last]).contains_key(k) <==> restricted(
                    m,
                    keys,
                ).contains_key(k) by {
                if front.contains(k) {
                    let i = choose|i: int| 0 <= i < front.len() && front[i] == k;
                    assert(keys[i] == k);
                }
                if k == last {
                    assert(keys[keys.len() - 1] == k);
                }
                if keys.contains(k) {
                    let i = choose|i: int| 0 <= i < keys.len() && keys[i] == k;
                    if i < front.len() {
                        assert(front[i] == k);
                    }
                }
            }
        }
    }
}

/// A finite map whose entries fit is read back as it was written.
pub proof fn lemma_take_put_table(s: Sponge, m: Map<Seq<u8>, Seq<u8>>, rest: Seq<u8>)
    requires
        s.wf(),
        fits(m),
        m.dom().finite(),
        m.dom().len() <= u64::MAX,
    ensures
        take_table(s, put_table(s, m).1 + rest) == Ok::<Taken<Map<Seq<u8>, Seq<u8>>>, Error>(
            Taken { sponge: put_table(s, m).0, value: m, rest },
        ),
        put_table(s, m).0.wf(),
        put_table(s, m).1.len() == table_len(m),
{
    let keys = sorted_keys(m.dom());
    lemma_listing(m.dom());
    let (s1, a) = put_size(s, Mode::Mask, keys.len() as u64);
    let (s2, b) = put_entries(s1, m, keys);
    lemma_take_put_size(s, Mode::Mask, keys.len() as u64, b + rest);
    assert forall|i: int| 0 <= i < keys.len() implies m.contains_key(#[trigger] keys[i]) by {
        assert(keys.contains(keys[i]));
        assert(keys.to_set().contains(keys[i]));
    }
    lemma_take_put_entries(s1, m, keys, rest);
    assert((a + b) + rest =~= a + (b + rest));
    assert(restricted(m, keys) =~= m) by {
        assert forall|k: Seq<u8>| restricted(m, keys).contains_key(k) <==> m.contains_key(k) by {
            assert(keys.to_set().contains(k) <==> keys.contains(k));
        }
    }
}

/// A finite set of byte strings has a sorted listing, as long as the set.
pub proof fn lemma_listing(s: Set<Seq<u8>>)
    requires
        s.finite(),
    ensures
        sorted_listing(sorted_keys(s), s),
        sorted_keys(s).len() == s.len(),
{
    s.lemma_to_seq_to_set_id();
    lemma_sorted_keys(s.to_seq());
    crate::order::lemma_strictly_sorted_no_duplicates(sorted_keys(s));
    sorted_keys(s).unique_seq_to_set();
}

/// Measures a map.
pub fn sizeof_table(ctx: &mut sizeof::Context, map: &ByteMap) -> (r: Result<(), Error>)
    ensures
        final(ctx).grown(*old(ctx), table_len(map.entries()), r),
{
    let keys = sort_keys(map.keys());
    let ghost all = key_views(keys@);
    let ghost m = map.entries();
    ctx.add_size(keys.len() as u64)?;
    let mut i: usize = 0;
    while i < keys.len()
        invariant
            i <= keys.len(),
            all == key_views(keys@),
            m == map.entries(),
            sorted_listing(all, m.dom()),
            all == sorted_keys(m.dom()),
            ctx@ == old(ctx)@ + size_len(keys@.len() as u64) + entries_len(m, all.take(i as int)),
        decreases keys.len() - i,
    {
        proof {
            assert(all.take(i + 1).drop_last() =~= all.take(i as int));
            assert(all.take(i + 1).last() == keys@[i as int]@);
            assert(all.contains(all[i as int]));
            lemma_entries_len_prefix(m, all, i + 1);
        }
        ctx.add_bytes(keys[i].as_slice())?;
        match map.get(&keys[i]) {
            Some(v) => {
                ctx.add_bytes(v.as_slice())?;
            },
            None => {},
        }
        i = i + 1;
    }
    assert(all.take(i as int) =~= all);
    let total: usize = ctx.size();
    Ok(())
}

/// The entries at fewer keys take no more bytes.
pub proof fn lemma_entries_len_prefix(m: Map<Seq<u8>, Seq<u8>>, keys: Seq<Seq<u8>>, i: int)
    requires
        0 <= i <= keys.len(),
    ensures
        entries_len(m, keys.take(i)) <= entries_len(m, keys),
    decreases keys.len() - i,
{
    if i < keys.len() {
        lemma_entries_len_prefix(m, keys, i + 1);
        assert(keys.take(i + 1).drop_last() =~= keys.take(i));
    } else {
        assert(keys.take(i) =~= keys);
    }
}

/// Writes a map.
pub fn wrap_table(ctx: &mut wrap::Context, map: &ByteMap)
    requires
        old(ctx).wf(),
    ensures
        final(ctx)@ == old(ctx)@.after(put_table(old(ctx)@.sponge, map.entries())),
        put_table(old(ctx)@.sponge, map.entries()).1.len() == table_len(map.entries()),
        final(ctx).wf(),
{
    let keys = sort_keys(map.keys());
    let ghost all = key_views(keys@);
    let ghost m = map.entries();
    let ghost s = ctx@.sponge;
    proof {
        lemma_take_put_size(s, Mode::Mask, keys@.len() as u64, Seq::empty());
    }
    ctx.put_size(Mode::Mask, keys.len() as u64);
    let ghost s1 = ctx@.sponge;
    let ghost a = put_size(s, Mode::Mask, keys@.len() as u64).1;
    let mut i: usize = 0;
    assert(ctx@.bytes =~= old(ctx)@.bytes + a + put_entries(s1, m, all.take(0)).1);
    while i < keys.len()
        invariant
            i <= keys.len(),
            all == key_views(keys@),
            m == map.entries(),
            sorted_listing(all, m.dom()),
            ctx.wf(),
            ctx@.sponge == put_entries(s1, m, all.take(i as int)).0,
            ctx@.bytes == old(ctx)@.bytes + a + put_entries(s1, m, all.take(i as int)).1,
            put_entries(s1, m, all.take(i as int)).1.len() == entries_len(m, all.take(i as int)),
        decreases keys.len() - i,
    {
        proof {
            assert(all.take(i + 1).drop_last() =~= all.take(i as int));
            assert(all.take(i + 1).last() == keys@[i as int]@);
            assert(all.contains(all[i as int]));
        }
        let key_len: usize = keys[i].len();
        proof {
            lemma_take_put_bytes(ctx@.sponge, Mode::Mask, keys@[i as int]@, Seq::empty());
        }
        ctx.put_bytes(Mode::Mask, keys[i].as_slice());
        match map.get(&keys[i]) {
            Some(v) => {
                let value_len: usize = v.len();
                proof {
                    lemma_take_put_bytes(ctx@.sponge, Mode::Mask, v@, Seq::empty());
                }
                ctx.put_bytes(Mode::Mask, v.as_slice());
            },
            None => {},
        }
        proof {
            assert(ctx@.bytes =~= old(ctx)@.bytes + a + put_entries(s1, m, all.take(i + 1)).1);
        }
        i = i + 1;
    }
    assert(all.take(i as int) =~= all);
    assert(ctx@.bytes =~= old(ctx)@.after(put_table(s, m)).bytes);
}

/// Reads a map.
pub fn unwrap_table(ctx: &mut unwrap::Context) -> (r: Result<ByteMap, Error>)
    requires
        old(ctx).wf(),
    ensures
        final(ctx)@.follows(
            take_table(old(ctx)@.sponge, old(ctx)@.bytes),
            match r {
                Ok(map) => Ok::<Map<Seq<u8>, Seq<u8>>, Error>(map.entries()),
                Err(e) => Err::<Map<Seq<u8>, Seq<u8>>, Error>(e),
            },
        ),
        final(ctx).wf(),
{
    let n = ctx.take_size(Mode::Mask)?;
    let ghost s = ctx@.sponge;
    let ghost input = ctx@.bytes;
    let mut map = ByteMap::new();
    let mut i: u64 = 0;
    while i < n
        invariant
            i <= n,
            ctx.wf(),
            take_entries(s, i as nat, input) == Ok::<Taken<Map<Seq<u8>, Seq<u8>>>, Error>(
                Taken { sponge: ctx@.sponge, value: map.entries(), rest: ctx@.bytes },
            ),
            take_table(old(ctx)@.sponge, old(ctx)@.bytes) == take_entries(s, n as nat, input),
        decreases n - i,
    {
        let key = match ctx.take_bytes(Mode::Mask) {
            Ok(k) => k,
            Err(e) => {
                proof {
                    assert(take_entries(s, (i + 1) as nat, input) is Err);
                    assert(take_entries(s, (i + 1) as nat, input)->Err_0 == e);
                    lemma_take_entries_err(s, (i + 1) as nat, n as nat, input);
                }
                return Err(e);
            },
        };
        let value = match ctx.take_bytes(Mode::Mask) {
            Ok(v) => v,
            Err(e) => {
                proof {
                    assert(take_entries(s, (i + 1) as nat, input) is Err);
                    assert(take_entries(s, (i + 1) as nat, input)->Err_0 == e);
                    lemma_take_entries_err(s, (i + 1) as nat, n as nat, input);
                }
                return Err(e);
            },
        };
        map.insert(key, value);
        i = i + 1;
    }
    Ok(map)
}

} // verus!
