//! The order of byte strings, and the one sorted listing of a set of them.

use vstd::prelude::*;
use crate::store::key_views;

verus! {

/// Whether `a` comes no later than `b`, byte by byte; a prefix comes first.
pub open spec fn lex_le(a: Seq<u8>, b: Seq<u8>) -> bool
    decreases a.len(),
{
    if a.len() == 0 {
        true
    } else if b.len() == 0 {
        false
    } else if a[0] != b[0] {
        a[0] < b[0]
    } else {
        lex_le(a.skip(1), b.skip(1))
    }
}

/// Whether `a` comes before `b`.
pub open spec fn lex_lt(a: Seq<u8>, b: Seq<u8>) -> bool {
    lex_le(a, b) && a != b
}

/// Of two byte strings one comes no later than the other.
pub proof fn lemma_lex_total(a: Seq<u8>, b: Seq<u8>)
    ensures
        lex_le(a, b) || lex_le(b, a),
    decreases a.len(),
{
    if a.len() > 0 && b.len() > 0 && a[0] == b[0] {
        lemma_lex_total(a.skip(1), b.skip(1));
    }
}

/// Two byte strings of which each comes no later than the other are the
/// same.
pub proof fn lemma_lex_antisymmetric(a: Seq<u8>, b: Seq<u8>)
    requires
        lex_le(a, b),
        lex_le(b, a),
    ensures
        a == b,
    decreases a.len(),
{
    if a.len() == 0 || b.len() == 0 {
        assert(a =~= b);
    } else {
        lemma_lex_antisymmetric(a.skip(1), b.skip(1));
        assert(a =~= seq![a[0]] + a.skip(1));
        assert(b =~= seq![b[0]] + b.skip(1));
    }
}

/// The order passes on.
pub proof fn lemma_lex_transitive(a: Seq<u8>, b: Seq<u8>, c: Seq<u8>)
    requires
        lex_le(a, b),
        lex_le(b, c),
    ensures
        lex_le(a, c),
    decreases a.len(),
{
    if a.len() > 0 && b.len() > 0 && c.len() > 0 && a[0] == b[0] && b[0] == c[0] {
        lemma_lex_transitive(a.skip(1), b.skip(1), c.skip(1));
    }
}

/// The strict order passes on.
pub proof fn lemma_lt_transitive(a: Seq<u8>, b: Seq<u8>, c: Seq<u8>)
    requires
        lex_lt(a, b),
        lex_lt(b, c),
    ensures
        lex_lt(a, c),
{
    lemma_lex_transitive(a, b, c);
    if a == c {
        lemma_lex_antisymmetric(a, b);
    }
}

/// Every byte string of the listing comes before those that follow it.
pub open spec fn strictly_sorted(l: Seq<Seq<u8>>) -> bool {
    forall|i: int, j: int| 0 <= i < j < l.len() ==> lex_lt(#[trigger] l[i], #[trigger] l[j])
}

/// The listing `l` with `k` at its place; `l` itself where it holds `k`.
pub open spec fn inserted(l: Seq<Seq<u8>>, k: Seq<u8>) -> Seq<Seq<u8>>
    decreases l.len(),
{
    if l.len() == 0 {
        seq![k]
    } else if lex_lt(l.last(), k) {
        l.push(k)
    } else if l.last() == k {
        l
    } else {
        inserted(l.drop_last(), k).push(l.last())
    }
}

/// The sorted listing of the byte strings of `keys`, each once.
pub open spec fn sorted_of(keys: Seq<Seq<u8>>) -> Seq<Seq<u8>>
    decreases keys.len(),
{
    if keys.len() == 0 {
        Seq::empty()
    } else {
        inserted(sorted_of(keys.drop_last()), keys.last())
    }
}

/// The sorted listing of a set of byte strings: each of them once, in
/// order.
pub open spec fn sorted_listing(l: Seq<Seq<u8>>, s: Set<Seq<u8>>) -> bool {
    strictly_sorted(l) && l.to_set() == s
}

/// The one sorted listing of a finite set of byte strings.
pub open spec fn sorted_keys(s: Set<Seq<u8>>) -> Seq<Seq<u8>> {
    choose|l: Seq<Seq<u8>>| sorted_listing(l, s)
}

/// Putting a byte string at its place keeps a listing sorted and adds the
/// byte string to what it holds.
#[verifier::rlimit(40)]
pub proof fn lemma_inserted(l: Seq<Seq<u8>>, k: Seq<u8>)
    requires
        strictly_sorted(l),
    ensures
        strictly_sorted(inserted(l, k)),
        inserted(l, k).to_set() == l.to_set().insert(k),
        forall|i: int|
            0 <= i < inserted(l, k).len() ==> #[trigger] inserted(l, k)[i] == k || l.contains(
                inserted(l, k)[i],
            ),
    decreases l.len(),
{
    let r = inserted(l, k);
    if l.len() == 0 {
        assert(r.to_set() =~= l.to_set().insert(k)) by {
            assert forall|e: Seq<u8>| r.to_set().contains(e) <==> l.to_set().insert(k).contains(
                e,
            ) by {
                if e == k {
                    assert(r[0] == e);
                }
            }
        }
    } else if lex_lt(l.last(), k) {
        assert forall|i: int, j: int| 0 <= i < j < r.len() implies lex_lt(
            #[trigger] r[i],
            #[trigger] r[j],
        ) by {
            if j == l.len() {
                if i < l.len() - 1 {
                    lemma_lt_transitive(l[i], l.last(), k);
                }
            }
        }
        assert(r.to_set() =~= l.to_set().insert(k)) by {
            assert forall|e: Seq<u8>| r.to_set().contains(e) <==> l.to_set().insert(k).contains(
                e,
            ) by {
                if l.contains(e) {
                    let i = choose|i: int| 0 <= i < l.len() && l[i] == e;
                    assert(r[i] == e);
                }
                if e == k {
                    assert(r[l.len() as int] == e);
                }
                if r.contains(e) {
                    let i = choose|i: int| 0 <= i < r.len() && r[i] == e;
                    if i < l.len() {
                        assert(l[i] == e);
                    }
                }
            }
        }
        assert forall|i: int| 0 <= i < r.len() implies #[trigger] r[i] == k || l.contains(r[i]) by {
            if i < l.len() {
                assert(l[i] == r[i]);
            }
        }
    } else if l.last() == k {
        assert(r.to_set() =~= l.to_set().insert(k)) by {
            assert(l.contains(k)) by {
                assert(l[l.len() - 1] == k);
            }
        }
        assert forall|i: int| 0 <= i < r.len() implies #[trigger] r[i] == k || l.contains(r[i]) by {
            assert(l[i] == r[i]);
        }
    } else {
        let front = l.drop_last();
        let inner = inserted(front, k);
        assert(strictly_sorted(front));
        lemma_inserted(front, k);
        lemma_lex_total(l.last(), k);
        assert(lex_lt(k, l.last()));
        assert forall|i: int, j: int| 0 <= i < j < r.len() implies lex_lt(
            #[trigger] r[i],
            #[trigger] r[j],
        ) by {
            if j == inner.len() {
                if inner[i] != k {
                    assert(front.contains(inner[i]));
                    let m = choose|m: int| 0 <= m < front.len() && front[m] == inner[i];
                    assert(lex_lt(l[m], l[l.len() - 1]));
                }
            } else {
                assert(lex_lt(inner[i], inner[j]));
            }
        }
        assert(r.to_set() =~= l.to_set().insert(k)) by {
            assert forall|e: Seq<u8>| r.to_set().contains(e) <==> l.to_set().insert(k).contains(
                e,
            ) by {
                if r.contains(e) {
                    let i = choose|i: int| 0 <= i < r.len() && r[i] == e;
                    if i < inner.len() {
                        assert(inner[i] == e);
                        assert(inner.to_set().contains(e));
                        if e != k {
                            assert(front.contains(e));
                            let m = choose|m: int| 0 <= m < front.len() && front[m] == e;
                            assert(l[m] == e);
                        }
                    } else {
                        assert(l[l.len() - 1] == e);
                    }
                }
                if l.contains(e) {
                    let i = choose|i: int| 0 <= i < l.len() && l[i] == e;
                    if i < front.len() {
                        assert(front[i] == e);
                        assert(front.to_set().contains(e));
                        assert(inner.to_set().contains(e));
                        let m = choose|m: int| 0 <= m < inner.len() && inner[m] == e;
                        assert(r[m] == e);
                    } else {
                        assert(r[inner.len() as int] == e);
                    }
                }
                if e == k {
                    assert(inner.to_set().contains(k));
                    let m = choose|m: int| 0 <= m < inner.len() && inner[m] == k;
                    assert(r[m] == k);
                }
            }
        }
        assert forall|i: int| 0 <= i < r.len() implies #[trigger] r[i] == k || l.contains(r[i]) by {
            if i < inner.len() {
                if inner[i] != k {
                    assert(front.contains(inner[i]));
                    let m = choose|m: int| 0 <= m < front.len() && front[m] == inner[i];
                    assert(l[m] == inner[i]);
                }
            } else {
                assert(l[l.len() - 1] == r[i]);
            }
        }
    }
}

/// The sorted listing of keys is sorted and holds what the keys hold.
pub proof fn lemma_sorted_of(keys: Seq<Seq<u8>>)
    ensures
        sorted_listing(sorted_of(keys), keys.to_set()),
    decreases keys.len(),
{
    if keys.len() == 0 {
        assert(sorted_of(keys).to_set() =~= keys.to_set());
    } else {
        let front = keys.drop_last();
        lemma_sorted_of(front);
        lemma_inserted(sorted_of(front), keys.last());
        assert(front.to_set().insert(keys.last()) =~= keys.to_set()) by {
            assert forall|e: Seq<u8>|
                front.to_set().insert(keys.last()).contains(e) <==> keys.to_set().contains(e) by {
                if front.contains(e) {
                    let i = choose|i: int| 0 <= i < front.len() && front[i] == e;
                    assert(keys[i] == e);
                }
                if e == keys.last() {
                    assert(keys[keys.len() - 1] == e);
                }
                if keys.contains(e) {
                    let i = choose|i: int| 0 <= i < keys.len() && keys[i] == e;
                    if i < front.len() {
                        assert(front[i] == e);
                    }
                }
            }
        }
    }
}

/// A set of byte strings has one sorted listing.
pub proof fn lemma_sorted_listing_unique(x: Seq<Seq<u8>>, y: Seq<Seq<u8>>, s: Set<Seq<u8>>)
    requires
        sorted_listing(x, s),
        sorted_listing(y, s),
    ensures
        x == y,
    decreases x.len(),
{
    if x.len() == 0 {
        if y.len() > 0 {
            assert(y.contains(y[0]));
            assert(x.to_set().contains(y[0]));
        }
        assert(x =~= y);
    } else if y.len() == 0 {
        assert(x.contains(x[0]));
        assert(y.to_set().contains(x[0]));
    } else {
        let a = x.last();
        let b = y.last();
        assert(x.contains(a)) by {
            assert(x[x.len() - 1] == a);
        }
        assert(y.contains(b)) by {
            assert(y[y.len() - 1] == b);
        }
        assert(y.to_set().contains(a));
        assert(x.to_set().contains(b));
        let j = choose|j: int| 0 <= j < y.len() && y[j] == a;
        let i = choose|i: int| 0 <= i < x.len() && x[i] == b;
        assert(lex_le(a, b)) by {
            if j < y.len() - 1 {
                assert(lex_lt(y[j], y[y.len() - 1]));
            } else {
                lemma_lex_total(a, b);
            }
        }
        assert(lex_le(b, a)) by {
            if i < x.len() - 1 {
                assert(lex_lt(x[i], x[x.len() - 1]));
            } else {
                lemma_lex_total(a, b);
            }
        }
        lemma_lex_antisymmetric(a, b);
        let xf = x.drop_last();
        let yf = y.drop_last();
        assert(xf.to_set() =~= yf.to_set()) by {
            assert forall|e: Seq<u8>| xf.to_set().contains(e) <==> yf.to_set().contains(e) by {
                if xf.contains(e) {
                    let m = choose|m: int| 0 <= m < xf.len() && xf[m] == e;
                    assert(lex_lt(x[m], x[x.len() - 1]));
                    assert(x.contains(e)) by {
                        assert(x[m] == e);
                    }
                    assert(y.to_set().contains(e));
                    let n = choose|n: int| 0 <= n < y.len() && y[n] == e;
                    assert(yf[n] == e);
                }
                if yf.contains(e) {
                    let m = choose|m: int| 0 <= m < yf.len() && yf[m] == e;
                    assert(lex_lt(y[m], y[y.len() - 1]));
                    assert(y.contains(e)) by {
                        assert(y[m] == e);
                    }
                    assert(x.to_set().contains(e));
                    let n = choose|n: int| 0 <= n < x.len() && x[n] == e;
                    assert(xf[n] == e);
                }
            }
        }
        lemma_sorted_listing_unique(xf, yf, xf.to_set());
        assert(x =~= xf.push(a));
        assert(y =~= yf.push(b));
    }
}

/// A sorted listing holds no byte string twice.
pub proof fn lemma_strictly_sorted_no_duplicates(l: Seq<Seq<u8>>)
    requires
        strictly_sorted(l),
    ensures
        l.no_duplicates(),
{
    assert forall|i: int, j: int| 0 <= i < l.len() && 0 <= j < l.len() && i != j implies l[i]
        != l[j] by {
        if i < j {
            assert(lex_lt(l[i], l[j]));
        } else {
            assert(lex_lt(l[j], l[i]));
        }
    }
}

/// The sorted listing of keys is the one sorted listing of what they hold.
pub proof fn lemma_sorted_keys(keys: Seq<Seq<u8>>)
    ensures
        sorted_of(keys) == sorted_keys(keys.to_set()),
        sorted_listing(sorted_keys(keys.to_set()), keys.to_set()),
{
    lemma_sorted_of(keys);
    lemma_sorted_listing_unique(sorted_of(keys), sorted_keys(keys.to_set()), keys.to_set());
}

/// Whether `a` comes no later than `b`.
pub fn lex_le_exec(a: &[u8], b: &[u8]) -> (r: bool)
    ensures
        r == lex_le(a@, b@),
{
    let mut i: usize = 0;
    assert(a@.skip(0) =~= a@);
    assert(b@.skip(0) =~= b@);
    while i < a.len() && i < b.len()
        invariant
            i <= a.len(),
            i <= b.len(),
            lex_le(a@, b@) == lex_le(a@.skip(i as int), b@.skip(i as int)),
        decreases a.len() - i,
    {
        proof {
            assert(a@.skip(i as int).skip(1) =~= a@.skip(i + 1));
            assert(b@.skip(i as int).skip(1) =~= b@.skip(i + 1));
        }
        if a[i] != b[i] {
            return a[i] < b[i];
        }
        i = i + 1;
    }
    i == a.len()
}

/// Puts `k` at its place in the sorted listing `out`, unless `out` holds it.
#[verifier::rlimit(40)]
pub fn insert_key(out: &mut Vec<Vec<u8>>, k: Vec<u8>)
    ensures
        key_views(final(out)@) == inserted(key_views(old(out)@), k@),
{
    let ghost l = key_views(out@);
    let mut tail: Vec<Vec<u8>> = Vec::new();
    let mut moved = false;
    proof {
        assert(l.take(l.len() as int) =~= l);
        assert(l.skip(l.len() as int) =~= Seq::<Seq<u8>>::empty());
        assert(inserted(l, k@) + Seq::<Seq<u8>>::empty() =~= inserted(l, k@));
    }
    while out.len() > 0 && !moved
        invariant
            l == key_views(old(out)@),
            out@.len() + tail@.len() == l.len(),
            key_views(out@) == l.take(out@.len() as int),
            forall|j: int|
                0 <= j < tail@.len() ==> (#[trigger] tail@[j])@ == l[l.len() - 1 - j],
            inserted(l, k@) == inserted(l.take(out@.len() as int), k@) + l.skip(out@.len() as int),
            moved ==> out@.len() > 0 && !(!lex_lt(l[out@.len() - 1], k@) && l[out@.len() - 1]
                != k@),
        decreases out@.len() + (if moved { 0int } else { 1int }),
    {
        let n: usize = out.len();
        let ghost front = l.take(n as int);
        assert(front.last() == l[n - 1]);
        assert(key_views(out@)[n - 1] == out@[n - 1]@);
        let last_le = lex_le_exec(out[n - 1].as_slice(), k.as_slice());
        let same = crate::ddml::types::same_bytes(out[n - 1].as_slice(), k.as_slice());
        if last_le || same {
            moved = true;
        } else {
            let last = out.pop().unwrap();
            proof {
                assert(front.drop_last() =~= l.take(n - 1));
                assert(inserted(front, k@) == inserted(front.drop_last(), k@).push(front.last()));
                assert(inserted(front.drop_last(), k@).push(front.last()) + l.skip(n as int)
                    =~= inserted(front.drop_last(), k@) + l.skip(n - 1));
                assert(key_views(out@) =~= l.take(n - 1));
            }
            tail.push(last);
        }
    }
    let ghost n = out@.len() as int;
    let ghost front = l.take(n);
    let absent = if out.len() == 0 {
        true
    } else {
        assert(key_views(out@)[n - 1] == out@[n - 1]@);
        assert(front.last() == l[n - 1]);
        !crate::ddml::types::same_bytes(out[out.len() - 1].as_slice(), k.as_slice())
    };
    if absent {
        out.push(k);
        proof {
            assert(key_views(out@) =~= front.push(k@));
        }
    }
    assert(key_views(out@) == inserted(front, k@));
    let ghost placed = key_views(out@);
    while tail.len() > 0
        invariant
            n + tail@.len() <= l.len(),
            0 <= n <= l.len(),
            forall|j: int|
                0 <= j < tail@.len() ==> (#[trigger] tail@[j])@ == l[l.len() - 1 - j],
            key_views(out@) == placed + l.subrange(n, l.len() - tail@.len()),
        decreases tail@.len(),
    {
        let ghost before = key_views(out@);
        let ghost m = tail@.len() as int;
        let x = tail.pop().unwrap();
        assert(x@ == l[l.len() - m]);
        out.push(x);
        proof {
            assert(key_views(out@) =~= before.push(x@));
            assert(placed + l.subrange(n, l.len() - m + 1) =~= (placed + l.subrange(
                n,
                l.len() - m,
            )).push(l[l.len() - m]));
        }
    }
    assert(l.subrange(n, l.len() as int) =~= l.skip(n));
}

/// The sorted listing of `keys`, each once.
pub fn sort_keys(keys: Vec<Vec<u8>>) -> (r: Vec<Vec<u8>>)
    ensures
        key_views(r@) == sorted_keys(key_views(keys@).to_set()),
        sorted_listing(key_views(r@), key_views(keys@).to_set()),
{
    let ghost all = key_views(keys@);
    let mut out: Vec<Vec<u8>> = Vec::new();
    let mut i: usize = 0;
    assert(key_views(out@) =~= sorted_of(all.take(0)));
    while i < keys.len()
        invariant
            i <= keys.len(),
            all == key_views(keys@),
            key_views(out@) == sorted_of(all.take(i as int)),
        decreases keys.len() - i,
    {
        proof {
            assert(all.take(i + 1).drop_last() =~= all.take(i as int));
            assert(all.take(i + 1).last() == keys@[i as int]@);
        }
        insert_key(&mut out, keys[i].clone());
        i = i + 1;
    }
    proof {
        assert(all.take(i as int) =~= all);
        lemma_sorted_keys(all);
    }
    out
}

} // verus!
