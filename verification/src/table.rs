//! Records kept in the order of their names, no two under one name.

use crate::model;
use crate::model::{Keyed, Row};
use crate::order;
use crate::order::comes_before;
use crate::text;
use crate::text::same;
use vstd::prelude::*;

verus! {

/// The names are in strictly ascending order.
pub open spec fn sorted<K: Keyed>(s: Seq<K>) -> bool {
    forall|i: int, j: int|
        0 <= i < j < s.len() ==> order::precedes(#[trigger] s[i].key(), #[trigger] s[j].key())
}

/// Where a record named `k` stands, or would stand.
pub open spec fn rank<K: Keyed>(s: Seq<K>, k: Seq<char>) -> int
    decreases s.len(),
{
    if s.len() == 0 || !order::precedes(s[0].key(), k) {
        0
    } else {
        1 + rank(s.skip(1), k)
    }
}

/// Whether a record is kept under `k`.
pub open spec fn kept<K: Keyed>(s: Seq<K>, k: Seq<char>) -> bool {
    rank(s, k) < s.len() && s[rank(s, k)].key() == k
}

/// The record kept under `k`.
pub open spec fn find<K: Keyed>(s: Seq<K>, k: Seq<char>) -> Option<K> {
    if kept(s, k) {
        Some(s[rank(s, k)])
    } else {
        None
    }
}

/// The table with `v` under its name, in place of what was kept there.
pub open spec fn put<K: Keyed>(s: Seq<K>, v: K) -> Seq<K> {
    if kept(s, v.key()) {
        s.update(rank(s, v.key()), v)
    } else {
        s.insert(rank(s, v.key()), v)
    }
}

/// The table with nothing under `k`.
pub open spec fn dropped<K: Keyed>(s: Seq<K>, k: Seq<char>) -> Seq<K> {
    if kept(s, k) {
        s.remove(rank(s, k))
    } else {
        s
    }
}

/// The names, in order.
pub open spec fn keys<K: Keyed>(s: Seq<K>) -> Seq<Seq<char>> {
    s.map_values(|r: K| r.key())
}

/// The records of `from`, each put into `s` in turn.
pub open spec fn put_all<K: Keyed>(s: Seq<K>, from: Seq<K>) -> Seq<K>
    decreases from.len(),
{
    if from.len() == 0 {
        s
    } else {
        put(put_all(s, from.drop_last()), from.last())
    }
}

// ---------------------------------------------------------------------------
// What the operations do to each other.

proof fn lemma_rank_is<K: Keyed>(s: Seq<K>, k: Seq<char>, i: int)
    requires
        0 <= i <= s.len(),
        forall|j: int| 0 <= j < i ==> order::precedes(#[trigger] s[j].key(), k),
        i == s.len() || !order::precedes(s[i].key(), k),
    ensures
        rank(s, k) == i,
    decreases i,
{
    if i > 0 {
        assert(order::precedes(s[0].key(), k));
        assert forall|j: int| 0 <= j < i - 1 implies order::precedes(
            #[trigger] s.skip(1)[j].key(),
            k,
        ) by {
            assert(order::precedes(s[j + 1].key(), k));
        }
        lemma_rank_is(s.skip(1), k, i - 1);
    }
}

/// All records before the rank of a name come before it, and the one at the rank
/// does not.
pub proof fn lemma_rank<K: Keyed>(s: Seq<K>, k: Seq<char>)
    ensures
        0 <= rank(s, k) <= s.len(),
        forall|j: int| 0 <= j < rank(s, k) ==> order::precedes(#[trigger] s[j].key(), k),
        rank(s, k) < s.len() ==> !order::precedes(s[rank(s, k)].key(), k),
    decreases s.len(),
{
    if s.len() > 0 && order::precedes(s[0].key(), k) {
        lemma_rank(s.skip(1), k);
        assert forall|j: int| 0 <= j < rank(s, k) implies order::precedes(
            #[trigger] s[j].key(),
            k,
        ) by {
            if j > 0 {
                assert(order::precedes(s.skip(1)[j - 1].key(), k));
            }
        }
        let r = rank(s.skip(1), k);
        if r < s.skip(1).len() {
            assert(s.skip(1)[r] == s[r + 1]);
        }
    }
}

/// In a sorted table a record is found under its name, and nothing else is.
pub proof fn lemma_find<K: Keyed>(s: Seq<K>, k: Seq<char>)
    requires
        sorted(s),
    ensures
        kept(s, k) == exists|i: int| 0 <= i < s.len() && (#[trigger] s[i]).key() == k,
        forall|i: int| 0 <= i < s.len() && (#[trigger] s[i]).key() == k ==> i == rank(s, k),
{
    lemma_rank(s, k);
    let r = rank(s, k);
    assert forall|i: int| 0 <= i < s.len() && (#[trigger] s[i]).key() == k implies i == r by {
        order::lemma_irreflexive(k);
        if i < r {
            assert(order::precedes(s[i].key(), k));
        }
        if r < i {
            assert(order::precedes(s[r].key(), s[i].key()));
        }
    }
    if kept(s, k) {
        assert(s[r].key() == k);
    }
}

/// Past the rank of a name that is not kept, all records come after it.
proof fn lemma_after_rank<K: Keyed>(s: Seq<K>, k: Seq<char>)
    requires
        sorted(s),
    ensures
        forall|j: int|
            rank(s, k) <= j < s.len() && (j > rank(s, k) || !kept(s, k)) ==> order::precedes(
                k,
                #[trigger] s[j].key(),
            ),
{
    lemma_rank(s, k);
    let r = rank(s, k);
    assert forall|j: int| r <= j < s.len() && (j > r || !kept(s, k)) implies order::precedes(
        k,
        #[trigger] s[j].key(),
    ) by {
        order::lemma_total(s[r].key(), k);
        if j > r {
            assert(order::precedes(s[r].key(), s[j].key()));
            if s[r].key() != k {
                order::lemma_transitive(k, s[r].key(), s[j].key());
            }
        }
    }
}

/// Putting a record keeps the table sorted.
pub proof fn lemma_put_sorted<K: Keyed>(s: Seq<K>, v: K)
    requires
        sorted(s),
    ensures
        sorted(put(s, v)),
{
    let k = v.key();
    let r = rank(s, k);
    lemma_rank(s, k);
    lemma_after_rank(s, k);
    let t = put(s, v);
    assert forall|i: int, j: int| 0 <= i < j < t.len() implies order::precedes(
        #[trigger] t[i].key(),
        #[trigger] t[j].key(),
    ) by {
        if kept(s, k) {
            assert(i != r ==> t[i] == s[i]);
            assert(j != r ==> t[j] == s[j]);
            assert(order::precedes(s[i].key(), s[j].key()));
        } else {
            let a = if i < r {
                i
            } else {
                i - 1
            };
            let b = if j < r {
                j
            } else {
                j - 1
            };
            assert(i != r ==> t[i] == s[a]);
            assert(j != r ==> t[j] == s[b]);
            if i != r && j != r {
                assert(order::precedes(s[a].key(), s[b].key()));
            } else if i == r {
                assert(order::precedes(k, s[b].key()));
            } else {
                assert(order::precedes(s[a].key(), k));
            }
        }
    }
}

/// Dropping a record keeps the table sorted.
pub proof fn lemma_dropped_sorted<K: Keyed>(s: Seq<K>, k: Seq<char>)
    requires
        sorted(s),
    ensures
        sorted(dropped(s, k)),
{
    lemma_rank(s, k);
    let r = rank(s, k);
    let t = dropped(s, k);
    if kept(s, k) {
        assert forall|i: int, j: int| 0 <= i < j < t.len() implies order::precedes(
            #[trigger] t[i].key(),
            #[trigger] t[j].key(),
        ) by {
            let a = if i < r {
                i
            } else {
                i + 1
            };
            let b = if j < r {
                j
            } else {
                j + 1
            };
            assert(t[i] == s[a]);
            assert(t[j] == s[b]);
            assert(order::precedes(s[a].key(), s[b].key()));
        }
    }
}

/// What was put is found under its name; what is kept under other names stays.
pub proof fn lemma_find_put<K: Keyed>(s: Seq<K>, v: K, k: Seq<char>)
    requires
        sorted(s),
    ensures
        find(put(s, v), k) == (if k == v.key() {
            Some(v)
        } else {
            find(s, k)
        }),
{
    let t = put(s, v);
    let r = rank(s, v.key());
    lemma_rank(s, v.key());
    lemma_put_sorted(s, v);
    lemma_find(t, k);
    lemma_find(s, k);
    assert(t[r] == v);
    if k == v.key() {
        assert(t[r].key() == k);
    } else {
        if kept(s, k) {
            let i = rank(s, k);
            let m = if kept(s, v.key()) || i < r {
                i
            } else {
                i + 1
            };
            assert(t[m] == s[i]);
            assert(t[m].key() == k);
        }
        if kept(t, k) {
            let m = rank(t, k);
            assert(m != r);
            let i = if kept(s, v.key()) || m < r {
                m
            } else {
                m - 1
            };
            assert(s[i] == t[m]);
            assert(s[i].key() == k);
        }
    }
}

/// What was dropped is not found; what is kept under other names stays.
pub proof fn lemma_find_dropped<K: Keyed>(s: Seq<K>, x: Seq<char>, k: Seq<char>)
    requires
        sorted(s),
    ensures
        find(dropped(s, x), k) == (if k == x {
            None
        } else {
            find(s, k)
        }),
{
    let t = dropped(s, x);
    let r = rank(s, x);
    lemma_rank(s, x);
    lemma_dropped_sorted(s, x);
    lemma_find(t, k);
    lemma_find(s, k);
    lemma_find(s, x);
    if kept(s, x) {
        if kept(t, k) {
            let m = rank(t, k);
            let i = if m < r {
                m
            } else {
                m + 1
            };
            assert(s[i] == t[m]);
            assert(s[i].key() == k);
        }
        if kept(s, k) && k != x {
            let i = rank(s, k);
            let m = if i < r {
                i
            } else {
                i - 1
            };
            assert(t[m] == s[i]);
            assert(t[m].key() == k);
        }
    }
}

/// Putting back what is kept already changes nothing.
pub proof fn lemma_put_same<K: Keyed>(s: Seq<K>, v: K)
    requires
        find(s, v.key()) == Some(v),
    ensures
        put(s, v) == s,
{
    lemma_rank(s, v.key());
    assert(s.update(rank(s, v.key()), v) == s);
}

/// Putting several records keeps the table sorted.
pub proof fn lemma_put_all_sorted<K: Keyed>(s: Seq<K>, from: Seq<K>)
    requires
        sorted(s),
    ensures
        sorted(put_all(s, from)),
    decreases from.len(),
{
    if from.len() > 0 {
        lemma_put_all_sorted(s, from.drop_last());
        lemma_put_sorted(put_all(s, from.drop_last()), from.last());
    }
}

/// After several records were put, a name leads to the last of them that bears it,
/// or to what it led to before.
pub proof fn lemma_find_put_all<K: Keyed>(s: Seq<K>, from: Seq<K>, k: Seq<char>)
    requires
        sorted(s),
    ensures
        (forall|i: int| 0 <= i < from.len() ==> (#[trigger] from[i]).key() != k) ==> find(
            put_all(s, from),
            k,
        ) == find(s, k),
        forall|i: int|
            0 <= i < from.len() && (#[trigger] from[i]).key() == k && (forall|j: int|
                i < j < from.len() ==> (#[trigger] from[j]).key() != k) ==> find(
                put_all(s, from),
                k,
            ) == Some(from[i]),
    decreases from.len(),
{
    if from.len() > 0 {
        let p = from.drop_last();
        lemma_find_put_all(s, p, k);
        lemma_put_all_sorted(s, p);
        lemma_find_put(put_all(s, p), from.last(), k);
        assert(from.last() == from[from.len() - 1]);
        if forall|i: int| 0 <= i < from.len() ==> (#[trigger] from[i]).key() != k {
            assert forall|i: int| 0 <= i < p.len() implies (#[trigger] p[i]).key() != k by {
                assert(p[i] == from[i]);
            }
        }
        assert forall|i: int|
            0 <= i < from.len() && (#[trigger] from[i]).key() == k && (forall|j: int|
                i < j < from.len() ==> (#[trigger] from[j]).key() != k) implies find(
            put_all(s, from),
            k,
        ) == Some(from[i]) by {
            if i < p.len() {
                assert(p[i] == from[i]);
                assert forall|j: int| i < j < p.len() implies (#[trigger] p[j]).key() != k by {
                    assert(p[j] == from[j]);
                }
                assert(from[from.len() - 1].key() != k);
            }
        }
    }
}

/// Two sorted tables that lead every name to the same record are the same.
pub proof fn lemma_same_table<K: Keyed>(s: Seq<K>, t: Seq<K>)
    requires
        sorted(s),
        sorted(t),
        forall|k: Seq<char>| #[trigger] find(s, k) == find(t, k),
    ensures
        s == t,
    decreases s.len(),
{
    if s.len() == 0 {
        if t.len() > 0 {
            let k = t[0].key();
            lemma_find(t, k);
            lemma_find(s, k);
            assert(find(s, k) == find(t, k));
        }
        assert(s == t);
    } else {
        let a = s.last();
        assert(a == s[s.len() - 1]);
        lemma_find(s, a.key());
        lemma_find(t, a.key());
        assert(find(s, a.key()) == find(t, a.key()));
        let b = t.last();
        assert(b == t[t.len() - 1]);
        lemma_find(s, b.key());
        lemma_find(t, b.key());
        assert(find(s, b.key()) == find(t, b.key()));
        let i = rank(s, b.key());
        let j = rank(t, a.key());
        if i < s.len() - 1 {
            assert(order::precedes(s[i].key(), s[s.len() - 1].key()));
            if j < t.len() - 1 {
                assert(order::precedes(t[j].key(), t[t.len() - 1].key()));
                order::lemma_asymmetric(a.key(), b.key());
            }
        }
        if j < t.len() - 1 {
            assert(order::precedes(t[j].key(), t[t.len() - 1].key()));
            order::lemma_irreflexive(a.key());
        }
        assert(a == b);
        let p = s.drop_last();
        let q = t.drop_last();
        assert(sorted(p)) by {
            assert forall|x: int, y: int| 0 <= x < y < p.len() implies order::precedes(
                #[trigger] p[x].key(),
                #[trigger] p[y].key(),
            ) by {
                assert(order::precedes(s[x].key(), s[y].key()));
            }
        }
        assert(sorted(q)) by {
            assert forall|x: int, y: int| 0 <= x < y < q.len() implies order::precedes(
                #[trigger] q[x].key(),
                #[trigger] q[y].key(),
            ) by {
                assert(order::precedes(t[x].key(), t[y].key()));
            }
        }
        assert(p == dropped(s, a.key()));
        assert(q == dropped(t, a.key()));
        assert forall|k: Seq<char>| #[trigger] find(p, k) == find(q, k) by {
            lemma_find_dropped(s, a.key(), k);
            lemma_find_dropped(t, a.key(), k);
            assert(find(s, k) == find(t, k));
        }
        lemma_same_table(p, q);
        assert(s == p.push(a));
        assert(t == q.push(b));
    }
}

/// The last record under a name.
pub proof fn lemma_last_with_key<K: Keyed>(s: Seq<K>, k: Seq<char>) -> (i: int)
    requires
        exists|i: int| 0 <= i < s.len() && (#[trigger] s[i]).key() == k,
    ensures
        0 <= i < s.len(),
        s[i].key() == k,
        forall|j: int| i < j < s.len() ==> (#[trigger] s[j]).key() != k,
    decreases s.len(),
{
    let n = s.len() - 1;
    if s[n].key() == k {
        n
    } else {
        let p = s.drop_last();
        let w = choose|i: int| 0 <= i < s.len() && (#[trigger] s[i]).key() == k;
        assert(p[w].key() == k);
        let i = lemma_last_with_key(p, k);
        assert forall|j: int| i < j < s.len() implies (#[trigger] s[j]).key() != k by {
            if j < n {
                assert(p[j].key() != k);
            }
        }
        i
    }
}

// ---------------------------------------------------------------------------
// The operations.

/// Where a record named `k` stands, or would stand.
pub fn rank_of<T: Row>(v: &Vec<T>, k: &str) -> (r: usize)
    ensures
        r == rank(model::shapes(v@), k@),
        r <= v@.len(),
{
    let mut i: usize = 0;
    while i < v.len() && comes_before(v[i].name(), k)
        invariant
            i <= v.len(),
            forall|j: int|
                0 <= j < i ==> order::precedes(#[trigger] model::shapes(v@)[j].key(), k@),
        decreases v.len() - i,
    {
        i += 1;
    }
    proof {
        if i < v@.len() {
            assert(model::shapes(v@)[i as int] == v@[i as int].shape());
        }
        lemma_rank_is(model::shapes(v@), k@, i as int);
    }
    i
}

/// The record kept under `k`.
pub fn lookup<'a, T: Row>(v: &'a Vec<T>, k: &str) -> (r: Option<&'a T>)
    ensures
        match r {
            Some(x) => find(model::shapes(v@), k@) == Some(x.shape()),
            None => find(model::shapes(v@), k@) is None,
        },
{
    let i: usize = rank_of(v, k);
    if i < v.len() && same(v[i].name(), k) {
        Some(&v[i])
    } else {
        None
    }
}

/// Keeps `row` under its name, in place of what was kept there. Says whether the
/// name is new.
pub fn store<T: Row>(v: &mut Vec<T>, row: T) -> (fresh: bool)
    ensures
        model::shapes(final(v)@) == put(model::shapes(old(v)@), row.shape()),
        fresh == !kept(model::shapes(old(v)@), row.shape().key()),
{
    let i: usize = rank_of(v, row.name());
    if i < v.len() && same(v[i].name(), row.name()) {
        v.set(i, row);
        proof {
            assert(model::shapes(v@) == model::shapes(old(v)@).update(i as int, row.shape()));
        }
        false
    } else {
        v.insert(i, row);
        proof {
            assert(model::shapes(v@) == model::shapes(old(v)@).insert(i as int, row.shape()));
        }
        true
    }
}

/// Keeps nothing under `k`.
pub fn discard<T: Row>(v: &mut Vec<T>, k: &str)
    ensures
        model::shapes(final(v)@) == dropped(model::shapes(old(v)@), k@),
{
    let i: usize = rank_of(v, k);
    if i < v.len() && same(v[i].name(), k) {
        v.remove(i);
        proof {
            assert(model::shapes(v@) == model::shapes(old(v)@).remove(i as int));
        }
    }
}

/// The names, in order.
pub fn names<T: Row>(v: &Vec<T>) -> (r: Vec<String>)
    ensures
        text::texts(r@) == keys(model::shapes(v@)),
{
    let mut out: Vec<String> = Vec::new();
    let mut i: usize = 0;
    while i < v.len()
        invariant
            i <= v.len(),
            text::texts(out@) == keys(model::shapes(v@)).take(i as int),
        decreases v.len() - i,
    {
        let name = v[i].name().to_owned();
        let ghost before = out@;
        out.push(name);
        proof {
            let all = keys(model::shapes(v@));
            assert(text::texts(out@) == text::texts(before).push(name@));
            assert(all[i as int] == v@[i as int].shape().key());
            assert(all.take(i + 1) == all.take(i as int).push(all[i as int]));
        }
        i += 1;
    }
    proof {
        let all = keys(model::shapes(v@));
        assert(all.take(v@.len() as int) == all);
    }
    out
}

} // verus!
