//! Stable sorting by a key, greatest first: the order of `sort_by` with a
//! comparator that compares the second key with the first.
use vstd::prelude::*;
use vstd::multiset::Multiset;
use crate::text::{compare_str, lemma_lt_irreflexive, lemma_lt_total, lemma_lt_transitive, seq_lt};

verus! {

/// A key with a total order, sorted greatest first.
pub trait SortKey: Sized {
    /// `a` orders strictly below `b`.
    spec fn key_lt(a: Self, b: Self) -> bool;

    /// The order is strict, transitive and total up to equal keys.
    proof fn lemma_key_order(a: Self, b: Self, c: Self)
        ensures
            !Self::key_lt(a, a),
            Self::key_lt(a, b) && Self::key_lt(b, c) ==> Self::key_lt(a, c),
            !Self::key_lt(a, b) && !Self::key_lt(b, c) ==> !Self::key_lt(a, c),
    ;

    /// Whether `self` orders strictly below `other`.
    fn key_less(&self, other: &Self) -> (r: bool)
        ensures
            r == Self::key_lt(*self, *other),
    ;
}

impl SortKey for i32 {
    open spec fn key_lt(a: i32, b: i32) -> bool {
        a < b
    }

    proof fn lemma_key_order(a: i32, b: i32, c: i32) {
    }

    fn key_less(&self, other: &i32) -> (r: bool) {
        *self < *other
    }
}

/// `None` orders below every string; strings order by code point.
impl SortKey for Option<String> {
    open spec fn key_lt(a: Option<String>, b: Option<String>) -> bool {
        match (a, b) {
            (None, Some(_)) => true,
            (Some(x), Some(y)) => seq_lt(x@, y@),
            _ => false,
        }
    }

    proof fn lemma_key_order(a: Option<String>, b: Option<String>, c: Option<String>) {
        match (a, b, c) {
            (Some(x), Some(y), Some(z)) => {
                lemma_lt_irreflexive(x@);
                if seq_lt(x@, y@) && seq_lt(y@, z@) {
                    lemma_lt_transitive(x@, y@, z@);
                }
                if !seq_lt(x@, y@) && !seq_lt(y@, z@) && seq_lt(x@, z@) {
                    if x@ != y@ {
                        lemma_lt_total(x@, y@);
                        lemma_lt_transitive(y@, x@, z@);
                    }
                    if y@ != z@ {
                        lemma_lt_total(y@, z@);
                        lemma_lt_transitive(x@, z@, y@);
                    }
                    lemma_lt_irreflexive(z@);
                }
            },
            (Some(x), _, _) => {
                lemma_lt_irreflexive(x@);
            },
            _ => {},
        }
    }

    fn key_less(&self, other: &Option<String>) -> (r: bool) {
        match (self, other) {
            (None, Some(_)) => true,
            (Some(x), Some(y)) => compare_str(x.as_str(), y.as_str()) < 0,
            _ => false,
        }
    }
}

/// `x` inserted into `s` after every entry whose key is not below its own,
/// scanning from the end.
pub open spec fn insert_desc<K: SortKey, V>(s: Seq<(K, V)>, x: (K, V)) -> Seq<(K, V)>
    decreases s.len(),
{
    if s.len() == 0 {
        seq![x]
    } else if K::key_lt(s.last().0, x.0) {
        insert_desc(s.drop_last(), x).push(s.last())
    } else {
        s.push(x)
    }
}

/// The entries of `s` stably sorted by key, greatest first.
pub open spec fn sort_desc<K: SortKey, V>(s: Seq<(K, V)>) -> Seq<(K, V)>
    decreases s.len(),
{
    if s.len() == 0 {
        seq![]
    } else {
        insert_desc(sort_desc(s.drop_last()), s.last())
    }
}

/// The entries with their values seen by view.
pub open spec fn keyed_views<K, T: View>(s: Seq<(K, T)>) -> Seq<(K, T::V)> {
    s.map_values(|p: (K, T)| (p.0, p.1@))
}

/// The keys of `s` never increase.
pub open spec fn keys_desc<K: SortKey, V>(s: Seq<(K, V)>) -> bool {
    forall|i: int, j: int| 0 <= i < j < s.len() ==> !K::key_lt(#[trigger] s[i].0, #[trigger] s[j].0)
}

/// Sorts the entries stably by key, greatest first.
pub fn sort_desc_by_key<K: SortKey, T: View>(v: Vec<(K, T)>) -> (r: Vec<(K, T)>)
    ensures
        keyed_views(r@) == sort_desc(keyed_views(v@)),
{
    let ghost v0 = keyed_views(v@);
    let n = v.len();
    let mut rest = v;
    let mut r: Vec<(K, T)> = Vec::new();
    let mut i: usize = 0;
    while rest.len() > 0
        invariant
            i <= v0.len(),
            rest@.len() + i == v0.len(),
            v0.len() == n,
            keyed_views(rest@) == v0.skip(i as int),
            keyed_views(r@) == sort_desc(v0.take(i as int)),
        decreases rest@.len(),
    {
        let ghost before = keyed_views(rest@);
        let x = rest.remove(0);
        proof {
            assert(before[0] == (x.0, x.1@));
            assert(keyed_views(rest@) =~= before.subrange(1, before.len() as int));
            assert(v0.take(i + 1).drop_last() =~= v0.take(i as int));
            assert(v0.take(i + 1).last() == (x.0, x.1@));
            assert(keyed_views(rest@) =~= v0.skip(i + 1));
        }
        let ghost s = keyed_views(r@);
        let ghost xv = (x.0, x.1@);
        let mut p: usize = r.len();
        proof {
            assert(s.take(p as int) =~= s);
            assert(insert_desc(s, xv) + s.skip(p as int) =~= insert_desc(s, xv));
        }
        while p > 0 && r[p - 1].0.key_less(&x.0)
            invariant
                s == keyed_views(r@),
                xv == (x.0, x.1@),
                p <= r@.len(),
                insert_desc(s, xv) == insert_desc(s.take(p as int), xv) + s.skip(p as int),
            decreases p,
        {
            proof {
                let t = s.take(p as int);
                assert(t.drop_last() =~= s.take(p - 1));
                assert(t.last() == s[p - 1]);
                assert(s.skip(p - 1) =~= seq![s[p - 1]] + s.skip(p as int));
                assert(insert_desc(t, xv) == insert_desc(s.take(p - 1), xv).push(s[p - 1]));
                assert(insert_desc(s.take(p - 1), xv).push(s[p - 1]) + s.skip(p as int)
                    =~= insert_desc(s.take(p - 1), xv) + s.skip(p - 1));
            }
            p = p - 1;
        }
        proof {
            let t = s.take(p as int);
            if p > 0 {
                assert(t.last() == s[p - 1]);
            }
            assert(insert_desc(t, xv) =~= t.push(xv));
        }
        r.insert(p, x);
        proof {
            assert(keyed_views(r@) =~= s.take(p as int).push(xv) + s.skip(p as int));
        }
        i = i + 1;
    }
    proof {
        assert(v0.skip(i as int).len() == 0);
        assert(v0.take(i as int) =~= v0);
    }
    r
}

/// Inserting into a sequence whose keys never increase keeps them so.
proof fn lemma_insert_desc_sorted<K: SortKey, V>(s: Seq<(K, V)>, x: (K, V))
    requires
        keys_desc(s),
    ensures
        keys_desc(insert_desc(s, x)),
        insert_desc(s, x).to_multiset() == s.to_multiset().insert(x),
        insert_desc(s, x).len() == s.len() + 1,
        forall|i: int| 0 <= i < insert_desc(s, x).len() ==> #[trigger] insert_desc(s, x)[i] == x || s.contains(insert_desc(s, x)[i]),
    decreases s.len(),
{
    broadcast use vstd::seq_lib::group_seq_properties;
    broadcast use vstd::multiset::group_multiset_axioms;
    let r = insert_desc(s, x);
    if s.len() == 0 {
        assert(r =~= seq![x]);
        assert(seq![x] =~= Seq::<(K, V)>::empty().push(x));
    } else if K::key_lt(s.last().0, x.0) {
        let d = s.drop_last();
        assert(keys_desc(d)) by {
            assert forall|i: int, j: int| 0 <= i < j < d.len() implies !K::key_lt(#[trigger] d[i].0, #[trigger] d[j].0) by {
                assert(d[i] == s[i] && d[j] == s[j]);
            }
        }
        lemma_insert_desc_sorted(d, x);
        let q = insert_desc(d, x);
        assert(r == q.push(s.last()));
        assert(s =~= d.push(s.last()));
        assert forall|i: int, j: int| 0 <= i < j < r.len() implies !K::key_lt(#[trigger] r[i].0, #[trigger] r[j].0) by {
            if j == r.len() - 1 {
                assert(r[j] == s.last());
                if q[i] == x {
                    K::lemma_key_order(s.last().0, x.0, s.last().0);
                    K::lemma_key_order(x.0, s.last().0, x.0);
                    if K::key_lt(x.0, s.last().0) {
                        K::lemma_key_order(x.0, s.last().0, x.0);
                    }
                } else {
                    let k = choose|k: int| 0 <= k < d.len() && d[k] == q[i];
                    assert(s[k] == d[k]);
                    assert(s[s.len() - 1] == s.last());
                    if k < s.len() - 1 {
                        assert(!K::key_lt(s[k].0, s[s.len() - 1].0));
                    }
                }
            } else {
                assert(r[i] == q[i] && r[j] == q[j]);
            }
        }
    } else {
        assert(r == s.push(x));
        assert forall|i: int, j: int| 0 <= i < j < r.len() implies !K::key_lt(#[trigger] r[i].0, #[trigger] r[j].0) by {
            if j == r.len() - 1 {
                assert(r[j] == x);
                assert(r[i] == s[i]);
                if i < s.len() - 1 {
                    assert(!K::key_lt(s[i].0, s[s.len() - 1].0));
                    K::lemma_key_order(s[i].0, s[s.len() - 1].0, x.0);
                }
            } else {
                assert(r[i] == s[i] && r[j] == s[j]);
            }
        }
    }
}

/// A stable sort by key, greatest first, orders the keys greatest first and
/// rearranges the entries without adding or dropping any.
pub proof fn lemma_sort_desc_sorted<K: SortKey, V>(s: Seq<(K, V)>)
    ensures
        keys_desc(sort_desc(s)),
        sort_desc(s).to_multiset() == s.to_multiset(),
        sort_desc(s).len() == s.len(),
    decreases s.len(),
{
    broadcast use vstd::seq_lib::group_seq_properties;
    if s.len() > 0 {
        lemma_sort_desc_sorted(s.drop_last());
        lemma_insert_desc_sorted(sort_desc(s.drop_last()), s.last());
        assert(s =~= s.drop_last().push(s.last()));
    } else {
        assert(s.to_multiset() =~= Multiset::<(K, V)>::empty());
        assert(sort_desc(s).to_multiset() =~= Multiset::<(K, V)>::empty());
    }
}

} // verus!
