//! Keyed tables as the library database keeps them: string keys in strict
//! code point order, one value per key, and sets of key pairs (the indexes).
use vstd::prelude::*;
use crate::models::Duplicate;
use crate::text::{compare_str, lemma_lt_irreflexive, lemma_lt_total, lemma_lt_transitive, owned, seq_lt, str_eq, views};

verus! {

/// One row of a table.
pub struct Entry<V> {
    pub key: String,
    pub value: V,
}

/// A table from string keys to values, kept in key order.
pub struct Table<V> {
    entries: Vec<Entry<V>>,
}

/// The keys of a sequence of (key, value) rows.
pub open spec fn keys_of<W>(s: Seq<(Seq<char>, W)>) -> Seq<Seq<char>> {
    s.map_values(|e: (Seq<char>, W)| e.0)
}

/// Rows in strictly increasing key order (so no key occurs twice).
pub open spec fn sorted_rows<W>(s: Seq<(Seq<char>, W)>) -> bool {
    forall|i: int, j: int| 0 <= i < j < s.len() ==> seq_lt(#[trigger] s[i].0, #[trigger] s[j].0)
}

/// The index of the row with key `k`.
pub open spec fn row_of<W>(s: Seq<(Seq<char>, W)>, k: Seq<char>) -> int {
    choose|i: int| 0 <= i < s.len() && s[i].0 == k
}

/// The map that a sequence of rows stands for.
pub open spec fn rows_map<W>(s: Seq<(Seq<char>, W)>) -> Map<Seq<char>, W> {
    Map::new(|k: Seq<char>| keys_of(s).contains(k), |k: Seq<char>| s[row_of(s, k)].1)
}

pub proof fn lemma_rows_map_at<W>(s: Seq<(Seq<char>, W)>, i: int)
    requires
        sorted_rows(s),
        0 <= i < s.len(),
    ensures
        rows_map(s).contains_key(s[i].0),
        rows_map(s)[s[i].0] == s[i].1,
        row_of(s, s[i].0) == i,
{
    assert(keys_of(s)[i] == s[i].0);
    let j = row_of(s, s[i].0);
    if j < i {
        lemma_lt_irreflexive(s[i].0);
    } else if j > i {
        lemma_lt_irreflexive(s[i].0);
    }
}

pub proof fn lemma_rows_map_contains<W>(s: Seq<(Seq<char>, W)>, k: Seq<char>)
    ensures
        rows_map(s).contains_key(k) <==> exists|i: int| 0 <= i < s.len() && s[i].0 == k,
{
    if rows_map(s).contains_key(k) {
        let i = choose|i: int| 0 <= i < keys_of(s).len() && keys_of(s)[i] == k;
        assert(s[i].0 == k);
    }
    if exists|i: int| 0 <= i < s.len() && s[i].0 == k {
        let i = choose|i: int| 0 <= i < s.len() && s[i].0 == k;
        assert(keys_of(s)[i] == k);
    }
}

pub proof fn lemma_rows_map_finite<W>(s: Seq<(Seq<char>, W)>)
    requires
        sorted_rows(s),
    ensures
        rows_map(s).dom() == keys_of(s).to_set(),
        rows_map(s).dom().finite(),
        rows_map(s).dom().len() == s.len(),
{
    assert(rows_map(s).dom() =~= keys_of(s).to_set());
    assert(keys_of(s).no_duplicates()) by {
        assert forall|i: int, j: int|
            0 <= i < keys_of(s).len() && 0 <= j < keys_of(s).len() && i != j implies keys_of(
            s,
        )[i] != keys_of(s)[j] by {
            if i < j {
                assert(seq_lt(s[i].0, s[j].0));
                lemma_lt_irreflexive(s[i].0);
            } else {
                assert(seq_lt(s[j].0, s[i].0));
                lemma_lt_irreflexive(s[i].0);
            }
        }
    }
    keys_of(s).unique_seq_to_set();
    vstd::seq_lib::seq_to_set_is_finite(keys_of(s));
}

impl<V: View> Table<V> {
    /// The rows of the table, in key order, keys and values seen by view.
    pub closed spec fn rows(&self) -> Seq<(Seq<char>, V::V)> {
        self.entries@.map_values(|e: Entry<V>| (e.key@, e.value@))
    }

    /// The table is in key order.
    pub open spec fn wf(&self) -> bool {
        sorted_rows(self.rows())
    }

    /// The keys of the table, in order.
    pub open spec fn key_seq(&self) -> Seq<Seq<char>> {
        keys_of(self.rows())
    }

    /// The values of the table, in key order.
    pub open spec fn value_seq(&self) -> Seq<V::V> {
        self.rows().map_values(|e: (Seq<char>, V::V)| e.1)
    }

    /// A table with no rows.
    pub fn new() -> (t: Table<V>)
        ensures
            t.wf(),
            t.rows() == Seq::<(Seq<char>, V::V)>::empty(),
            t@ == Map::<Seq<char>, V::V>::empty(),
    {
        let t = Table { entries: Vec::new() };
        assert(t.rows() =~= Seq::<(Seq<char>, V::V)>::empty());
        assert(t@ =~= Map::<Seq<char>, V::V>::empty());
        t
    }

    /// The number of rows.
    pub fn len(&self) -> (n: usize)
        requires
            self.wf(),
        ensures
            n == self.rows().len(),
            n == self@.dom().len(),
            self@.dom().finite(),
    {
        proof {
            lemma_rows_map_finite(self.rows());
        }
        self.entries.len()
    }

    /// The key of row `i`.
    pub fn key_at(&self, i: usize) -> (k: &String)
        requires
            i < self.rows().len(),
        ensures
            k@ == self.rows()[i as int].0,
    {
        &self.entries[i].key
    }

    /// The value of row `i`.
    pub fn value_at(&self, i: usize) -> (v: &V)
        requires
            i < self.rows().len(),
        ensures
            v@ == self.rows()[i as int].1,
    {
        &self.entries[i].value
    }

    /// The position of the first row whose key is not below `key`
    /// (binary search).
    fn lower_bound(&self, key: &str) -> (p: usize)
        requires
            self.wf(),
        ensures
            p <= self.rows().len(),
            forall|i: int| 0 <= i < p ==> seq_lt(#[trigger] self.rows()[i].0, key@),
            p < self.rows().len() ==> !seq_lt(self.rows()[p as int].0, key@),
    {
        let ghost s = self.rows();
        let mut lo: usize = 0;
        let mut hi: usize = self.entries.len();
        while lo < hi
            invariant
                s == self.rows(),
                sorted_rows(s),
                lo <= hi <= self.entries@.len(),
                self.entries@.len() == s.len(),
                forall|i: int| 0 <= i < lo ==> seq_lt(#[trigger] s[i].0, key@),
                forall|i: int| hi <= i < s.len() ==> !seq_lt(#[trigger] s[i].0, key@),
            decreases hi - lo,
        {
            let mid = lo + (hi - lo) / 2;
            let c = compare_str(self.entries[mid].key.as_str(), key);
            if c < 0 {
                proof {
                    assert forall|i: int| 0 <= i < mid + 1 implies seq_lt(#[trigger] s[i].0, key@) by {
                        if i < mid {
                            assert(seq_lt(s[i].0, s[mid as int].0));
                            lemma_lt_transitive(s[i].0, s[mid as int].0, key@);
                        }
                    }
                }
                lo = mid + 1;
            } else {
                proof {
                    assert forall|i: int| mid <= i < s.len() implies !seq_lt(#[trigger] s[i].0, key@) by {
                        if i > mid && seq_lt(s[i].0, key@) {
                            assert(seq_lt(s[mid as int].0, s[i].0));
                            lemma_lt_transitive(s[mid as int].0, s[i].0, key@);
                        }
                    }
                }
                hi = mid;
            }
        }
        lo
    }

    /// The position of the row with key `key`, if there is one.
    fn find(&self, key: &str) -> (r: Option<usize>)
        requires
            self.wf(),
        ensures
            match r {
                Some(i) => i < self.rows().len() && self.rows()[i as int].0 == key@,
                None => !self@.contains_key(key@),
            },
    {
        let p = self.lower_bound(key);
        if p < self.entries.len() && str_eq(self.entries[p].key.as_str(), key) {
            Some(p)
        } else {
            proof {
                lemma_rows_map_contains(self.rows(), key@);
                if self@.contains_key(key@) {
                    let i = choose|i: int| 0 <= i < self.rows().len() && self.rows()[i].0 == key@;
                    if i < p {
                        lemma_lt_irreflexive(key@);
                    } else if i > p {
                        assert(seq_lt(self.rows()[p as int].0, self.rows()[i].0));
                        lemma_lt_total(self.rows()[p as int].0, key@);
                    }
                }
            }
            None
        }
    }

    /// Whether the table has a row with key `key`.
    pub fn contains_key(&self, key: &str) -> (b: bool)
        requires
            self.wf(),
        ensures
            b == self@.contains_key(key@),
    {
        match self.find(key) {
            Some(i) => {
                proof {
                    lemma_rows_map_at(self.rows(), i as int);
                }
                true
            },
            None => false,
        }
    }

    /// The value stored under `key`.
    pub fn get(&self, key: &str) -> (r: Option<&V>)
        requires
            self.wf(),
        ensures
            match r {
                Some(v) => self@.contains_key(key@) && v@ == self@[key@],
                None => !self@.contains_key(key@),
            },
    {
        match self.find(key) {
            Some(i) => {
                proof {
                    lemma_rows_map_at(self.rows(), i as int);
                }
                Some(&self.entries[i].value)
            },
            None => None,
        }
    }

    /// Stores `value` under `key`, replacing the value there was.
    pub fn insert(&mut self, key: String, value: V)
        requires
            old(self).wf(),
        ensures
            final(self).wf(),
            final(self)@ == old(self)@.insert(key@, value@),
    {
        let ghost s = self.rows();
        let ghost kv = (key@, value@);
        let p = self.lower_bound(key.as_str());
        if p < self.entries.len() && str_eq(self.entries[p].key.as_str(), key.as_str()) {
            self.entries.set(p, Entry { key, value });
            proof {
                let t = self.rows();
                assert(t =~= s.update(p as int, kv));
                assert(sorted_rows(t));
                assert forall|k: Seq<char>|
                    #![trigger rows_map(t).contains_key(k)]
                    rows_map(t).contains_key(k) == rows_map(s).insert(kv.0, kv.1).contains_key(
                        k,
                    ) by {
                    lemma_rows_map_contains(t, k);
                    lemma_rows_map_contains(s, k);
                    if rows_map(s).contains_key(k) {
                        let i = choose|i: int| 0 <= i < s.len() && s[i].0 == k;
                        assert(t[i].0 == k);
                    }
                    if rows_map(t).contains_key(k) {
                        let i = choose|i: int| 0 <= i < t.len() && t[i].0 == k;
                        assert(s[i].0 == k);
                    }
                }
                assert forall|k: Seq<char>| #[trigger]
                    rows_map(t).contains_key(k) implies rows_map(t)[k] == rows_map(s).insert(
                    kv.0,
                    kv.1,
                )[k] by {
                    lemma_rows_map_contains(t, k);
                    let i = choose|i: int| 0 <= i < t.len() && t[i].0 == k;
                    lemma_rows_map_at(t, i);
                    if i != p {
                        lemma_rows_map_at(s, i);
                    }
                }
                assert(rows_map(t) =~= rows_map(s).insert(kv.0, kv.1));
            }
        } else {
            self.entries.insert(p, Entry { key, value });
            proof {
                let t = self.rows();
                assert(t =~= s.insert(p as int, kv));
                assert forall|i: int, j: int| 0 <= i < j < t.len() implies seq_lt(
                    #[trigger] t[i].0,
                    #[trigger] t[j].0,
                ) by {
                    if j == p {
                        assert(seq_lt(s[i].0, kv.0));
                    } else if i == p {
                        if j - 1 > p {
                            assert(seq_lt(s[p as int].0, s[j - 1].0));
                        }
                        let a = s[p as int].0;
                        if a != kv.0 {
                            lemma_lt_total(a, kv.0);
                        }
                        if j - 1 > p {
                            lemma_lt_transitive(kv.0, a, s[j - 1].0);
                        }
                    } else if i < p && j > p {
                        assert(seq_lt(s[i].0, s[j - 1].0));
                    } else if j < p {
                        assert(seq_lt(s[i].0, s[j].0));
                    } else {
                        assert(seq_lt(s[i - 1].0, s[j - 1].0));
                    }
                }
                assert(sorted_rows(t));
                assert forall|k: Seq<char>|
                    #![trigger rows_map(t).contains_key(k)]
                    rows_map(t).contains_key(k) == rows_map(s).insert(kv.0, kv.1).contains_key(
                        k,
                    ) by {
                    lemma_rows_map_contains(t, k);
                    lemma_rows_map_contains(s, k);
                    if rows_map(s).contains_key(k) {
                        let i = choose|i: int| 0 <= i < s.len() && s[i].0 == k;
                        if i < p {
                            assert(t[i].0 == k);
                        } else {
                            assert(t[i + 1].0 == k);
                        }
                    }
                    if k == kv.0 {
                        assert(t[p as int].0 == k);
                    }
                    if rows_map(t).contains_key(k) {
                        let i = choose|i: int| 0 <= i < t.len() && t[i].0 == k;
                        if i < p {
                            assert(s[i].0 == k);
                        } else if i > p {
                            assert(s[i - 1].0 == k);
                        }
                    }
                }
                assert forall|k: Seq<char>| #[trigger]
                    rows_map(t).contains_key(k) implies rows_map(t)[k] == rows_map(s).insert(
                    kv.0,
                    kv.1,
                )[k] by {
                    lemma_rows_map_contains(t, k);
                    let i = choose|i: int| 0 <= i < t.len() && t[i].0 == k;
                    lemma_rows_map_at(t, i);
                    if i < p {
                        lemma_rows_map_at(s, i);
                        if k == kv.0 {
                            assert(seq_lt(s[i].0, kv.0));
                            lemma_lt_irreflexive(kv.0);
                        }
                    } else if i > p {
                        lemma_rows_map_at(s, i - 1);
                        assert(seq_lt(t[p as int].0, t[i].0));
                        if k == kv.0 {
                            lemma_lt_irreflexive(kv.0);
                        }
                    }
                }
                assert(rows_map(t) =~= rows_map(s).insert(kv.0, kv.1));
            }
        }
    }

    /// Appends a row whose key sorts after every key of the table.
    pub fn push_last(&mut self, key: String, value: V)
        requires
            old(self).wf(),
            forall|i: int| 0 <= i < old(self).rows().len() ==> seq_lt(#[trigger] old(self).rows()[i].0, key@),
        ensures
            final(self).wf(),
            final(self)@ == old(self)@.insert(key@, value@),
            final(self).rows() == old(self).rows().push((key@, value@)),
    {
        let ghost s = self.rows();
        let ghost kv = (key@, value@);
        self.entries.push(Entry { key, value });
        proof {
            let t = self.rows();
            assert(t =~= s.push(kv));
            assert(sorted_rows(t));
            assert forall|k: Seq<char>|
                #![trigger rows_map(t).contains_key(k)]
                rows_map(t).contains_key(k) == rows_map(s).insert(kv.0, kv.1).contains_key(k) by {
                lemma_rows_map_contains(t, k);
                lemma_rows_map_contains(s, k);
                if rows_map(s).contains_key(k) {
                    let i = choose|i: int| 0 <= i < s.len() && s[i].0 == k;
                    assert(t[i].0 == k);
                }
                if k == kv.0 {
                    assert(t[s.len() as int].0 == k);
                }
                if rows_map(t).contains_key(k) {
                    let i = choose|i: int| 0 <= i < t.len() && t[i].0 == k;
                    if i < s.len() {
                        assert(s[i].0 == k);
                    }
                }
            }
            assert forall|k: Seq<char>| #[trigger]
                rows_map(t).contains_key(k) implies rows_map(t)[k] == rows_map(s).insert(kv.0, kv.1)[k] by {
                lemma_rows_map_contains(t, k);
                let i = choose|i: int| 0 <= i < t.len() && t[i].0 == k;
                lemma_rows_map_at(t, i);
                if i < s.len() {
                    lemma_rows_map_at(s, i);
                    if k == kv.0 {
                        lemma_lt_irreflexive(k);
                    }
                }
            }
            assert(rows_map(t) =~= rows_map(s).insert(kv.0, kv.1));
        }
    }

    /// Removes the row with key `key`; whether there was one.
    pub fn remove(&mut self, key: &str) -> (removed: bool)
        requires
            old(self).wf(),
        ensures
            final(self).wf(),
            final(self)@ == old(self)@.remove(key@),
            removed == old(self)@.contains_key(key@),
    {
        let ghost s = self.rows();
        match self.find(key) {
            Some(p) => {
                proof {
                    lemma_rows_map_at(s, p as int);
                }
                self.entries.remove(p);
                proof {
                    let t = self.rows();
                    assert(t =~= s.remove(p as int));
                    assert forall|i: int, j: int| 0 <= i < j < t.len() implies seq_lt(
                        #[trigger] t[i].0,
                        #[trigger] t[j].0,
                    ) by {
                        if j < p {
                            assert(seq_lt(s[i].0, s[j].0));
                        } else if i < p {
                            assert(seq_lt(s[i].0, s[j + 1].0));
                        } else {
                            assert(seq_lt(s[i + 1].0, s[j + 1].0));
                        }
                    }
                    assert forall|k: Seq<char>|
                        #![trigger rows_map(t).contains_key(k)]
                        rows_map(t).contains_key(k) == rows_map(s).remove(key@).contains_key(
                            k,
                        ) by {
                        lemma_rows_map_contains(t, k);
                        lemma_rows_map_contains(s, k);
                        if rows_map(s).contains_key(k) && k != key@ {
                            let i = choose|i: int| 0 <= i < s.len() && s[i].0 == k;
                            if i < p {
                                assert(t[i].0 == k);
                            } else {
                                assert(t[i - 1].0 == k);
                            }
                        }
                        if rows_map(t).contains_key(k) {
                            let i = choose|i: int| 0 <= i < t.len() && t[i].0 == k;
                            if i < p {
                                assert(s[i].0 == k);
                                assert(seq_lt(s[i].0, s[p as int].0));
                                if k == key@ {
                                    lemma_lt_irreflexive(k);
                                }
                            } else {
                                assert(s[i + 1].0 == k);
                                assert(seq_lt(s[p as int].0, s[i + 1].0));
                                if k == key@ {
                                    lemma_lt_irreflexive(k);
                                }
                            }
                        }
                    }
                    assert forall|k: Seq<char>| #[trigger]
                        rows_map(t).contains_key(k) implies rows_map(t)[k] == rows_map(s).remove(
                        key@,
                    )[k] by {
                        lemma_rows_map_contains(t, k);
                        let i = choose|i: int| 0 <= i < t.len() && t[i].0 == k;
                        lemma_rows_map_at(t, i);
                        if i < p {
                            lemma_rows_map_at(s, i);
                        } else {
                            lemma_rows_map_at(s, i + 1);
                        }
                    }
                    assert(rows_map(t) =~= rows_map(s).remove(key@));
                }
                true
            },
            None => {
                proof {
                    assert(rows_map(s) =~= rows_map(s).remove(key@));
                }
                false
            },
        }
    }

    /// Removes every row.
    pub fn clear(&mut self)
        ensures
            final(self).wf(),
            final(self)@ == Map::<Seq<char>, V::V>::empty(),
            final(self).rows() == Seq::<(Seq<char>, V::V)>::empty(),
    {
        self.entries = Vec::new();
        proof {
            assert(self.rows() =~= Seq::<(Seq<char>, V::V)>::empty());
            assert(self@ =~= Map::<Seq<char>, V::V>::empty());
        }
    }

    /// The keys, in order.
    pub fn keys(&self) -> (r: Vec<String>)
        ensures
            views(r@) == self.key_seq(),
    {
        let mut r: Vec<String> = Vec::new();
        let mut i: usize = 0;
        while i < self.entries.len()
            invariant
                i <= self.entries@.len(),
                self.entries@.len() == self.rows().len(),
                r@.len() == i,
                forall|j: int| 0 <= j < i ==> #[trigger] r@[j]@ == self.rows()[j].0,
            decreases self.entries@.len() - i,
        {
            r.push(self.entries[i].key.clone());
            i = i + 1;
        }
        assert(views(r@) =~= self.key_seq());
        r
    }
}

impl<V: View> View for Table<V> {
    type V = Map<Seq<char>, V::V>;

    open spec fn view(&self) -> Map<Seq<char>, V::V> {
        rows_map(self.rows())
    }
}

impl<V: Duplicate> Table<V> {
    /// Copies of the values, in key order.
    pub fn values(&self) -> (r: Vec<V>)
        ensures
            r@.map_values(|v: V| v@) == self.value_seq(),
    {
        let mut r: Vec<V> = Vec::new();
        let mut i: usize = 0;
        while i < self.entries.len()
            invariant
                i <= self.entries@.len(),
                self.entries@.len() == self.rows().len(),
                r@.len() == i,
                forall|j: int| 0 <= j < i ==> #[trigger] r@[j]@ == self.rows()[j].1,
            decreases self.entries@.len() - i,
        {
            r.push(self.entries[i].value.duplicate());
            i = i + 1;
        }
        assert(r@.map_values(|v: V| v@) =~= self.value_seq());
        r
    }
}

/// A set of key pairs (an index such as "album → song").
pub struct PairSet {
    pairs: Vec<(String, String)>,
}

impl PairSet {
    /// The pairs, seen by view.
    pub closed spec fn pair_seq(&self) -> Seq<(Seq<char>, Seq<char>)> {
        self.pairs@.map_values(|p: (String, String)| (p.0@, p.1@))
    }

    /// No pair occurs twice.
    pub open spec fn wf(&self) -> bool {
        self.pair_seq().no_duplicates()
    }

    /// An empty set.
    pub fn new() -> (r: PairSet)
        ensures
            r.wf(),
            r@ == Set::<(Seq<char>, Seq<char>)>::empty(),
    {
        let r = PairSet { pairs: Vec::new() };
        assert(r.pair_seq() =~= Seq::<(Seq<char>, Seq<char>)>::empty());
        assert(r@ =~= Set::<(Seq<char>, Seq<char>)>::empty());
        r
    }

    /// The number of pairs.
    pub fn len(&self) -> (n: usize)
        requires
            self.wf(),
        ensures
            n == self@.len(),
            self@.finite(),
    {
        proof {
            self.pair_seq().unique_seq_to_set();
            vstd::seq_lib::seq_to_set_is_finite(self.pair_seq());
        }
        self.pairs.len()
    }

    /// Whether `(a, b)` is in the set.
    pub fn contains(&self, a: &str, b: &str) -> (r: bool)
        ensures
            r == self@.contains((a@, b@)),
    {
        let mut i: usize = 0;
        while i < self.pairs.len()
            invariant
                i <= self.pairs@.len(),
                self.pairs@.len() == self.pair_seq().len(),
                forall|j: int| 0 <= j < i ==> #[trigger] self.pair_seq()[j] != (a@, b@),
            decreases self.pairs@.len() - i,
        {
            if str_eq(self.pairs[i].0.as_str(), a) && str_eq(self.pairs[i].1.as_str(), b) {
                assert(self.pair_seq()[i as int] == (a@, b@));
                return true;
            }
            i = i + 1;
        }
        false
    }

    /// Adds `(a, b)`.
    pub fn insert(&mut self, a: &str, b: &str)
        requires
            old(self).wf(),
        ensures
            final(self).wf(),
            final(self)@ == old(self)@.insert((a@, b@)),
    {
        let ghost s = self.pair_seq();
        if !self.contains(a, b) {
            self.pairs.push((owned(a), owned(b)));
            proof {
                let t = self.pair_seq();
                assert(t =~= s.push((a@, b@)));
                assert(!s.contains((a@, b@)));
                assert forall|x| #[trigger] t.to_set().contains(x) == s.to_set().insert(
                    (a@, b@),
                ).contains(x) by {
                    if s.contains(x) {
                        let i = choose|i: int| 0 <= i < s.len() && s[i] == x;
                        assert(t[i] == x);
                    }
                    if x == (a@, b@) {
                        assert(t[s.len() as int] == x);
                    }
                }
                assert(self@ =~= old(self)@.insert((a@, b@)));
            }
        } else {
            assert(self@ =~= old(self)@.insert((a@, b@)));
        }
    }

    /// Removes every pair.
    pub fn clear(&mut self)
        ensures
            final(self).wf(),
            final(self)@ == Set::<(Seq<char>, Seq<char>)>::empty(),
    {
        self.pairs = Vec::new();
        assert(self.pair_seq() =~= Seq::<(Seq<char>, Seq<char>)>::empty());
        assert(self@ =~= Set::<(Seq<char>, Seq<char>)>::empty());
    }

    /// The pairs.
    pub fn to_vec(&self) -> (r: Vec<(String, String)>)
        ensures
            r@.map_values(|p: (String, String)| (p.0@, p.1@)) == self.pair_seq(),
    {
        let mut r: Vec<(String, String)> = Vec::new();
        let mut i: usize = 0;
        while i < self.pairs.len()
            invariant
                i <= self.pairs@.len(),
                self.pairs@.len() == self.pair_seq().len(),
                r@.len() == i,
                forall|j: int|
                    0 <= j < i ==> (#[trigger] r@[j].0@, r@[j].1@) == self.pair_seq()[j],
            decreases self.pairs@.len() - i,
        {
            r.push((self.pairs[i].0.clone(), self.pairs[i].1.clone()));
            i = i + 1;
        }
        assert(r@.map_values(|p: (String, String)| (p.0@, p.1@)) =~= self.pair_seq());
        r
    }
}

impl View for PairSet {
    type V = Set<(Seq<char>, Seq<char>)>;

    open spec fn view(&self) -> Set<(Seq<char>, Seq<char>)> {
        self.pair_seq().to_set()
    }
}

} // verus!
