//! Keyed record store: the mapping abstraction shared by every module.
//!
//! Records live in association lists with pairwise-distinct keys; the view of
//! a store is the mathematical `Map` (or `Set`) of its entries, so contracts
//! elsewhere speak only of maps and sets.

use vstd::prelude::*;
use vstd::pervasive::VecAdditionalExecFns;

verus! {

/// The map described by an association list; a later entry for a key
/// supersedes an earlier one.
pub open spec fn assoc_map<V>(s: Seq<(u64, V)>) -> Map<u64, V>
    decreases s.len(),
{
    if s.len() == 0 {
        Map::empty()
    } else {
        assoc_map(s.drop_last()).insert(s.last().0, s.last().1)
    }
}

/// No two entries of the list share a key.
pub open spec fn distinct_keys<V>(s: Seq<(u64, V)>) -> bool {
    forall|i: int, j: int| 0 <= i < j < s.len() ==> s[i].0 != s[j].0
}

proof fn lemma_assoc_map_contains<V>(s: Seq<(u64, V)>, k: u64)
    ensures
        assoc_map(s).contains_key(k) <==> exists|i: int| 0 <= i < s.len() && s[i].0 == k,
    decreases s.len(),
{
    if s.len() > 0 {
        lemma_assoc_map_contains(s.drop_last(), k);
        if s.last().0 == k {
            assert(s[s.len() - 1].0 == k);
        } else if assoc_map(s).contains_key(k) {
            let i = choose|i: int| 0 <= i < s.drop_last().len() && s.drop_last()[i].0 == k;
            assert(s[i].0 == k);
        } else {
            assert forall|i: int| 0 <= i < s.len() implies s[i].0 != k by {
                if i < s.len() - 1 {
                    assert(s.drop_last()[i].0 == s[i].0);
                }
            }
        }
    }
}

proof fn lemma_distinct_drop_last<V>(s: Seq<(u64, V)>)
    requires
        distinct_keys(s),
        s.len() > 0,
    ensures
        distinct_keys(s.drop_last()),
{
    assert forall|i: int, j: int|
        0 <= i < j < s.drop_last().len() implies s.drop_last()[i].0 != s.drop_last()[j].0 by {
        assert(s.drop_last()[i].0 == s[i].0);
        assert(s.drop_last()[j].0 == s[j].0);
    }
}

proof fn lemma_assoc_map_index<V>(s: Seq<(u64, V)>, i: int)
    requires
        distinct_keys(s),
        0 <= i < s.len(),
    ensures
        assoc_map(s).contains_key(s[i].0),
        assoc_map(s)[s[i].0] == s[i].1,
    decreases s.len(),
{
    if i < s.len() - 1 {
        lemma_distinct_drop_last(s);
        lemma_assoc_map_index(s.drop_last(), i);
        assert(s.drop_last()[i] == s[i]);
        assert(s.last().0 != s[i].0);
    }
}

proof fn lemma_assoc_map_update<V>(s: Seq<(u64, V)>, i: int, v: V)
    requires
        distinct_keys(s),
        0 <= i < s.len(),
    ensures
        assoc_map(s.update(i, (s[i].0, v))) =~= assoc_map(s).insert(s[i].0, v),
        distinct_keys(s.update(i, (s[i].0, v))),
    decreases s.len(),
{
    let k = s[i].0;
    let t = s.update(i, (k, v));
    assert forall|m: int, n: int| 0 <= m < n < t.len() implies t[m].0 != t[n].0 by {
        assert(t[m].0 == s[m].0);
        assert(t[n].0 == s[n].0);
    }
    if i == s.len() - 1 {
        assert(t.drop_last() =~= s.drop_last());
        assert(t.last() == (k, v));
        assert(assoc_map(s.drop_last()).insert(k, s.last().1).insert(k, v)
            =~= assoc_map(s.drop_last()).insert(k, v));
    } else {
        lemma_distinct_drop_last(s);
        assert(s.drop_last()[i] == s[i]);
        lemma_assoc_map_update(s.drop_last(), i, v);
        assert(t.drop_last() =~= s.drop_last().update(i, (k, v)));
        assert(t.last() == s.last());
        assert(s.last().0 != k);
        assert(assoc_map(s.drop_last()).insert(k, v).insert(s.last().0, s.last().1)
            =~= assoc_map(s.drop_last()).insert(s.last().0, s.last().1).insert(k, v));
    }
}

proof fn lemma_assoc_map_remove<V>(s: Seq<(u64, V)>, i: int)
    requires
        distinct_keys(s),
        0 <= i < s.len(),
    ensures
        distinct_keys(s.remove(i)),
        assoc_map(s.remove(i)) =~= assoc_map(s).remove(s[i].0),
    decreases s.len(),
{
    let k = s[i].0;
    s.remove_ensures(i);
    assert forall|m: int, n: int|
        0 <= m < n < s.remove(i).len() implies s.remove(i)[m].0 != s.remove(i)[n].0 by {
        let m0: int = if m < i { m } else { m + 1 };
        let n0: int = if n < i { n } else { n + 1 };
        assert(s.remove(i)[m] == s[m0]);
        assert(s.remove(i)[n] == s[n0]);
    }
    if i == s.len() - 1 {
        assert(s.remove(i) =~= s.drop_last());
        lemma_assoc_map_contains(s.drop_last(), k);
        assert forall|j: int| 0 <= j < s.drop_last().len() implies s.drop_last()[j].0 != k by {
            assert(s.drop_last()[j].0 == s[j].0);
        }
        assert(assoc_map(s.drop_last()) =~= assoc_map(s.drop_last()).insert(
            k,
            s.last().1,
        ).remove(k));
    } else {
        lemma_distinct_drop_last(s);
        assert(s.drop_last()[i] == s[i]);
        lemma_assoc_map_remove(s.drop_last(), i);
        assert(s.remove(i).drop_last() =~= s.drop_last().remove(i));
        assert(s.remove(i).last() == s.last());
        assert(s.last().0 != k);
        assert(assoc_map(s.drop_last()).remove(k).insert(s.last().0, s.last().1)
            =~= assoc_map(s.drop_last()).insert(s.last().0, s.last().1).remove(k));
    }
}

/// A record store keyed by a single identifier.
pub struct IdMap<V> {
    entries: Vec<(u64, V)>,
}

impl<V> View for IdMap<V> {
    type V = Map<u64, V>;

    closed spec fn view(&self) -> Map<u64, V> {
        assoc_map(self.entries@)
    }
}

impl<V> IdMap<V> {
    /// Internal well-formedness: no key occurs twice.
    pub closed spec fn inv(&self) -> bool {
        distinct_keys(self.entries@)
    }

    pub fn new() -> (r: Self)
        ensures
            r.inv(),
            r@ == Map::<u64, V>::empty(),
    {
        IdMap { entries: Vec::new() }
    }

    fn index_of(&self, k: u64) -> (r: Option<usize>)
        ensures
            match r {
                Some(i) => i < self.entries@.len() && self.entries@[i as int].0 == k,
                None => forall|j: int| 0 <= j < self.entries@.len() ==> self.entries@[j].0 != k,
            },
    {
        let n = self.entries.len();
        let mut i: usize = 0;
        while i < n
            invariant
                n == self.entries@.len(),
                i <= n,
                forall|j: int| 0 <= j < i ==> self.entries@[j].0 != k,
            decreases n - i,
    {
            if self.entries[i].0 == k {
                return Some(i);
            }
            i = i + 1;
        }
        None
    }

    pub fn contains_key(&self, k: u64) -> (r: bool)
        ensures
            r == self@.contains_key(k),
    {
        proof {
            lemma_assoc_map_contains(self.entries@, k);
        }
        match self.index_of(k) {
            Some(_) => true,
            None => false,
        }
    }

    pub fn get(&self, k: u64) -> (r: Option<&V>)
        requires
            self.inv(),
        ensures
            match r {
                Some(v) => self@.contains_key(k) && *v == self@[k],
                None => !self@.contains_key(k),
            },
    {
        proof {
            lemma_assoc_map_contains(self.entries@, k);
        }
        match self.index_of(k) {
            Some(i) => {
                proof {
                    lemma_assoc_map_index(self.entries@, i as int);
                }
                Some(&self.entries[i].1)
            }
            None => None,
        }
    }

    /// Upsert: the record under `k` becomes `v`.
    pub fn insert(&mut self, k: u64, v: V)
        requires
            old(self).inv(),
        ensures
            final(self).inv(),
            final(self)@ == old(self)@.insert(k, v),
    {
        let ghost s0 = self.entries@;
        let ghost gv = v;
        match self.index_of(k) {
            Some(i) => {
                self.entries.set(i, (k, v));
                proof {
                    lemma_assoc_map_update(s0, i as int, gv);
                    assert(self.entries@ =~= s0.update(i as int, (k, gv)));
                }
            }
            None => {
                self.entries.push((k, v));
                proof {
                    assert(self.entries@.drop_last() =~= s0);
                    assert forall|m: int, n: int|
                        0 <= m < n < self.entries@.len()
                        implies self.entries@[m].0 != self.entries@[n].0 by {
                        if n < s0.len() {
                            assert(self.entries@[m] == s0[m]);
                            assert(self.entries@[n] == s0[n]);
                        } else {
                            assert(self.entries@[m] == s0[m]);
                        }
                    }
                }
            }
        }
    }

    /// Swaps in a new record for an existing key, handing back the old one.
    pub fn replace(&mut self, k: u64, v: V) -> (r: V)
        requires
            old(self).inv(),
            old(self)@.contains_key(k),
        ensures
            final(self).inv(),
            final(self)@ == old(self)@.insert(k, v),
            r == old(self)@[k],
    {
        let ghost s0 = self.entries@;
        let ghost gv = v;
        proof {
            lemma_assoc_map_contains(s0, k);
        }
        let i: usize = match self.index_of(k) {
            Some(i) => i,
            None => {
                assert(false);
                0
            }
        };
        let mut pair = (k, v);
        self.entries.set_and_swap(i, &mut pair);
        proof {
            lemma_assoc_map_index(s0, i as int);
            lemma_assoc_map_update(s0, i as int, gv);
            assert(self.entries@ =~= s0.update(i as int, (k, gv)));
        }
        pair.1
    }

    /// Removes the record under `k`, handing it back if one was present.
    pub fn remove(&mut self, k: u64) -> (r: Option<V>)
        requires
            old(self).inv(),
        ensures
            final(self).inv(),
            final(self)@ == old(self)@.remove(k),
            match r {
                Some(v) => old(self)@.contains_key(k) && v == old(self)@[k],
                None => !old(self)@.contains_key(k),
            },
    {
        let ghost s0 = self.entries@;
        proof {
            lemma_assoc_map_contains(s0, k);
        }
        match self.index_of(k) {
            Some(i) => {
                proof {
                    lemma_assoc_map_remove(s0, i as int);
                    lemma_assoc_map_index(s0, i as int);
                }
                let pair = self.entries.remove(i);
                Some(pair.1)
            },
            None => {
                proof {
                    assert(assoc_map(s0) =~= assoc_map(s0).remove(k));
                }
                None
            },
        }
    }
}

/// The map described by a composite-key association list.
pub open spec fn pair_assoc_map<V>(s: Seq<(u64, u64, V)>) -> Map<(u64, u64), V>
    decreases s.len(),
{
    if s.len() == 0 {
        Map::empty()
    } else {
        pair_assoc_map(s.drop_last()).insert((s.last().0, s.last().1), s.last().2)
    }
}

/// No two entries of the list share a composite key.
pub open spec fn distinct_pair_keys<V>(s: Seq<(u64, u64, V)>) -> bool {
    forall|i: int, j: int|
        0 <= i < j < s.len() ==> !(s[i].0 == s[j].0 && s[i].1 == s[j].1)
}

proof fn lemma_pair_assoc_map_contains<V>(s: Seq<(u64, u64, V)>, k: (u64, u64))
    ensures
        pair_assoc_map(s).contains_key(k) <==> exists|i: int|
            0 <= i < s.len() && s[i].0 == k.0 && s[i].1 == k.1,
    decreases s.len(),
{
    if s.len() > 0 {
        lemma_pair_assoc_map_contains(s.drop_last(), k);
        if s.last().0 == k.0 && s.last().1 == k.1 {
            assert(s[s.len() - 1].0 == k.0 && s[s.len() - 1].1 == k.1);
        } else if pair_assoc_map(s).contains_key(k) {
            let i = choose|i: int|
                0 <= i < s.drop_last().len() && s.drop_last()[i].0 == k.0
                    && s.drop_last()[i].1 == k.1;
            assert(s[i].0 == k.0 && s[i].1 == k.1);
        } else {
            assert forall|i: int|
                0 <= i < s.len() implies !(s[i].0 == k.0 && s[i].1 == k.1) by {
                if i < s.len() - 1 {
                    assert(s.drop_last()[i] == s[i]);
                }
            }
        }
    }
}

proof fn lemma_pair_assoc_map_index<V>(s: Seq<(u64, u64, V)>, i: int)
    requires
        distinct_pair_keys(s),
        0 <= i < s.len(),
    ensures
        pair_assoc_map(s).contains_key((s[i].0, s[i].1)),
        pair_assoc_map(s)[(s[i].0, s[i].1)] == s[i].2,
    decreases s.len(),
{
    if i < s.len() - 1 {
        assert forall|m: int, n: int|
            0 <= m < n < s.drop_last().len()
            implies !(s.drop_last()[m].0 == s.drop_last()[n].0
                && s.drop_last()[m].1 == s.drop_last()[n].1) by {
            assert(s.drop_last()[m] == s[m]);
            assert(s.drop_last()[n] == s[n]);
        }
        lemma_pair_assoc_map_index(s.drop_last(), i);
        assert(s.drop_last()[i] == s[i]);
        assert(!(s.last().0 == s[i].0 && s.last().1 == s[i].1));
    }
}

/// A record store keyed by a pair of identifiers.
pub struct PairMap<V> {
    entries: Vec<(u64, u64, V)>,
}

impl<V> View for PairMap<V> {
    type V = Map<(u64, u64), V>;

    closed spec fn view(&self) -> Map<(u64, u64), V> {
        pair_assoc_map(self.entries@)
    }
}

impl<V> PairMap<V> {
    /// Internal well-formedness: no composite key occurs twice.
    pub closed spec fn inv(&self) -> bool {
        distinct_pair_keys(self.entries@)
    }

    pub fn new() -> (r: Self)
        ensures
            r.inv(),
            r@ == Map::<(u64, u64), V>::empty(),
    {
        PairMap { entries: Vec::new() }
    }

    fn index_of(&self, a: u64, b: u64) -> (r: Option<usize>)
        ensures
            match r {
                Some(i) => i < self.entries@.len() && self.entries@[i as int].0 == a
                    && self.entries@[i as int].1 == b,
                None => forall|j: int|
                    0 <= j < self.entries@.len()
                        ==> !(self.entries@[j].0 == a && self.entries@[j].1 == b),
            },
    {
        let n = self.entries.len();
        let mut i: usize = 0;
        while i < n
            invariant
                n == self.entries@.len(),
                i <= n,
                forall|j: int|
                    0 <= j < i ==> !(self.entries@[j].0 == a && self.entries@[j].1 == b),
            decreases n - i,
        {
            if self.entries[i].0 == a && self.entries[i].1 == b {
                return Some(i);
            }
            i = i + 1;
        }
        None
    }

    pub fn contains_key(&self, a: u64, b: u64) -> (r: bool)
        ensures
            r == self@.contains_key((a, b)),
    {
        proof {
            lemma_pair_assoc_map_contains(self.entries@, (a, b));
        }
        match self.index_of(a, b) {
            Some(_) => true,
            None => false,
        }
    }

    pub fn get(&self, a: u64, b: u64) -> (r: Option<&V>)
        requires
            self.inv(),
        ensures
            match r {
                Some(v) => self@.contains_key((a, b)) && *v == self@[(a, b)],
                None => !self@.contains_key((a, b)),
            },
    {
        proof {
            lemma_pair_assoc_map_contains(self.entries@, (a, b));
        }
        match self.index_of(a, b) {
            Some(i) => {
                proof {
                    lemma_pair_assoc_map_index(self.entries@, i as int);
                }
                Some(&self.entries[i].2)
            }
            None => None,
        }
    }

    /// Inserts a record under a key that is not yet present.
    pub fn insert_new(&mut self, a: u64, b: u64, v: V)
        requires
            old(self).inv(),
            !old(self)@.contains_key((a, b)),
        ensures
            final(self).inv(),
            final(self)@ == old(self)@.insert((a, b), v),
    {
        let ghost s0 = self.entries@;
        proof {
            lemma_pair_assoc_map_contains(s0, (a, b));
        }
        self.entries.push((a, b, v));
        proof {
            assert(self.entries@.drop_last() =~= s0);
            assert forall|m: int, n: int|
                0 <= m < n < self.entries@.len()
                implies !(self.entries@[m].0 == self.entries@[n].0
                    && self.entries@[m].1 == self.entries@[n].1) by {
                if n < s0.len() {
                    assert(self.entries@[m] == s0[m]);
                    assert(self.entries@[n] == s0[n]);
                } else {
                    assert(self.entries@[m] == s0[m]);
                }
            }
        }
    }
}

proof fn lemma_seq_remove_to_set(s: Seq<(u64, u64)>, i: int)
    requires
        s.no_duplicates(),
        0 <= i < s.len(),
    ensures
        s.remove(i).no_duplicates(),
        s.remove(i).to_set() =~= s.to_set().remove(s[i]),
{
    s.remove_ensures(i);
    let t = s.remove(i);
    assert forall|m: int, n: int| 0 <= m < n < t.len() implies t[m] != t[n] by {
        let m0: int = if m < i { m } else { m + 1 };
        let n0: int = if n < i { n } else { n + 1 };
        assert(t[m] == s[m0]);
        assert(t[n] == s[n0]);
    }
    assert forall|x: (u64, u64)| t.to_set().contains(x)
        implies s.to_set().remove(s[i]).contains(x) by {
        let j = choose|j: int| 0 <= j < t.len() && t[j] == x;
        let j0: int = if j < i { j } else { j + 1 };
        assert(t[j] == s[j0]);
        assert(s[j0] == x);
    }
    assert forall|x: (u64, u64)| s.to_set().remove(s[i]).contains(x)
        implies t.to_set().contains(x) by {
        let j = choose|j: int| 0 <= j < s.len() && s[j] == x;
        if j < i {
            assert(t[j] == x);
        } else {
            assert(j != i);
            assert(t[j - 1] == x);
        }
    }
    assert(t.to_set() =~= s.to_set().remove(s[i]));
}

/// The present pairs of `s` whose first component is `a`.
pub open spec fn with_first(s: Set<(u64, u64)>, a: u64) -> Set<(u64, u64)> {
    s.filter(|e: (u64, u64)| e.0 == a)
}

/// The number of pairs in `s` whose first component is `a`: the derived
/// counter that the record stores keep in lockstep with their membership
/// sets.
pub open spec fn count_with_first(s: Set<(u64, u64)>, a: u64) -> nat {
    with_first(s, a).len()
}

pub proof fn lemma_with_first_finite(s: Set<(u64, u64)>, a: u64)
    requires
        s.finite(),
    ensures
        with_first(s, a).finite(),
{
    assert(with_first(s, a).subset_of(s));
    vstd::set_lib::lemma_len_subset(with_first(s, a), s);
}

pub proof fn lemma_count_with_first_insert(s: Set<(u64, u64)>, e: (u64, u64), a: u64)
    requires
        s.finite(),
        !s.contains(e),
    ensures
        e.0 == a ==> count_with_first(s.insert(e), a) == count_with_first(s, a) + 1,
        e.0 != a ==> count_with_first(s.insert(e), a) == count_with_first(s, a),
{
    broadcast use vstd::set::group_set_axioms;

    lemma_with_first_finite(s, a);
    if e.0 == a {
        assert(with_first(s.insert(e), a) =~= with_first(s, a).insert(e));
        assert(!with_first(s, a).contains(e));
    } else {
        assert(with_first(s.insert(e), a) =~= with_first(s, a));
    }
}

pub proof fn lemma_count_with_first_remove(s: Set<(u64, u64)>, e: (u64, u64), a: u64)
    requires
        s.finite(),
        s.contains(e),
    ensures
        e.0 == a ==> count_with_first(s, a) == count_with_first(s.remove(e), a) + 1,
        e.0 != a ==> count_with_first(s.remove(e), a) == count_with_first(s, a),
{
    broadcast use vstd::set::group_set_axioms;

    lemma_with_first_finite(s, a);
    if e.0 == a {
        assert(with_first(s.remove(e), a) =~= with_first(s, a).remove(e));
        assert(with_first(s, a).contains(e));
    } else {
        assert(with_first(s.remove(e), a) =~= with_first(s, a));
    }
}

pub proof fn lemma_count_with_first_zero(s: Set<(u64, u64)>, a: u64)
    requires
        s.finite(),
        forall|e: (u64, u64)| s.contains(e) ==> e.0 != a,
    ensures
        count_with_first(s, a) == 0,
{
    broadcast use vstd::set::group_set_axioms;

    assert(with_first(s, a) =~= Set::<(u64, u64)>::empty());
}

pub proof fn lemma_count_with_first_pos(s: Set<(u64, u64)>, e: (u64, u64), a: u64)
    requires
        s.finite(),
        s.contains(e),
        e.0 == a,
    ensures
        count_with_first(s, a) >= 1,
{
    broadcast use vstd::set::group_set_axioms;

    lemma_with_first_finite(s, a);
    assert(with_first(s, a).contains(e));
    if with_first(s, a).len() == 0 {
        with_first(s, a).lemma_len0_is_empty();
    }
}

/// A membership set of composite keys: "absent" and "false" are one state.
pub struct PairSet {
    entries: Vec<(u64, u64)>,
}

impl View for PairSet {
    type V = Set<(u64, u64)>;

    closed spec fn view(&self) -> Set<(u64, u64)> {
        self.entries@.to_set()
    }
}

impl PairSet {
    /// Internal well-formedness: no entry occurs twice.
    pub closed spec fn inv(&self) -> bool {
        self.entries@.no_duplicates()
    }

    pub fn new() -> (r: Self)
        ensures
            r.inv(),
            r@ == Set::<(u64, u64)>::empty(),
            r@.finite(),
            r@.len() == 0,
    {
        let r = PairSet { entries: Vec::new() };
        proof {
            broadcast use vstd::seq_lib::seq_to_set_is_finite;

            assert(r.entries@.to_set() =~= Set::<(u64, u64)>::empty());
        }
        r
    }

    fn index_of(&self, a: u64, b: u64) -> (r: Option<usize>)
        ensures
            match r {
                Some(i) => i < self.entries@.len() && self.entries@[i as int] == (a, b),
                None => forall|j: int|
                    0 <= j < self.entries@.len() ==> self.entries@[j] != (a, b),
            },
    {
        let n = self.entries.len();
        let mut i: usize = 0;
        while i < n
            invariant
                n == self.entries@.len(),
                i <= n,
                forall|j: int| 0 <= j < i ==> self.entries@[j] != (a, b),
            decreases n - i,
        {
            if self.entries[i].0 == a && self.entries[i].1 == b {
                return Some(i);
            }
            i = i + 1;
        }
        None
    }

    pub fn contains(&self, a: u64, b: u64) -> (r: bool)
        ensures
            r == self@.contains((a, b)),
    {
        match self.index_of(a, b) {
            Some(_) => true,
            None => {
                proof {
                    assert(!self.entries@.contains((a, b)));
                }
                false
            }
        }
    }

    /// Inserts a pair that is not yet present.
    pub fn insert(&mut self, a: u64, b: u64)
        requires
            old(self).inv(),
            !old(self)@.contains((a, b)),
        ensures
            final(self).inv(),
            final(self)@ == old(self)@.insert((a, b)),
            final(self)@.finite(),
            final(self)@.len() == old(self)@.len() + 1,
    {
        let ghost s0 = self.entries@;
        self.entries.push((a, b));
        proof {
            broadcast use vstd::seq_lib::seq_to_set_is_finite;

            assert(!s0.contains((a, b)));
            s0.lemma_push_to_set_commute((a, b));
            assert(self.entries@ == s0.push((a, b)));
            assert forall|m: int, n: int|
                0 <= m < n < self.entries@.len()
                implies self.entries@[m] != self.entries@[n] by {
                if n < s0.len() {
                    assert(self.entries@[m] == s0[m]);
                    assert(self.entries@[n] == s0[n]);
                } else {
                    assert(self.entries@[m] == s0[m]);
                    assert(s0.contains(s0[m]));
                }
            }
            s0.unique_seq_to_set();
            self.entries@.unique_seq_to_set();
        }
    }

    /// Removes a pair; removing an absent pair is a no-op.
    pub fn remove(&mut self, a: u64, b: u64)
        requires
            old(self).inv(),
        ensures
            final(self).inv(),
            final(self)@ == old(self)@.remove((a, b)),
            final(self)@.finite(),
            old(self)@.contains((a, b))
                ==> final(self)@.len() == old(self)@.len() - 1,
            !old(self)@.contains((a, b)) ==> final(self)@.len() == old(self)@.len(),
    {
        let ghost s0 = self.entries@;
        proof {
            broadcast use vstd::seq_lib::seq_to_set_is_finite;
        }
        match self.index_of(a, b) {
            Some(i) => {
                self.entries.remove(i);
                proof {
                    lemma_seq_remove_to_set(s0, i as int);
                    s0.unique_seq_to_set();
                    self.entries@.unique_seq_to_set();
                    assert(s0.contains((a, b)));
                }
            }
            None => {
                proof {
                    assert(!s0.contains((a, b)));
                    assert(s0.to_set() =~= s0.to_set().remove((a, b)));
                }
            }
        }
    }
}

} // verus!
