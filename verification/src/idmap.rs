//! An identity-keyed table, the backing store of every cache in the
//! pipeline.
//!
//! The table is a plain vector of key-value pairs with pairwise
//! distinct keys; its view is the mathematical map those pairs denote.

use vstd::map::*;
use vstd::prelude::*;

use crate::identity::Uuid;

verus! {

/// A table from identities to values, with pairwise distinct keys.
pub struct IdMap<V> {
    entries: Vec<(Uuid, V)>,
}

/// The mathematical map denoted by a sequence of key-value pairs;
/// later pairs shadow earlier ones.
pub open spec fn map_of<V>(s: Seq<(Uuid, V)>) -> Map<Uuid, V>
    decreases s.len(),
{
    if s.len() == 0 {
        Map::empty()
    } else {
        map_of(s.drop_last()).insert(s.last().0, s.last().1)
    }
}

/// No key occurs twice in the sequence of pairs.
pub open spec fn distinct_keys<V>(s: Seq<(Uuid, V)>) -> bool {
    forall|i: int, j: int| 0 <= i < j < s.len() ==> (#[trigger] s[i]).0 != (#[trigger] s[j]).0
}

proof fn lemma_map_of_contains<V>(s: Seq<(Uuid, V)>, k: Uuid)
    ensures
        map_of(s).contains_key(k) <==> (exists|i: int|
            0 <= i < s.len() && (#[trigger] s[i]).0 == k),
    decreases s.len(),
{
    if s.len() > 0 {
        lemma_map_of_contains(s.drop_last(), k);
        if s.last().0 == k {
            assert((s[s.len() - 1]).0 == k);
        } else {
            if exists|i: int| 0 <= i < s.len() && (#[trigger] s[i]).0 == k {
                let i = choose|i: int| 0 <= i < s.len() && (#[trigger] s[i]).0 == k;
                assert(i < s.len() - 1);
                assert((s.drop_last()[i]).0 == k);
            }
            if exists|i: int| 0 <= i < s.len() - 1 && (#[trigger] s.drop_last()[i]).0 == k {
                let i = choose|i: int|
                    0 <= i < s.len() - 1 && (#[trigger] s.drop_last()[i]).0 == k;
                assert((s[i]).0 == k);
            }
        }
    }
}

proof fn lemma_map_of_index<V>(s: Seq<(Uuid, V)>, i: int)
    requires
        distinct_keys(s),
        0 <= i < s.len(),
    ensures
        map_of(s).contains_key(s[i].0),
        map_of(s)[s[i].0] == s[i].1,
    decreases s.len(),
{
    if i == s.len() - 1 {
        assert(s.last() == s[i]);
    } else {
        assert(distinct_keys(s.drop_last())) by {
            assert(forall|a: int, b: int|
                0 <= a < b < s.len() - 1 ==> (#[trigger] s.drop_last()[a]).0 != (
                #[trigger] s.drop_last()[b]).0) by {
                assert(forall|a: int|
                    0 <= a < s.len() - 1 ==> #[trigger] s.drop_last()[a] == s[a]);
            }
        }
        lemma_map_of_index(s.drop_last(), i);
        assert(s.drop_last()[i] == s[i]);
        assert(s.last().0 != s[i].0);
    }
}

impl<V> IdMap<V> {
    /// The key-distinctness invariant of the table.
    pub closed spec fn wf(&self) -> bool {
        distinct_keys(self.entries@)
    }

    /// An empty table.
    pub fn new() -> (r: Self)
        ensures
            r@ == Map::<Uuid, V>::empty(),
            r.wf(),
    {
        IdMap { entries: Vec::new() }
    }

    fn index_of(&self, k: Uuid) -> (r: Option<usize>)
        ensures
            match r {
                Some(i) => i < self.entries@.len() && self.entries@[i as int].0 == k,
                None => forall|j: int|
                    0 <= j < self.entries@.len() ==> (#[trigger] self.entries@[j]).0 != k,
            },
    {
        let n = self.entries.len();
        let mut i: usize = 0;
        while i < n
            invariant
                n == self.entries@.len(),
                0 <= i <= n,
                forall|j: int| 0 <= j < i ==> (#[trigger] self.entries@[j]).0 != k,
            decreases n - i,
        {
            if self.entries[i].0.value == k.value {
                assert(self.entries@[i as int].0 == k);
                return Some(i);
            }
            i = i + 1;
        }
        None
    }

    /// Whether the table holds an entry for the given key.
    pub fn contains(&self, k: Uuid) -> (r: bool)
        ensures
            r == self@.contains_key(k),
    {
        proof {
            lemma_map_of_contains(self.entries@, k);
        }
        self.index_of(k).is_some()
    }

    /// The value stored under the given key, if any.
    pub fn get(&self, k: Uuid) -> (r: Option<&V>)
        requires
            self.wf(),
        ensures
            match r {
                Some(v) => self@.contains_key(k) && *v == self@[k],
                None => !self@.contains_key(k),
            },
    {
        proof {
            lemma_map_of_contains(self.entries@, k);
        }
        match self.index_of(k) {
            Some(i) => {
                proof {
                    lemma_map_of_index(self.entries@, i as int);
                }
                Some(&self.entries[i].1)
            },
            None => None,
        }
    }

    /// A mutable borrow of the value stored under the given key.
    pub fn get_mut(&mut self, k: Uuid) -> (r: &mut V)
        requires
            old(self).wf(),
            old(self)@.contains_key(k),
        ensures
            *r == old(self)@[k],
            final(self)@ == old(self)@.insert(k, *final(r)),
            final(self).wf(),
    {
        proof {
            lemma_map_of_contains(self.entries@, k);
        }
        let i = match self.index_of(k) {
            Some(i) => i,
            None => vstd::pervasive::unreached(),
        };
        proof {
            lemma_map_of_index(self.entries@, i as int);
            let s0 = self.entries@;
            let iv = i as int;
            assert forall|vnew: V| distinct_keys(s0.update(iv, (k, vnew))) && map_of(
                s0.update(iv, (k, vnew)),
            ) == map_of(s0).insert(k, vnew) by {
                let s1 = s0.update(iv, (k, vnew));
                assert(forall|j: int|
                    0 <= j < s0.len() ==> (#[trigger] s1[j]).0 == s0[j].0);
                assert(distinct_keys(s1));
                lemma_update_at_key(s0, iv, vnew);
            }
        }
        let entry = &mut self.entries[i].1;
        entry
    }

    /// Stores a value under the given key, replacing and reporting any
    /// previous entry.
    pub fn insert(&mut self, k: Uuid, v: V) -> (was_present: bool)
        requires
            old(self).wf(),
        ensures
            final(self)@ == old(self)@.insert(k, v),
            was_present == old(self)@.contains_key(k),
            final(self).wf(),
    {
        proof {
            lemma_map_of_contains(self.entries@, k);
        }
        match self.index_of(k) {
            Some(i) => {
                proof {
                    let s0 = self.entries@;
                    let s1 = s0.update(i as int, (k, v));
                    assert(forall|j: int|
                        0 <= j < s0.len() ==> (#[trigger] s1[j]).0 == s0[j].0);
                    assert(distinct_keys(s1));
                    lemma_update_at_key(s0, i as int, v);
                }
                self.entries.set(i, (k, v));
                true
            },
            None => {
                proof {
                    let s1 = self.entries@.push((k, v));
                    assert(s1.drop_last() =~= self.entries@);
                    assert(s1.last() == (k, v));
                    assert(forall|j: int|
                        0 <= j < self.entries@.len() ==> #[trigger] s1[j] == self.entries@[j]);
                    assert(distinct_keys(s1));
                }
                self.entries.push((k, v));
                false
            },
        }
    }

    /// Removes and returns the entry under the given key, if any.
    pub fn remove(&mut self, k: Uuid) -> (r: Option<V>)
        requires
            old(self).wf(),
        ensures
            final(self)@ == old(self)@.remove(k),
            final(self).wf(),
            match r {
                Some(v) => old(self)@.contains_key(k) && v == old(self)@[k],
                None => !old(self)@.contains_key(k),
            },
    {
        proof {
            lemma_map_of_contains(self.entries@, k);
        }
        match self.index_of(k) {
            Some(i) => {
                proof {
                    lemma_map_of_index(self.entries@, i as int);
                    lemma_remove_at_key(self.entries@, i as int);
                }
                let (_, v) = self.entries.remove(i);
                Some(v)
            },
            None => {
                proof {
                    assert forall|kk: Uuid| #[trigger]
                        map_of(self.entries@).contains_key(kk) == map_of(
                            self.entries@,
                        ).remove(k).contains_key(kk) by {
                        lemma_map_of_contains(self.entries@, kk);
                    }
                    assert(map_of(self.entries@) =~= map_of(self.entries@).remove(k));
                }
                None
            },
        }
    }

    /// The keys of all entries, in table order.
    pub fn keys(&self) -> (r: Vec<Uuid>)
        requires
            self.wf(),
        ensures
            forall|i: int| 0 <= i < r@.len() ==> self@.contains_key(#[trigger] r@[i]),
            forall|k: Uuid| self@.contains_key(k) ==> r@.contains(k),
            forall|i: int, j: int| 0 <= i < j < r@.len() ==> r@[i] != r@[j],
    {
        let n = self.entries.len();
        let mut r: Vec<Uuid> = Vec::new();
        let mut i: usize = 0;
        while i < n
            invariant
                self.wf(),
                n == self.entries@.len(),
                0 <= i <= n,
                r@.len() == i,
                forall|j: int| 0 <= j < i ==> #[trigger] r@[j] == self.entries@[j].0,
            decreases n - i,
        {
            r.push(self.entries[i].0);
            i = i + 1;
        }
        proof {
            assert forall|j: int| 0 <= j < r@.len() implies self@.contains_key(
                #[trigger] r@[j],
            ) by {
                lemma_map_of_index(self.entries@, j);
            }
            assert forall|k: Uuid| self@.contains_key(k) implies r@.contains(k) by {
                lemma_map_of_contains(self.entries@, k);
                let j = choose|j: int|
                    0 <= j < self.entries@.len() && (#[trigger] self.entries@[j]).0 == k;
                assert(r@[j] == k);
            }
        }
        r
    }
}

impl<V> View for IdMap<V> {
    type V = Map<Uuid, V>;

    closed spec fn view(&self) -> Map<Uuid, V> {
        map_of(self.entries@)
    }
}

proof fn lemma_update_at_key<V>(s: Seq<(Uuid, V)>, i: int, v: V)
    requires
        distinct_keys(s),
        0 <= i < s.len(),
    ensures
        map_of(s.update(i, (s[i].0, v))) == map_of(s).insert(s[i].0, v),
{
    let k = s[i].0;
    let s1 = s.update(i, (k, v));
    assert(forall|j: int| 0 <= j < s.len() ==> (#[trigger] s1[j]).0 == s[j].0);
    assert(distinct_keys(s1));
    assert forall|kk: Uuid| #[trigger]
        map_of(s1).contains_key(kk) == map_of(s).insert(k, v).contains_key(kk) by {
        lemma_map_of_contains(s1, kk);
        lemma_map_of_contains(s, kk);
        if map_of(s1).contains_key(kk) {
            let j = choose|j: int| 0 <= j < s1.len() && (#[trigger] s1[j]).0 == kk;
            assert((s[j]).0 == kk);
        }
        if map_of(s).contains_key(kk) {
            let j = choose|j: int| 0 <= j < s.len() && (#[trigger] s[j]).0 == kk;
            assert((s1[j]).0 == kk);
        }
        assert((s1[i]).0 == k);
    }
    assert forall|kk: Uuid| map_of(s1).contains_key(kk) implies map_of(s1)[kk] == map_of(
        s,
    ).insert(k, v)[kk] by {
        lemma_map_of_contains(s1, kk);
        let j = choose|j: int| 0 <= j < s1.len() && (#[trigger] s1[j]).0 == kk;
        lemma_map_of_index(s1, j);
        if kk == k {
            assert(j == i);
        } else {
            assert(j != i);
            assert(s1[j] == s[j]);
            lemma_map_of_index(s, j);
        }
    }
    assert(map_of(s1) =~= map_of(s).insert(k, v));
}

proof fn lemma_remove_at_key<V>(s: Seq<(Uuid, V)>, i: int)
    requires
        distinct_keys(s),
        0 <= i < s.len(),
    ensures
        map_of(s.remove(i)) == map_of(s).remove(s[i].0),
        distinct_keys(s.remove(i)),
{
    let k = s[i].0;
    let s1 = s.remove(i);
    s.remove_ensures(i);
    assert(distinct_keys(s1)) by {
        assert forall|a: int, b: int| 0 <= a < b < s1.len() implies (#[trigger] s1[a]).0 != (
        #[trigger] s1[b]).0 by {
            let oa: int = if a < i {
                a
            } else {
                a + 1
            };
            let ob: int = if b < i {
                b
            } else {
                b + 1
            };
            assert(s1[a] == s[oa]);
            assert(s1[b] == s[ob]);
        }
    }
    assert forall|kk: Uuid| #[trigger]
        map_of(s1).contains_key(kk) == map_of(s).remove(k).contains_key(kk) by {
        lemma_map_of_contains(s1, kk);
        lemma_map_of_contains(s, kk);
        if kk != k {
            if map_of(s).contains_key(kk) {
                let j = choose|j: int| 0 <= j < s.len() && (#[trigger] s[j]).0 == kk;
                assert(j != i);
                let nj: int = if j < i {
                    j
                } else {
                    j - 1
                };
                assert(s1[nj] == s[j]);
            }
            if map_of(s1).contains_key(kk) {
                let j = choose|j: int| 0 <= j < s1.len() && (#[trigger] s1[j]).0 == kk;
                let oj: int = if j < i {
                    j
                } else {
                    j + 1
                };
                assert(s1[j] == s[oj]);
            }
        } else {
            if map_of(s1).contains_key(k) {
                let j = choose|j: int| 0 <= j < s1.len() && (#[trigger] s1[j]).0 == k;
                let oj: int = if j < i {
                    j
                } else {
                    j + 1
                };
                assert(s1[j] == s[oj]);
                assert(oj != i);
                assert(false);
            }
        }
    }
    assert forall|kk: Uuid| map_of(s1).contains_key(kk) implies map_of(s1)[kk] == map_of(
        s,
    ).remove(k)[kk] by {
        lemma_map_of_contains(s1, kk);
        let j = choose|j: int| 0 <= j < s1.len() && (#[trigger] s1[j]).0 == kk;
        lemma_map_of_index(s1, j);
        let oj: int = if j < i {
            j
        } else {
            j + 1
        };
        assert(s1[j] == s[oj]);
        lemma_map_of_index(s, oj);
    }
    assert(map_of(s1) =~= map_of(s).remove(k));
}

} // verus!
