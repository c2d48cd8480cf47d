//! An ordered key-value store of records keyed by their 64-bit id.
use vstd::prelude::*;

verus! {

/// A record that a store can hand out copies of.
pub trait Record: Sized + View {
    /// A copy of the record that holds the same values.
    fn duplicate(&self) -> (r: Self)
        ensures
            r@ == self@,
    ;
}

/// Entries whose keys strictly increase.
pub open spec fn keys_ascending<V>(s: Seq<(u64, V)>) -> bool {
    forall|i: int, j: int| 0 <= i < j < s.len() ==> s[i].0 < s[j].0
}

/// Whether some entry has key `k`.
pub open spec fn has_key<V>(s: Seq<(u64, V)>, k: u64) -> bool {
    exists|i: int| 0 <= i < s.len() && s[i].0 == k
}

/// The map from key to value that a sequence of entries describes.
pub open spec fn entries_map<V>(s: Seq<(u64, V)>) -> Map<u64, V> {
    Map::new(
        |k: u64| has_key(s, k),
        |k: u64| s[choose|i: int| 0 <= i < s.len() && s[i].0 == k].1,
    )
}

/// `vals` holds the values of `m` in ascending order of their keys.
pub open spec fn in_key_order<V>(m: Map<u64, V>, vals: Seq<V>) -> bool {
    exists|s: Seq<(u64, V)>|
        keys_ascending(s) && entries_map(s) == m && vals == s.map_values(|e: (u64, V)| e.1)
}

/// Values listed in key order are empty exactly when the map is.
pub proof fn lemma_listing_empty<V>(m: Map<u64, V>, vals: Seq<V>)
    requires
        in_key_order(m, vals),
    ensures
        (vals.len() == 0) == (m == Map::<u64, V>::empty()),
{
    let s = choose|s: Seq<(u64, V)>|
        keys_ascending(s) && entries_map(s) == m && vals == s.map_values(|e: (u64, V)| e.1);
    if vals.len() == 0 {
        assert(m =~= Map::<u64, V>::empty());
    } else {
        assert(has_key(s, s[0].0));
        assert(m.contains_key(s[0].0));
    }
}

/// An ordered mapping from id to record.
pub struct EntityStore<T: Record> {
    entries: Vec<(u64, T)>,
}

/// The entries of a store, with each record seen through its view.
pub open spec fn viewed<T: View>(s: Seq<(u64, T)>) -> Seq<(u64, T::V)> {
    s.map_values(|e: (u64, T)| (e.0, e.1@))
}

/// In ascending entries, the entry at `i` is the one the map finds for its key.
pub proof fn lemma_unique_index<V>(s: Seq<(u64, V)>, i: int)
    requires
        keys_ascending(s),
        0 <= i < s.len(),
    ensures
        has_key(s, s[i].0),
        entries_map(s)[s[i].0] == s[i].1,
{
    let k = s[i].0;
    assert(0 <= i < s.len() && s[i].0 == k);
    let j = choose|j: int| 0 <= j < s.len() && s[j].0 == k;
    assert(j == i) by {
        if j < i {
            assert(s[j].0 < s[i].0);
        } else if i < j {
            assert(s[i].0 < s[j].0);
        }
    }
}


proof fn lemma_map_after_update<V>(s: Seq<(u64, V)>, i: int, v: V)
    requires
        keys_ascending(s),
        0 <= i < s.len(),
    ensures
        keys_ascending(s.update(i, (s[i].0, v))),
        entries_map(s.update(i, (s[i].0, v))) == entries_map(s).insert(s[i].0, v),
{
    let t = s.update(i, (s[i].0, v));
    assert forall|k: u64| #[trigger] has_key(t, k) == has_key(s, k) by {
        if has_key(s, k) {
            let j = choose|j: int| 0 <= j < s.len() && s[j].0 == k;
            assert(t[j].0 == k);
        }
        if has_key(t, k) {
            let j = choose|j: int| 0 <= j < t.len() && t[j].0 == k;
            assert(s[j].0 == k);
        }
    }
    assert forall|k: u64| has_key(t, k) implies entries_map(t)[k] == entries_map(s).insert(
        s[i].0,
        v,
    )[k] by {
        let j = choose|j: int| 0 <= j < t.len() && t[j].0 == k;
        lemma_unique_index(t, j);
        lemma_unique_index(s, j);
    }
    assert(entries_map(t) =~= entries_map(s).insert(s[i].0, v));
}

proof fn lemma_map_after_insert<V>(s: Seq<(u64, V)>, i: int, k: u64, v: V)
    requires
        keys_ascending(s),
        0 <= i <= s.len(),
        forall|j: int| 0 <= j < i ==> s[j].0 < k,
        forall|j: int| i <= j < s.len() ==> k < s[j].0,
    ensures
        keys_ascending(s.insert(i, (k, v))),
        entries_map(s.insert(i, (k, v))) == entries_map(s).insert(k, v),
{
    let t = s.insert(i, (k, v));
    assert(keys_ascending(t)) by {
        assert forall|a: int, b: int| 0 <= a < b < t.len() implies t[a].0 < t[b].0 by {
            if b < i {
            } else if b == i {
            } else if a < i {
                assert(s[a].0 < k);
            } else if a == i {
            } else {
                assert(s[a - 1].0 < s[b - 1].0);
            }
        }
    }
    assert forall|q: u64| #[trigger] has_key(t, q) == (has_key(s, q) || q == k) by {
        if has_key(s, q) {
            let j = choose|j: int| 0 <= j < s.len() && s[j].0 == q;
            if j < i {
                assert(t[j].0 == q);
            } else {
                assert(t[j + 1].0 == q);
            }
        }
        if q == k {
            assert(t[i].0 == q);
        }
        if has_key(t, q) && q != k {
            let j = choose|j: int| 0 <= j < t.len() && t[j].0 == q;
            if j < i {
                assert(s[j].0 == q);
            } else {
                assert(s[j - 1].0 == q);
            }
        }
    }
    assert forall|q: u64| has_key(t, q) implies entries_map(t)[q] == entries_map(s).insert(
        k,
        v,
    )[q] by {
        let j = choose|j: int| 0 <= j < t.len() && t[j].0 == q;
        lemma_unique_index(t, j);
        if j < i {
            lemma_unique_index(s, j);
        } else if j > i {
            lemma_unique_index(s, j - 1);
        }
    }
    assert(entries_map(t) =~= entries_map(s).insert(k, v));
}

proof fn lemma_map_after_remove<V>(s: Seq<(u64, V)>, i: int)
    requires
        keys_ascending(s),
        0 <= i < s.len(),
    ensures
        keys_ascending(s.remove(i)),
        entries_map(s.remove(i)) == entries_map(s).remove(s[i].0),
{
    let t = s.remove(i);
    let k = s[i].0;
    assert(keys_ascending(t)) by {
        assert forall|a: int, b: int| 0 <= a < b < t.len() implies t[a].0 < t[b].0 by {
            if b < i {
            } else if a < i {
                assert(s[a].0 < s[b + 1].0);
            } else {
                assert(s[a + 1].0 < s[b + 1].0);
            }
        }
    }
    assert forall|q: u64| #[trigger] has_key(t, q) == (has_key(s, q) && q != k) by {
        if has_key(s, q) && q != k {
            let j = choose|j: int| 0 <= j < s.len() && s[j].0 == q;
            if j < i {
                assert(t[j].0 == q);
            } else {
                assert(j != i);
                assert(t[j - 1].0 == q);
            }
        }
        if has_key(t, q) {
            let j = choose|j: int| 0 <= j < t.len() && t[j].0 == q;
            if j < i {
                assert(s[j].0 == q);
                assert(s[j].0 < s[i].0);
            } else {
                assert(s[j + 1].0 == q);
                assert(s[i].0 < s[j + 1].0);
            }
        }
    }
    assert forall|q: u64| has_key(t, q) implies entries_map(t)[q] == entries_map(s)[q] by {
        let j = choose|j: int| 0 <= j < t.len() && t[j].0 == q;
        lemma_unique_index(t, j);
        if j < i {
            lemma_unique_index(s, j);
        } else {
            lemma_unique_index(s, j + 1);
        }
    }
    assert(entries_map(t) =~= entries_map(s).remove(k));
}

proof fn lemma_viewed_ascending<T: View>(s: Seq<(u64, T)>)
    requires
        keys_ascending(s),
    ensures
        keys_ascending(viewed(s)),
{
}

impl<T: Record> EntityStore<T> {
    /// The entries are kept in strictly ascending key order.
    pub closed spec fn wf(&self) -> bool {
        keys_ascending(self.entries@)
    }

    /// An empty store.
    pub fn new() -> (r: Self)
        ensures
            r.wf(),
            r@ == Map::<u64, T::V>::empty(),
    {
        let r = EntityStore { entries: Vec::new() };
        assert(r@ =~= Map::<u64, T::V>::empty());
        r
    }

    /// The position of the first entry whose key is at least `k`.
    fn position(&self, k: u64) -> (i: usize)
        requires
            self.wf(),
        ensures
            i <= self.entries@.len(),
            forall|j: int| 0 <= j < i ==> self.entries@[j].0 < k,
            forall|j: int| i <= j < self.entries@.len() ==> k <= self.entries@[j].0,
    {
        let mut i: usize = 0;
        while i < self.entries.len() && self.entries[i].0 < k
            invariant
                keys_ascending(self.entries@),
                i <= self.entries@.len(),
                forall|j: int| 0 <= j < i ==> self.entries@[j].0 < k,
            decreases self.entries@.len() - i,
        {
            i = i + 1;
        }
        proof {
            if i < self.entries@.len() {
                assert forall|j: int| i <= j < self.entries@.len() implies k
                    <= self.entries@[j].0 by {
                    if j > i {
                        assert(self.entries@[i as int].0 < self.entries@[j].0);
                    }
                }
            }
        }
        i
    }

    /// A copy of the record under `k`, if there is one.
    pub fn get(&self, k: u64) -> (r: Option<T>)
        requires
            self.wf(),
        ensures
            match r {
                Some(v) => self@.contains_key(k) && v@ == self@[k],
                None => !self@.contains_key(k),
            },
    {
        proof {
            lemma_viewed_ascending(self.entries@);
        }
        let i = self.position(k);
        if i < self.entries.len() && self.entries[i].0 == k {
            proof {
                lemma_unique_index(viewed(self.entries@), i as int);
            }
            Some(self.entries[i].1.duplicate())
        } else {
            proof {
                if has_key(viewed(self.entries@), k) {
                    let j = choose|j: int|
                        0 <= j < self.entries@.len() && viewed(self.entries@)[j].0 == k;
                    assert(self.entries@[j].0 == k);
                }
            }
            None
        }
    }

    /// Stores `v` under `k`, replacing any record that was there.
    pub fn put(&mut self, k: u64, v: T)
        requires
            old(self).wf(),
        ensures
            final(self).wf(),
            final(self)@ == old(self)@.insert(k, v@),
    {
        let i = self.position(k);
        let ghost vv = v@;
        let ghost before = self.entries@;
        if i < self.entries.len() && self.entries[i].0 == k {
            self.entries.set(i, (k, v));
            proof {
                lemma_map_after_update(viewed(before), i as int, vv);
                assert(viewed(self.entries@) =~= viewed(before).update(i as int, (k, vv)));
            }
        } else {
            self.entries.insert(i, (k, v));
            proof {
                lemma_map_after_insert(before, i as int, k, v);
                lemma_map_after_insert(viewed(before), i as int, k, vv);
                assert(viewed(self.entries@) =~= viewed(before).insert(i as int, (k, vv)));
            }
        }
    }

    /// Deletes the record under `k` and hands it back, if there was one.
    pub fn remove(&mut self, k: u64) -> (r: Option<T>)
        requires
            old(self).wf(),
        ensures
            final(self).wf(),
            final(self)@ == old(self)@.remove(k),
            match r {
                Some(v) => old(self)@.contains_key(k) && v@ == old(self)@[k],
                None => !old(self)@.contains_key(k) && final(self)@ == old(self)@,
            },
    {
        proof {
            lemma_viewed_ascending(self.entries@);
        }
        let i = self.position(k);
        let ghost before = self.entries@;
        if i < self.entries.len() && self.entries[i].0 == k {
            let e = self.entries.remove(i);
            proof {
                lemma_unique_index(viewed(before), i as int);
                lemma_map_after_remove(before, i as int);
                lemma_map_after_remove(viewed(before), i as int);
                assert(viewed(self.entries@) =~= viewed(before).remove(i as int));
            }
            Some(e.1)
        } else {
            proof {
                if has_key(viewed(before), k) {
                    let j = choose|j: int| 0 <= j < before.len() && viewed(before)[j].0 == k;
                    assert(before[j].0 == k);
                }
                assert(self@ =~= old(self)@);
            }
            None
        }
    }

    /// Copies of all records, in ascending order of their keys.
    pub fn list_all(&self) -> (r: Vec<T>)
        requires
            self.wf(),
        ensures
            in_key_order(self@, r@.map_values(|t: T| t@)),
    {
        proof {
            lemma_viewed_ascending(self.entries@);
        }
        let mut r: Vec<T> = Vec::new();
        let mut i: usize = 0;
        while i < self.entries.len()
            invariant
                i <= self.entries@.len(),
                r@.len() == i,
                forall|j: int| 0 <= j < i ==> #[trigger] r@[j]@ == self.entries@[j].1@,
            decreases self.entries@.len() - i,
        {
            r.push(self.entries[i].1.duplicate());
            i = i + 1;
        }
        proof {
            let s = viewed(self.entries@);
            assert(r@.map_values(|t: T| t@) =~= s.map_values(|e: (u64, T::V)| e.1));
        }
        r
    }
}

impl<T: Record> View for EntityStore<T> {
    type V = Map<u64, T::V>;

    closed spec fn view(&self) -> Map<u64, T::V> {
        entries_map(viewed(self.entries@))
    }
}

} // verus!
