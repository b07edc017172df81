//! A keyed table from pool addresses to copyable records.
//!
//! This is the shape of the persisted key-value regions owned by the pool
//! logic: the pool registry (address to asset pair and cached invariant) and
//! the per-pool share totals. The representation is a vector of entries with
//! pairwise distinct keys; the abstraction is a `Map<u64, V>`.

use vstd::prelude::*;

verus! {

/// An association table from `u64` keys to copyable values.
pub struct Table<V> {
    entries: Vec<(u64, V)>,
}

impl<V> View for Table<V> {
    type V = Map<u64, V>;

    closed spec fn view(&self) -> Map<u64, V> {
        Table::map_of(self.entries@)
    }
}

impl<V> Table<V> {
    /// The map held by a sequence of entries; a later entry with the same key
    /// would shadow an earlier one, but well-formed tables have no duplicates.
    spec fn map_of(s: Seq<(u64, V)>) -> Map<u64, V>
        decreases s.len(),
    {
        if s.len() == 0 {
            Map::empty()
        } else {
            Self::map_of(s.drop_last()).insert(s.last().0, s.last().1)
        }
    }

    /// Well-formed: the entry keys are pairwise distinct.
    pub closed spec fn wf(self) -> bool {
        forall|i: int, j: int|
            0 <= i < j < self.entries@.len() ==> (#[trigger] self.entries@[i]).0 != (
            #[trigger] self.entries@[j]).0
    }

    /// Every entry's key is in the table's map.
    proof fn lemma_entry_in_map(s: Seq<(u64, V)>, i: int)
        requires
            0 <= i < s.len(),
        ensures
            Self::map_of(s).contains_key(s[i].0),
        decreases s.len(),
    {
        if i < s.len() - 1 {
            Self::lemma_entry_in_map(s.drop_last(), i);
        }
    }

    /// A key held by no entry is not in the table's map.
    proof fn lemma_absent(s: Seq<(u64, V)>, key: u64)
        requires
            forall|j: int| 0 <= j < s.len() ==> (#[trigger] s[j]).0 != key,
        ensures
            !Self::map_of(s).contains_key(key),
        decreases s.len(),
    {
        if s.len() > 0 {
            Self::lemma_absent(s.drop_last(), key);
        }
    }

    /// With distinct keys, the entry that holds a key gives its map value.
    proof fn lemma_found(s: Seq<(u64, V)>, i: int)
        requires
            forall|p: int, q: int|
                0 <= p < q < s.len() ==> (#[trigger] s[p]).0 != (#[trigger] s[q]).0,
            0 <= i < s.len(),
        ensures
            Self::map_of(s).contains_key(s[i].0),
            Self::map_of(s)[s[i].0] == s[i].1,
        decreases s.len(),
    {
        if i < s.len() - 1 {
            Self::lemma_found(s.drop_last(), i);
        }
    }

    /// Updating the entry that holds a key updates the map at that key.
    proof fn lemma_update(s: Seq<(u64, V)>, i: int, value: V)
        requires
            forall|p: int, q: int|
                0 <= p < q < s.len() ==> (#[trigger] s[p]).0 != (#[trigger] s[q]).0,
            0 <= i < s.len(),
        ensures
            Self::map_of(s.update(i, (s[i].0, value))) == Self::map_of(s).insert(s[i].0, value),
        decreases s.len(),
    {
        let key = s[i].0;
        let t = s.update(i, (key, value));
        if i == s.len() - 1 {
            assert(t.drop_last() =~= s.drop_last());
            assert(Self::map_of(t) =~= Self::map_of(s).insert(key, value));
        } else {
            Self::lemma_update(s.drop_last(), i, value);
            assert(t.drop_last() =~= s.drop_last().update(i, (key, value)));
            assert(s.last().0 != key);
            assert(Self::map_of(t) =~= Self::map_of(s).insert(key, value));
        }
    }
}

impl<V: Copy> Table<V> {
    /// An empty table.
    pub fn new() -> (r: Self)
        ensures
            r.wf(),
            r@ == Map::<u64, V>::empty(),
    {
        let t = Table { entries: Vec::new() };
        proof {
            assert(t@ =~= Map::<u64, V>::empty());
        }
        t
    }

    /// The value stored under `key`, if any.
    pub fn get(&self, key: u64) -> (r: Option<V>)
        requires
            self.wf(),
        ensures
            r == (if self@.contains_key(key) {
                Some(self@[key])
            } else {
                None::<V>
            }),
    {
        let n = self.entries.len();
        let mut i: usize = 0;
        while i < n
            invariant
                n == self.entries@.len(),
                i <= n,
                self.wf(),
                forall|j: int| 0 <= j < i ==> (#[trigger] self.entries@[j]).0 != key,
            decreases n - i,
        {
            if self.entries[i].0 == key {
                proof {
                    Self::lemma_found(self.entries@, i as int);
                }
                return Some(self.entries[i].1);
            }
            i += 1;
        }
        proof {
            Self::lemma_absent(self.entries@, key);
        }
        None
    }

    /// Stores `value` under `key`, replacing any earlier value.
    pub fn set(&mut self, key: u64, value: V)
        requires
            old(self).wf(),
        ensures
            final(self).wf(),
            final(self)@ == old(self)@.insert(key, value),
    {
        let n = self.entries.len();
        let mut i: usize = 0;
        while i < n
            invariant
                n == self.entries@.len(),
                i <= n,
                self == old(self),
                self.wf(),
                forall|j: int| 0 <= j < i ==> (#[trigger] self.entries@[j]).0 != key,
            decreases n - i,
        {
            if self.entries[i].0 == key {
                proof {
                    Self::lemma_update(self.entries@, i as int, value);
                }
                self.entries.set(i, (key, value));
                return;
            }
            i += 1;
        }
        self.entries.push((key, value));
        proof {
            assert(self.entries@.drop_last() =~= old(self).entries@);
            assert(self@ =~= old(self)@.insert(key, value));
        }
    }
}

} // verus!
