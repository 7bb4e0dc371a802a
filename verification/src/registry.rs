//! A table with at most one entry for each key.

use vstd::prelude::*;
use crate::text::same;

verus! {

/// A key, which is what its view says.
pub trait Key: View {
    /// Whether two keys are the same.
    fn is_same(&self, other: &Self) -> (answer: bool)
        ensures
            answer == (self@ == other@),
    ;
}

impl Key for String {
    fn is_same(&self, other: &String) -> (answer: bool) {
        same(self.as_str(), other.as_str())
    }
}

/// A table of entries, each found by its key.
pub struct Registry<K: Key, C> {
    entries: Vec<(K, C)>,
}

/// The entries of a list, by key.
spec fn entries_map<K: Key, C>(entries: Seq<(K, C)>) -> Map<K::V, C>
    decreases entries.len(),
{
    if entries.len() == 0 {
        Map::empty()
    } else {
        entries_map(entries.drop_last()).insert(entries.last().0@, entries.last().1)
    }
}

/// Whether no two entries have the same key.
spec fn distinct_keys<K: Key, C>(entries: Seq<(K, C)>) -> bool {
    forall|i: int, j: int|
        0 <= i < j < entries.len() ==> (#[trigger] entries[i]).0@ != (#[trigger] entries[j]).0@
}

proof fn lemma_entries_map<K: Key, C>(entries: Seq<(K, C)>)
    requires
        distinct_keys(entries),
    ensures
        forall|k: K::V| #[trigger]
            entries_map(entries).contains_key(k) <==> exists|i: int|
                0 <= i < entries.len() && (#[trigger] entries[i]).0@ == k,
        forall|i: int|
            0 <= i < entries.len() ==> entries_map(entries)[(#[trigger] entries[i]).0@]
                == entries[i].1,
    decreases entries.len(),
{
    if entries.len() > 0 {
        let before = entries.drop_last();
        assert forall|i: int, j: int| 0 <= i < j < before.len() implies (#[trigger] before[i]).0@
            != (#[trigger] before[j]).0@ by {
            assert(before[i] == entries[i] && before[j] == entries[j]);
        }
        lemma_entries_map(before);
        let last = entries.last();
        assert forall|k: K::V| #[trigger]
            entries_map(entries).contains_key(k) <==> exists|i: int|
                0 <= i < entries.len() && (#[trigger] entries[i]).0@ == k by {
            if entries_map(entries).contains_key(k) {
                if k == last.0@ {
                    assert(entries[entries.len() - 1].0@ == k);
                } else {
                    assert(entries_map(before).contains_key(k));
                    let i = choose|i: int| 0 <= i < before.len() && (#[trigger] before[i]).0@ == k;
                    assert(entries[i].0@ == k);
                }
            }
            if exists|i: int| 0 <= i < entries.len() && (#[trigger] entries[i]).0@ == k {
                let i = choose|i: int| 0 <= i < entries.len() && (#[trigger] entries[i]).0@ == k;
                if i < entries.len() - 1 {
                    assert(before[i].0@ == k);
                    assert(entries_map(before).contains_key(k));
                }
            }
        }
        assert forall|i: int| 0 <= i < entries.len() implies entries_map(
            entries,
        )[(#[trigger] entries[i]).0@] == entries[i].1 by {
            if i < entries.len() - 1 {
                assert(before[i] == entries[i]);
                assert(entries[i].0@ != entries[entries.len() - 1].0@);
            }
        }
    }
}

impl<K: Key, C> View for Registry<K, C> {
    type V = Map<K::V, C>;

    closed spec fn view(&self) -> Map<K::V, C> {
        entries_map(self.entries@)
    }
}

impl<K: Key, C> Registry<K, C> {
    #[verifier::type_invariant]
    spec fn well_formed(self) -> bool {
        distinct_keys(self.entries@)
    }

    /// No entries.
    pub fn new() -> (registry: Registry<K, C>)
        ensures
            registry@ == Map::<K::V, C>::empty(),
    {
        Registry { entries: Vec::new() }
    }

    /// The place of the entry with this key.
    fn position(&self, key: &K) -> (place: Option<usize>)
        ensures
            match place {
                Some(i) => i < self.entries@.len() && self.entries@[i as int].0@ == key@
                    && self@.contains_key(key@),
                None => !self@.contains_key(key@),
            },
    {
        proof {
            use_type_invariant(self);
            lemma_entries_map(self.entries@);
        }
        let mut i: usize = 0;
        while i < self.entries.len()
            invariant
                i <= self.entries@.len(),
                forall|j: int| 0 <= j < i ==> (#[trigger] self.entries@[j]).0@ != key@,
            decreases self.entries@.len() - i,
        {
            if self.entries[i].0.is_same(key) {
                proof {
                    use_type_invariant(self);
                    lemma_entries_map(self.entries@);
                    assert(self.entries@[i as int].0@ == key@);
                }
                return Some(i);
            }
            i += 1;
        }
        None
    }

    /// Whether there is an entry with this key.
    pub fn contains(&self, key: &K) -> (answer: bool)
        ensures
            answer == self@.contains_key(key@),
    {
        self.position(key).is_some()
    }

    /// The entry with this key.
    pub fn get(&self, key: &K) -> (entry: Option<&C>)
        ensures
            match entry {
                Some(c) => self@.contains_key(key@) && *c == self@[key@],
                None => !self@.contains_key(key@),
            },
    {
        proof {
            use_type_invariant(self);
            lemma_entries_map(self.entries@);
        }
        match self.position(key) {
            Some(i) => Some(&self.entries[i].1),
            None => None,
        }
    }

    /// Drops all entries.
    pub fn clear(&mut self)
        ensures
            final(self)@ == Map::<K::V, C>::empty(),
    {
        self.entries = Vec::new();
    }

    /// Takes the entry with this key out, if there is one.
    pub fn take(&mut self, key: &K) -> (entry: Option<C>)
        ensures
            final(self)@ == old(self)@.remove(key@),
            match entry {
                Some(c) => old(self)@.contains_key(key@) && c == old(self)@[key@],
                None => !old(self)@.contains_key(key@),
            },
    {
        proof {
            use_type_invariant(&*self);
            lemma_entries_map(self.entries@);
        }
        let place = self.position(key);
        match place {
            None => {
                assert(self@.remove(key@) =~= self@);
                None
            },
            Some(i) => {
                let ghost before = self.entries@;
                let mut entries: Vec<(K, C)> = Vec::new();
                std::mem::swap(&mut entries, &mut self.entries);
                let removed = entries.remove(i);
                proof {
                    lemma_removed(before, i as int);
                }
                self.entries = entries;
                Some(removed.1)
            },
        }
    }

    /// Stores an entry, in place of one with the same key.
    pub fn put(&mut self, key: K, entry: C)
        ensures
            final(self)@ == old(self)@.insert(key@, entry),
    {
        let ghost start = self@;
        let dropped = self.take(&key);
        proof {
            use_type_invariant(&*self);
            lemma_entries_map(self.entries@);
        }
        let ghost before = self.entries@;
        let mut entries: Vec<(K, C)> = Vec::new();
        std::mem::swap(&mut entries, &mut self.entries);
        entries.push((key, entry));
        proof {
            assert(entries@.drop_last() =~= before);
            assert forall|i: int, j: int| 0 <= i < j < entries@.len() implies (
            #[trigger] entries@[i]).0@ != (#[trigger] entries@[j]).0@ by {
                if j == before.len() {
                    assert(before[i].0@ != key@) by {
                        if before[i].0@ == key@ {
                            assert(entries_map(before).contains_key(key@));
                        }
                    }
                } else {
                    assert(before[i].0@ != before[j].0@);
                }
            }
            assert(start.remove(key@).insert(key@, entry) =~= start.insert(key@, entry));
        }
        self.entries = entries;
    }
}

proof fn lemma_removed<K: Key, C>(entries: Seq<(K, C)>, at: int)
    requires
        distinct_keys(entries),
        0 <= at < entries.len(),
    ensures
        distinct_keys(entries.remove(at)),
        entries_map(entries.remove(at)) == entries_map(entries).remove(entries[at].0@),
{
    let rest = entries.remove(at);
    assert forall|i: int, j: int| 0 <= i < j < rest.len() implies (#[trigger] rest[i]).0@ != (
    #[trigger] rest[j]).0@ by {
        let i2 = if i < at { i } else { i + 1 };
        let j2 = if j < at { j } else { j + 1 };
        assert(rest[i] == entries[i2] && rest[j] == entries[j2]);
    }
    lemma_entries_map(entries);
    lemma_entries_map(rest);
    let left = entries_map(rest);
    let right = entries_map(entries).remove(entries[at].0@);
    assert forall|k: K::V| left.contains_key(k) <==> right.contains_key(k) by {
        if left.contains_key(k) {
            let i = choose|i: int| 0 <= i < rest.len() && (#[trigger] rest[i]).0@ == k;
            let i2 = if i < at { i } else { i + 1 };
            assert(entries[i2].0@ == k);
            assert(entries[at].0@ != k);
        }
        if right.contains_key(k) {
            let i = choose|i: int| 0 <= i < entries.len() && (#[trigger] entries[i]).0@ == k;
            let i2 = if i < at { i } else { i - 1 };
            assert(rest[i2].0@ == k);
        }
    }
    assert forall|k: K::V| left.contains_key(k) implies left[k] == right[k] by {
        let i = choose|i: int| 0 <= i < rest.len() && (#[trigger] rest[i]).0@ == k;
        let i2 = if i < at { i } else { i + 1 };
        assert(rest[i] == entries[i2]);
        assert(entries[i2].0@ == k);
    }
    assert(left =~= right);
}

} // verus!
