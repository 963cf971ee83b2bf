//! Ledger entries of one kind, found by a key.

use vstd::prelude::*;

use crate::address::Key;

verus! {

/// The entries as a map. An entry hides those of the same key behind it.
spec fn contents<K, V: View>(entries: Seq<(K, V)>) -> Map<K, V::V>
    decreases entries.len(),
{
    if entries.len() == 0 {
        Map::empty()
    } else {
        contents(entries.skip(1)).insert(entries[0].0, entries[0].1@)
    }
}

/// No entry has this key.
spec fn lacks<K, V>(entries: Seq<(K, V)>, key: K) -> bool {
    forall|j: int| 0 <= j < entries.len() ==> (#[trigger] entries[j]).0 != key
}

proof fn lemma_contents_lacks<K, V: View>(entries: Seq<(K, V)>, key: K)
    requires
        lacks(entries, key),
    ensures
        !contents(entries).contains_key(key),
    decreases entries.len(),
{
    if entries.len() > 0 {
        assert forall|j: int| 0 <= j < entries.skip(1).len() implies (
        #[trigger] entries.skip(1)[j]).0 != key by {
            assert(entries.skip(1)[j] == entries[j + 1]);
        }
        lemma_contents_lacks(entries.skip(1), key);
    }
}

/// The first entry under a key is the one that counts.
proof fn lemma_contents_first<K, V: View>(entries: Seq<(K, V)>, i: int)
    requires
        0 <= i < entries.len(),
        forall|j: int| 0 <= j < i ==> (#[trigger] entries[j]).0 != entries[i].0,
    ensures
        contents(entries).contains_key(entries[i].0),
        contents(entries)[entries[i].0] == entries[i].1@,
    decreases i,
{
    if i > 0 {
        let rest = entries.skip(1);
        assert(rest[i - 1] == entries[i]);
        assert forall|j: int| 0 <= j < i - 1 implies (#[trigger] rest[j]).0 != rest[i - 1].0 by {
            assert(rest[j] == entries[j + 1]);
        }
        lemma_contents_first(rest, i - 1);
        assert(entries[0].0 != entries[i].0);
    }
}

proof fn lemma_contents_update<K, V: View>(entries: Seq<(K, V)>, i: int, value: V)
    requires
        0 <= i < entries.len(),
        forall|j: int| 0 <= j < i ==> (#[trigger] entries[j]).0 != entries[i].0,
    ensures
        contents(entries.update(i, (entries[i].0, value))) == contents(entries).insert(
            entries[i].0,
            value@,
        ),
    decreases i,
{
    let key = entries[i].0;
    let new = entries.update(i, (key, value));
    let rest = entries.skip(1);
    if i == 0 {
        assert(new.skip(1) =~= rest);
        assert(contents(new) =~= contents(entries).insert(key, value@));
    } else {
        assert(rest[i - 1] == entries[i]);
        assert forall|j: int| 0 <= j < i - 1 implies (#[trigger] rest[j]).0 != rest[i - 1].0 by {
            assert(rest[j] == entries[j + 1]);
        }
        lemma_contents_update(rest, i - 1, value);
        assert(new.skip(1) =~= rest.update(i - 1, (key, value)));
        assert(entries[0].0 != entries[i].0);
        assert(contents(new) =~= contents(entries).insert(key, value@));
    }
}

proof fn lemma_contents_push<K, V: View>(entries: Seq<(K, V)>, key: K, value: V)
    requires
        lacks(entries, key),
    ensures
        contents(entries.push((key, value))) == contents(entries).insert(key, value@),
    decreases entries.len(),
{
    let new = entries.push((key, value));
    if entries.len() == 0 {
        assert(new.skip(1) =~= entries);
        assert(contents(new) =~= contents(entries).insert(key, value@));
    } else {
        let rest = entries.skip(1);
        assert forall|j: int| 0 <= j < rest.len() implies (#[trigger] rest[j]).0 != key by {
            assert(rest[j] == entries[j + 1]);
        }
        lemma_contents_push(rest, key, value);
        assert(new.skip(1) =~= rest.push((key, value)));
        assert(entries[0].0 != key);
        assert(contents(new) =~= contents(entries).insert(key, value@));
    }
}

/// Taking out one entry changes nothing under other keys.
proof fn lemma_contents_remove<K, V: View>(entries: Seq<(K, V)>, i: int)
    requires
        0 <= i < entries.len(),
    ensures
        contents(entries.remove(i)).remove(entries[i].0) == contents(entries).remove(entries[i].0),
    decreases i,
{
    let key = entries[i].0;
    let new = entries.remove(i);
    let rest = entries.skip(1);
    if i == 0 {
        assert(new =~= rest);
        assert(contents(new).remove(key) =~= contents(entries).remove(key));
    } else {
        assert(rest[i - 1] == entries[i]);
        lemma_contents_remove(rest, i - 1);
        assert(new.skip(1) =~= rest.remove(i - 1));
        assert(new[0] == entries[0]);
        assert forall|k: K|
            #[trigger] contents(new).remove(key).contains_key(k) == contents(entries).remove(
                key,
            ).contains_key(k) by {
            assert(contents(rest.remove(i - 1)).remove(key).contains_key(k) == contents(
                rest,
            ).remove(key).contains_key(k));
        }
        assert forall|k: K| contents(new).remove(key).contains_key(k) implies contents(
            new,
        ).remove(key)[k] == contents(entries).remove(key)[k] by {
            if k != entries[0].0 {
                assert(contents(rest.remove(i - 1)).remove(key)[k] == contents(rest).remove(
                    key,
                )[k]);
            }
        }
        assert(contents(new).remove(key) =~= contents(entries).remove(key));
    }
}

/// A map from keys to ledger entries.
pub struct Table<K, V> {
    entries: Vec<(K, V)>,
}

impl<K: Key, V: View> View for Table<K, V> {
    type V = Map<K, V::V>;

    closed spec fn view(&self) -> Map<K, V::V> {
        contents(self.entries@)
    }
}

impl<K: Key, V: View> Table<K, V> {
    /// A table without entries.
    pub fn new() -> (table: Self)
        ensures
            table@ == Map::<K, V::V>::empty(),
    {
        Table { entries: Vec::new() }
    }

    /// The place of the first entry under `key`, or the number of entries.
    fn find(&self, key: &K) -> (i: usize)
        ensures
            i <= self.entries.len(),
            forall|j: int| 0 <= j < i ==> (#[trigger] self.entries@[j]).0 != *key,
            i < self.entries.len() ==> self.entries@[i as int].0 == *key,
    {
        let mut i: usize = 0;
        while i < self.entries.len()
            invariant
                i <= self.entries.len(),
                forall|j: int| 0 <= j < i ==> (#[trigger] self.entries@[j]).0 != *key,
            decreases self.entries.len() - i,
        {
            if self.entries[i].0.same(key) {
                return i;
            }
            i = i + 1;
        }
        i
    }

    pub fn has(&self, key: &K) -> (r: bool)
        ensures
            r == self@.contains_key(*key),
    {
        self.get(key).is_some()
    }

    /// The entry under `key`.
    pub fn get(&self, key: &K) -> (r: Option<&V>)
        ensures
            match r {
                Some(value) => self@.contains_key(*key) && value@ == self@[*key],
                None => !self@.contains_key(*key),
            },
    {
        let i: usize = self.find(key);
        if i < self.entries.len() {
            proof {
                lemma_contents_first(self.entries@, i as int);
            }
            Some(&self.entries[i].1)
        } else {
            proof {
                lemma_contents_lacks(self.entries@, *key);
            }
            None
        }
    }

    /// Writes the entry under `key`.
    pub fn set(&mut self, key: K, value: V)
        ensures
            final(self)@ == old(self)@.insert(key, value@),
    {
        let i: usize = self.find(&key);
        if i < self.entries.len() {
            proof {
                lemma_contents_update(self.entries@, i as int, value);
            }
            self.entries[i] = (key, value);
        } else {
            proof {
                lemma_contents_push(self.entries@, key, value);
            }
            self.entries.push((key, value));
        }
    }

    /// Removes the entry under `key`.
    pub fn remove(&mut self, key: &K)
        ensures
            final(self)@ == old(self)@.remove(*key),
    {
        let mut i: usize = 0;
        while i < self.entries.len()
            invariant
                i <= self.entries.len(),
                forall|j: int| 0 <= j < i ==> (#[trigger] self.entries@[j]).0 != *key,
                contents(self.entries@).remove(*key) == contents(old(self).entries@).remove(*key),
            decreases self.entries.len() - i,
        {
            if self.entries[i].0.same(key) {
                proof {
                    lemma_contents_remove(self.entries@, i as int);
                }
                self.entries.remove(i);
            } else {
                i = i + 1;
            }
        }
        proof {
            lemma_contents_lacks(self.entries@, *key);
            assert(contents(self.entries@).remove(*key) =~= contents(self.entries@));
        }
    }
}

} // verus!
