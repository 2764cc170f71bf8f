use vstd::prelude::*;

verus! {

/// A string-keyed association list holding each key at most once.  It is
/// the single storage primitive behind every pallet: balances, nonces and
/// claims each live in one of these, abstracted as a `Map` from key
/// characters to the stored value.
pub struct StorageMap<V> {
    entries: Vec<(String, V)>,
}

/// The key of the entry at index `i`, as a character sequence.
spec fn key_at<V>(entries: Seq<(String, V)>, i: int) -> Seq<char> {
    entries[i].0@
}

/// The mathematical contents of an entry list, read left to right.
spec fn map_of<V>(entries: Seq<(String, V)>) -> Map<Seq<char>, V>
    decreases entries.len(),
{
    if entries.len() == 0 {
        Map::empty()
    } else {
        map_of(entries.drop_last()).insert(entries.last().0@, entries.last().1)
    }
}

/// No two entries share a key.
spec fn distinct_keys<V>(entries: Seq<(String, V)>) -> bool {
    forall|i: int, j: int|
        0 <= i < j < entries.len() ==> key_at(entries, i) != key_at(entries, j)
}

impl<V> View for StorageMap<V> {
    type V = Map<Seq<char>, V>;

    closed spec fn view(&self) -> Map<Seq<char>, V> {
        map_of(self.entries@)
    }
}

proof fn lemma_contains<V>(entries: Seq<(String, V)>, k: Seq<char>)
    ensures
        map_of(entries).contains_key(k) <==> (exists|i: int|
            0 <= i < entries.len() && #[trigger] key_at(entries, i) == k),
    decreases entries.len(),
{
    if entries.len() > 0 {
        let prefix = entries.drop_last();
        let last_i = entries.len() - 1;
        lemma_contains(prefix, k);
        if key_at(entries, last_i) == k {
            assert(map_of(entries).contains_key(k));
        } else if map_of(prefix).contains_key(k) {
            let i = choose|i: int| 0 <= i < prefix.len() && #[trigger] key_at(prefix, i) == k;
            assert(key_at(entries, i) == k);
        } else {
            assert forall|i: int| 0 <= i < entries.len() implies #[trigger] key_at(
                entries,
                i,
            ) != k by {
                if i < last_i {
                    assert(key_at(prefix, i) == key_at(entries, i));
                }
            }
        }
    }
}

proof fn lemma_distinct_prefix<V>(entries: Seq<(String, V)>)
    requires
        distinct_keys(entries),
        entries.len() > 0,
    ensures
        distinct_keys(entries.drop_last()),
{
    let prefix = entries.drop_last();
    assert forall|i: int, j: int| 0 <= i < j < prefix.len() implies key_at(prefix, i)
        != key_at(prefix, j) by {
        assert(key_at(prefix, i) == key_at(entries, i));
        assert(key_at(prefix, j) == key_at(entries, j));
    }
}

proof fn lemma_index<V>(entries: Seq<(String, V)>, i: int)
    requires
        distinct_keys(entries),
        0 <= i < entries.len(),
    ensures
        map_of(entries).contains_key(key_at(entries, i)),
        map_of(entries)[key_at(entries, i)] == entries[i].1,
    decreases entries.len(),
{
    let last_i = entries.len() - 1;
    if i < last_i {
        let prefix = entries.drop_last();
        lemma_distinct_prefix(entries);
        assert(key_at(prefix, i) == key_at(entries, i));
        lemma_index(prefix, i);
        assert(key_at(entries, i) != key_at(entries, last_i));
    }
}

proof fn lemma_remove<V>(entries: Seq<(String, V)>, i: int)
    requires
        distinct_keys(entries),
        0 <= i < entries.len(),
    ensures
        map_of(entries.remove(i)) == map_of(entries).remove(key_at(entries, i)),
        distinct_keys(entries.remove(i)),
    decreases entries.len(),
{
    let k = key_at(entries, i);
    let rem = entries.remove(i);
    let last_i = entries.len() - 1;
    let prefix = entries.drop_last();
    entries.remove_ensures(i);
    assert forall|a: int, b: int| 0 <= a < b < rem.len() implies key_at(rem, a) != key_at(
        rem,
        b,
    ) by {
        let a0: int = if a < i { a } else { a + 1 };
        let b0: int = if b < i { b } else { b + 1 };
        assert(key_at(rem, a) == key_at(entries, a0));
        assert(key_at(rem, b) == key_at(entries, b0));
    }
    if i == last_i {
        assert(rem =~= prefix);
        lemma_contains(prefix, k);
        assert forall|j: int| 0 <= j < prefix.len() implies #[trigger] key_at(prefix, j)
            != k by {
            assert(key_at(prefix, j) == key_at(entries, j));
        }
        assert(!map_of(prefix).contains_key(k));
        assert(map_of(entries).remove(k) =~= map_of(prefix));
    } else {
        lemma_distinct_prefix(entries);
        lemma_remove(prefix, i);
        assert(key_at(prefix, i) == k);
        assert(rem.drop_last() =~= prefix.remove(i));
        assert(rem.last() == entries.last());
        let lk = entries.last().0@;
        let lv = entries.last().1;
        assert(map_of(rem) == map_of(prefix).remove(k).insert(lk, lv));
        assert(key_at(entries, last_i) != k);
        assert(lk != k);
        assert(map_of(prefix).insert(lk, lv).remove(k) =~= map_of(prefix).remove(k).insert(
            lk,
            lv,
        ));
    }
}

impl<V> StorageMap<V> {
    /// Each key occurs in at most one entry, so lookups are unambiguous.
    pub closed spec fn wf(&self) -> bool {
        distinct_keys(self.entries@)
    }

    /// An empty store.
    pub fn new() -> (r: Self)
        ensures
            r.wf(),
            r@ == Map::<Seq<char>, V>::empty(),
    {
        StorageMap { entries: Vec::new() }
    }

    /// The index of the entry holding `key`, if any.
    fn find(&self, key: &String) -> (r: Option<usize>)
        ensures
            match r {
                Some(i) => i < self.entries@.len() && key_at(self.entries@, i as int) == key@,
                None => forall|j: int|
                    0 <= j < self.entries@.len() ==> #[trigger] key_at(self.entries@, j) != key@,
            },
    {
        let n = self.entries.len();
        let mut i: usize = 0;
        while i < n
            invariant
                i <= n,
                n == self.entries@.len(),
                forall|j: int| 0 <= j < i ==> #[trigger] key_at(self.entries@, j) != key@,
            decreases n - i,
        {
            if self.entries[i].0 == *key {
                return Some(i);
            }
            i = i + 1;
        }
        None
    }

    /// The value stored under `key`, if any.
    pub fn get(&self, key: &String) -> (r: Option<&V>)
        requires
            self.wf(),
        ensures
            match r {
                Some(v) => self@.contains_key(key@) && *v == self@[key@],
                None => !self@.contains_key(key@),
            },
    {
        proof {
            lemma_contains(self.entries@, key@);
        }
        match self.find(key) {
            Some(i) => {
                proof {
                    lemma_index(self.entries@, i as int);
                }
                Some(&self.entries[i].1)
            },
            None => None,
        }
    }

    /// Stores `value` under `key`, replacing any previous value.
    pub fn insert(&mut self, key: String, value: V)
        requires
            old(self).wf(),
        ensures
            final(self).wf(),
            final(self)@ == old(self)@.insert(key@, value),
    {
        match self.find(&key) {
            Some(i) => {
                proof {
                    lemma_remove(self.entries@, i as int);
                }
                let ghost before = self.entries@;
                self.entries.remove(i);
                proof {
                    lemma_contains(self.entries@, key@);
                    assert forall|j: int|
                        0 <= j < self.entries@.len() implies #[trigger] key_at(self.entries@, j)
                        != key@ by {
                        before.remove_ensures(i as int);
                        let j0: int = if j < i { j } else { j + 1 };
                        assert(key_at(self.entries@, j) == key_at(before, j0));
                    }
                    assert(!map_of(self.entries@).contains_key(key@));
                }
                self.push_fresh(key, value);
                assert(self@ =~= old(self)@.insert(key@, value));
            },
            None => {
                proof {
                    lemma_contains(self.entries@, key@);
                }
                self.push_fresh(key, value);
            },
        }
    }

    /// Appends an entry whose key is held by no existing entry.
    fn push_fresh(&mut self, key: String, value: V)
        requires
            old(self).wf(),
            forall|j: int|
                0 <= j < old(self).entries@.len() ==> #[trigger] key_at(old(self).entries@, j)
                    != key@,
        ensures
            final(self).wf(),
            final(self)@ == old(self)@.insert(key@, value),
    {
        let ghost before = self.entries@;
        self.entries.push((key, value));
        proof {
            assert(self.entries@.drop_last() =~= before);
            assert forall|a: int, b: int|
                0 <= a < b < self.entries@.len() implies key_at(self.entries@, a) != key_at(
                self.entries@,
                b,
            ) by {
                assert(key_at(self.entries@, a) == key_at(before, a));
                if b < self.entries@.len() - 1 {
                    assert(key_at(self.entries@, b) == key_at(before, b));
                }
            }
        }
    }

    /// Removes the entry under `key`, if any.
    pub fn remove(&mut self, key: &String)
        requires
            old(self).wf(),
        ensures
            final(self).wf(),
            final(self)@ == old(self)@.remove(key@),
    {
        proof {
            lemma_contains(self.entries@, key@);
        }
        match self.find(key) {
            Some(i) => {
                proof {
                    lemma_remove(self.entries@, i as int);
                }
                self.entries.remove(i);
            },
            None => {
                assert(self@ =~= self@.remove(key@));
            },
        }
    }
}

} // verus!
