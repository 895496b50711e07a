//! A small map from strings to values, kept as a list without repeated keys.

use vstd::prelude::*;

verus! {

/// One key with its value.
#[derive(Debug, PartialEq, Eq)]
pub struct Entry<V> {
    pub key: String,
    pub value: V,
}

/// Whether some entry of `s` has the key `k`.
pub open spec fn has_key<V>(s: Seq<Entry<V>>, k: Seq<char>) -> bool {
    exists|i: int| 0 <= i < s.len() && #[trigger] s[i].key@ == k
}

/// The position of an entry of `s` with the key `k`, where there is one.
pub open spec fn index_of<V>(s: Seq<Entry<V>>, k: Seq<char>) -> int {
    choose|i: int| 0 <= i < s.len() && #[trigger] s[i].key@ == k
}

/// No two entries of `s` share a key.
pub open spec fn distinct_keys<V>(s: Seq<Entry<V>>) -> bool {
    forall|i: int, j: int|
        0 <= i < j < s.len() ==> #[trigger] s[i].key@ != #[trigger] s[j].key@
}

/// The map that a list of entries stands for.
pub open spec fn as_map<V>(s: Seq<Entry<V>>) -> Map<Seq<char>, V> {
    Map::new(|k: Seq<char>| has_key(s, k), |k: Seq<char>| s[index_of(s, k)].value)
}

/// In a list without repeated keys, the entry at `i` is the one its key maps to.
pub proof fn lemma_entry_in_map<V>(s: Seq<Entry<V>>, i: int)
    requires
        distinct_keys(s),
        0 <= i < s.len(),
    ensures
        has_key(s, s[i].key@),
        index_of(s, s[i].key@) == i,
        as_map(s).contains_key(s[i].key@),
        as_map(s)[s[i].key@] == s[i].value,
{
    let k = s[i].key@;
    assert(s[i].key@ == k);
    let j = index_of(s, k);
    assert(0 <= j < s.len() && s[j].key@ == k);
    if j != i {
        if j < i {
            assert(s[j].key@ != s[i].key@);
        } else {
            assert(s[i].key@ != s[j].key@);
        }
    }
}

/// Appending an entry under a new key adds that binding to the map.
pub proof fn lemma_push_new_key<V>(s: Seq<Entry<V>>, e: Entry<V>)
    requires
        distinct_keys(s),
        !has_key(s, e.key@),
    ensures
        distinct_keys(s.push(e)),
        as_map(s.push(e)) == as_map(s).insert(e.key@, e.value),
{
    let t = s.push(e);
    assert forall|i: int, j: int| 0 <= i < j < t.len() implies #[trigger] t[i].key@
        != #[trigger] t[j].key@ by {
        if j == s.len() {
            assert(s[i].key@ == t[i].key@);
        } else {
            assert(s[i].key@ != s[j].key@);
        }
    }
    assert forall|k: Seq<char>| has_key(t, k) <==> (has_key(s, k) || k == e.key@) by {
        if has_key(t, k) {
            let i = index_of(t, k);
            if i < s.len() {
                assert(s[i].key@ == k);
            }
        }
        if has_key(s, k) {
            let i = index_of(s, k);
            assert(t[i].key@ == k);
        }
        if k == e.key@ {
            assert(t[s.len() as int].key@ == k);
        }
    }
    assert forall|k: Seq<char>| has_key(t, k) implies #[trigger] as_map(t)[k] == as_map(s).insert(
        e.key@,
        e.value,
    )[k] by {
        let i = index_of(t, k);
        lemma_entry_in_map(t, i);
        if i < s.len() {
            assert(s[i].key@ == k);
            lemma_entry_in_map(s, i);
        }
    }
    assert(as_map(t) =~= as_map(s).insert(e.key@, e.value));
}

/// Replacing the value at `i` rebinds that entry's key and nothing else.
pub proof fn lemma_update_value<V>(s: Seq<Entry<V>>, i: int, e: Entry<V>)
    requires
        distinct_keys(s),
        0 <= i < s.len(),
        e.key@ == s[i].key@,
    ensures
        distinct_keys(s.update(i, e)),
        as_map(s.update(i, e)) == as_map(s).insert(e.key@, e.value),
{
    let t = s.update(i, e);
    assert forall|a: int, b: int| 0 <= a < b < t.len() implies #[trigger] t[a].key@
        != #[trigger] t[b].key@ by {
        assert(s[a].key@ != s[b].key@);
    }
    assert forall|k: Seq<char>| has_key(t, k) <==> has_key(s, k) by {
        if has_key(t, k) {
            let j = index_of(t, k);
            assert(s[j].key@ == k);
        }
        if has_key(s, k) {
            let j = index_of(s, k);
            assert(t[j].key@ == k);
        }
    }
    lemma_entry_in_map(s, i);
    assert forall|k: Seq<char>| has_key(t, k) implies #[trigger] as_map(t)[k] == as_map(s).insert(
        e.key@,
        e.value,
    )[k] by {
        let j = index_of(t, k);
        lemma_entry_in_map(t, j);
        if j != i {
            assert(s[j].key@ == k);
            lemma_entry_in_map(s, j);
        }
    }
    assert(as_map(t) =~= as_map(s).insert(e.key@, e.value));
}

/// Taking the entry at `i` out unbinds that entry's key and nothing else.
pub proof fn lemma_remove_entry<V>(s: Seq<Entry<V>>, i: int)
    requires
        distinct_keys(s),
        0 <= i < s.len(),
    ensures
        distinct_keys(s.remove(i)),
        as_map(s.remove(i)) == as_map(s).remove(s[i].key@),
{
    let t = s.remove(i);
    let gone = s[i].key@;
    assert forall|a: int, b: int| 0 <= a < b < t.len() implies #[trigger] t[a].key@
        != #[trigger] t[b].key@ by {
        let a0 = if a < i { a } else { a + 1 };
        let b0 = if b < i { b } else { b + 1 };
        assert(t[a] == s[a0]);
        assert(t[b] == s[b0]);
        assert(s[a0].key@ != s[b0].key@);
    }
    assert forall|k: Seq<char>| has_key(t, k) <==> (has_key(s, k) && k != gone) by {
        if has_key(t, k) {
            let j = index_of(t, k);
            let j0 = if j < i { j } else { j + 1 };
            assert(t[j] == s[j0]);
            assert(s[j0].key@ == k);
            lemma_entry_in_map(s, j0);
            lemma_entry_in_map(s, i);
        }
        if has_key(s, k) && k != gone {
            let j = index_of(s, k);
            let j1 = if j < i { j } else { j - 1 };
            assert(t[j1] == s[j]);
            assert(t[j1].key@ == k);
        }
    }
    assert forall|k: Seq<char>| has_key(t, k) implies #[trigger] as_map(t)[k] == as_map(s).remove(
        gone,
    )[k] by {
        let j = index_of(t, k);
        lemma_entry_in_map(t, j);
        let j0 = if j < i { j } else { j + 1 };
        assert(t[j] == s[j0]);
        lemma_entry_in_map(s, j0);
    }
    assert(as_map(t) =~= as_map(s).remove(gone));
}

/// A map from strings to values. A key is bound at most once; binding it again
/// replaces the value.
pub struct Table<V> {
    entries: Vec<Entry<V>>,
}

impl<V> Table<V> {
    /// The entries as they are stored.
    pub closed spec fn entries(&self) -> Seq<Entry<V>> {
        self.entries@
    }

    /// No key is stored twice.
    pub open spec fn wf(&self) -> bool {
        distinct_keys(self.entries())
    }

    /// The bindings held.
    pub open spec fn view(&self) -> Map<Seq<char>, V> {
        as_map(self.entries())
    }

    /// A table without bindings.
    pub fn new() -> (t: Table<V>)
        ensures
            t.wf(),
            t.entries().len() == 0,
            t@ == Map::<Seq<char>, V>::empty(),
    {
        let t = Table { entries: Vec::new() };
        assert(t@ =~= Map::<Seq<char>, V>::empty());
        t
    }

    /// The number of bindings.
    pub fn len(&self) -> (n: usize)
        ensures
            n == self.entries().len(),
    {
        self.entries.len()
    }

    /// The position at which `key` is stored, if it is bound.
    pub fn find(&self, key: &String) -> (r: Option<usize>)
        requires
            self.wf(),
        ensures
            match r {
                Some(i) => i < self.entries().len() && self.entries()[i as int].key@ == key@
                    && self@.contains_key(key@) && self@[key@] == self.entries()[i as int].value,
                None => !self@.contains_key(key@),
            },
    {
        let mut i: usize = 0;
        while i < self.entries.len()
            invariant
                i <= self.entries.len(),
                self.wf(),
                forall|j: int| 0 <= j < i ==> (#[trigger] self.entries@[j]).key@ != key@,
            decreases self.entries.len() - i,
        {
            if self.entries[i].key == *key {
                proof {
                    lemma_entry_in_map(self.entries@, i as int);
                }
                return Some(i);
            }
            i = i + 1;
        }
        None
    }

    /// The entry stored at position `i`.
    pub fn entry(&self, i: usize) -> (e: &Entry<V>)
        requires
            i < self.entries().len(),
        ensures
            *e == self.entries()[i as int],
    {
        &self.entries[i]
    }

    /// The value bound to `key`, if any.
    pub fn get(&self, key: &String) -> (r: Option<&V>)
        requires
            self.wf(),
        ensures
            match r {
                Some(v) => self@.contains_key(key@) && *v == self@[key@],
                None => !self@.contains_key(key@),
            },
    {
        match self.find(key) {
            Some(i) => Some(&self.entries[i].value),
            None => None,
        }
    }

    /// Binds `key` to `value`, replacing an earlier binding of `key`.
    pub fn insert(&mut self, key: String, value: V)
        requires
            old(self).wf(),
        ensures
            final(self).wf(),
            final(self)@ == old(self)@.insert(key@, value),
    {
        match self.find(&key) {
            Some(i) => {
                proof {
                    lemma_update_value(self.entries@, i as int, Entry { key, value });
                }
                self.entries.set(i, Entry { key, value });
            },
            None => {
                proof {
                    lemma_push_new_key(self.entries@, Entry { key, value });
                }
                self.entries.push(Entry { key, value });
            },
        }
    }

    /// Unbinds `key` and hands back the value it was bound to, if any.
    pub fn remove(&mut self, key: &String) -> (r: Option<V>)
        requires
            old(self).wf(),
        ensures
            final(self).wf(),
            final(self)@ == old(self)@.remove(key@),
            match r {
                Some(v) => old(self)@.contains_key(key@) && v == old(self)@[key@],
                None => !old(self)@.contains_key(key@),
            },
    {
        match self.find(key) {
            Some(i) => {
                proof {
                    lemma_remove_entry(self.entries@, i as int);
                }
                let e = self.entries.remove(i);
                Some(e.value)
            },
            None => {
                assert(self@.remove(key@) =~= self@);
                None
            },
        }
    }

    /// The value stored at position `i`, for changing it in place.
    pub fn value_mut(&mut self, i: usize) -> (v: &mut V)
        requires
            old(self).wf(),
            i < old(self).entries().len(),
        ensures
            *v == old(self).entries()[i as int].value,
            final(self).entries() == old(self).entries().update(
                i as int,
                Entry { key: old(self).entries()[i as int].key, value: *final(v) },
            ),
            final(self).wf(),
            final(self)@ == old(self)@.insert(old(self).entries()[i as int].key@, *final(v)),
    {
        proof {
            let s = self.entries@;
            let key = s[i as int].key;
            assert forall|value: V|
                distinct_keys(#[trigger] s.update(i as int, Entry { key, value })) && as_map(
                    s.update(i as int, Entry { key, value }),
                ) == as_map(s).insert(key@, value) by {
                lemma_update_value(s, i as int, Entry { key, value });
            }
        }
        &mut self.entries[i].value
    }

    /// Gives the entries up, in the order in which they are stored.
    pub fn into_entries(self) -> (v: Vec<Entry<V>>)
        requires
            self.wf(),
        ensures
            v@ == self.entries(),
            distinct_keys(v@),
            as_map(v@) == self@,
    {
        self.entries
    }
}

} // verus!
