//! A map from names to values that remembers the order in which names came.

use vstd::prelude::*;

verus! {

/// Whether some entry of `entries` has the key `key`.
pub open spec fn has_key<V>(entries: Seq<(Seq<char>, V)>, key: Seq<char>) -> bool {
    exists|i: int| 0 <= i < entries.len() && (#[trigger] entries[i]).0 == key
}

/// Whether `i` is the place of the first entry with the key `key`.
pub open spec fn is_first<V>(entries: Seq<(Seq<char>, V)>, key: Seq<char>, i: int) -> bool {
    &&& 0 <= i < entries.len()
    &&& entries[i].0 == key
    &&& forall|j: int| 0 <= j < i ==> (#[trigger] entries[j]).0 != key
}

/// The place of the first entry with the key `key`.
pub open spec fn first_index<V>(entries: Seq<(Seq<char>, V)>, key: Seq<char>) -> int {
    choose|i: int| is_first(entries, key, i)
}

/// The map that a list of entries stands for: each key goes to the value of
/// its first entry.
pub open spec fn as_map<V>(entries: Seq<(Seq<char>, V)>) -> Map<Seq<char>, V> {
    Map::new(|k: Seq<char>| has_key(entries, k), |k: Seq<char>| entries[first_index(entries, k)].1)
}

/// Whether no two entries share a key.
pub open spec fn distinct_keys<V>(entries: Seq<(Seq<char>, V)>) -> bool {
    forall|i: int, j: int|
        0 <= i < j < entries.len() ==> (#[trigger] entries[i]).0 != (#[trigger] entries[j]).0
}

/// A key that occurs has a first occurrence.
pub proof fn lemma_first_exists<V>(entries: Seq<(Seq<char>, V)>, key: Seq<char>)
    requires
        has_key(entries, key),
    ensures
        is_first(entries, key, first_index(entries, key)),
    decreases entries.len(),
{
    let i = choose|i: int| 0 <= i < entries.len() && (#[trigger] entries[i]).0 == key;
    lemma_first_below(entries, key, i);
}

proof fn lemma_first_below<V>(entries: Seq<(Seq<char>, V)>, key: Seq<char>, i: int)
    requires
        0 <= i < entries.len(),
        entries[i].0 == key,
    ensures
        exists|k: int| is_first(entries, key, k),
    decreases i,
{
    if exists|j: int| 0 <= j < i && (#[trigger] entries[j]).0 == key {
        let j = choose|j: int| 0 <= j < i && (#[trigger] entries[j]).0 == key;
        lemma_first_below(entries, key, j);
    } else {
        assert(is_first(entries, key, i));
    }
}

/// The first occurrence of a key is the only place that `is_first` holds of.
pub proof fn lemma_first_unique<V>(entries: Seq<(Seq<char>, V)>, key: Seq<char>, i: int)
    requires
        is_first(entries, key, i),
    ensures
        first_index(entries, key) == i,
        has_key(entries, key),
        as_map(entries).contains_key(key),
        as_map(entries)[key] == entries[i].1,
{
    let f = first_index(entries, key);
    assert(is_first(entries, key, f));
    if f < i {
        assert(entries[f].0 != key);
    }
    if i < f {
        assert(entries[i].0 != key);
    }
}

/// Replacing the value of the first entry of a key is an insertion into the
/// map.
pub proof fn lemma_update_is_insert<V>(entries: Seq<(Seq<char>, V)>, key: Seq<char>, i: int, v: V)
    requires
        is_first(entries, key, i),
    ensures
        as_map(entries.update(i, (key, v))) == as_map(entries).insert(key, v),
        distinct_keys(entries) ==> distinct_keys(entries.update(i, (key, v))),
{
    let after = entries.update(i, (key, v));
    assert(is_first(after, key, i));
    lemma_first_unique(after, key, i);
    assert forall|k: Seq<char>| has_key(after, k) == (k == key || has_key(entries, k)) by {
        if has_key(after, k) {
            let j = choose|j: int| 0 <= j < after.len() && (#[trigger] after[j]).0 == k;
            assert(entries[j].0 == k);
        }
        if has_key(entries, k) {
            let j = choose|j: int| 0 <= j < entries.len() && (#[trigger] entries[j]).0 == k;
            assert(after[j].0 == k);
        }
    }
    assert forall|k: Seq<char>| k != key && has_key(entries, k) implies as_map(after)[k] == as_map(
        entries,
    )[k] by {
        lemma_first_exists(entries, k);
        let f = first_index(entries, k);
        assert(is_first(after, k, f)) by {
            assert forall|j: int| 0 <= j < f implies (#[trigger] after[j]).0 != k by {
                assert(entries[j].0 != k);
            }
        }
        lemma_first_unique(after, k, f);
    }
    assert(as_map(after) =~= as_map(entries).insert(key, v));
    if distinct_keys(entries) {
        assert forall|a: int, b: int| 0 <= a < b < after.len() implies (#[trigger] after[a]).0 != (
        #[trigger] after[b]).0 by {
            assert(entries[a].0 != entries[b].0);
        }
    }
}

/// Appending an entry whose key is new is an insertion into the map.
pub proof fn lemma_push_is_insert<V>(entries: Seq<(Seq<char>, V)>, key: Seq<char>, v: V)
    requires
        !has_key(entries, key),
    ensures
        as_map(entries.push((key, v))) == as_map(entries).insert(key, v),
        distinct_keys(entries) ==> distinct_keys(entries.push((key, v))),
{
    let after = entries.push((key, v));
    let n = entries.len() as int;
    assert(is_first(after, key, n)) by {
        assert forall|j: int| 0 <= j < n implies (#[trigger] after[j]).0 != key by {
            assert(entries[j].0 != key);
        }
    }
    lemma_first_unique(after, key, n);
    assert forall|k: Seq<char>| has_key(after, k) == (k == key || has_key(entries, k)) by {
        if has_key(after, k) && k != key {
            let j = choose|j: int| 0 <= j < after.len() && (#[trigger] after[j]).0 == k;
            assert(entries[j].0 == k);
        }
        if has_key(entries, k) {
            let j = choose|j: int| 0 <= j < entries.len() && (#[trigger] entries[j]).0 == k;
            assert(after[j].0 == k);
        }
    }
    assert forall|k: Seq<char>| k != key && has_key(entries, k) implies as_map(after)[k] == as_map(
        entries,
    )[k] by {
        lemma_first_exists(entries, k);
        let f = first_index(entries, k);
        assert(is_first(after, k, f)) by {
            assert forall|j: int| 0 <= j < f implies (#[trigger] after[j]).0 != k by {
                assert(entries[j].0 != k);
            }
        }
        lemma_first_unique(after, k, f);
    }
    assert(as_map(after) =~= as_map(entries).insert(key, v));
    if distinct_keys(entries) {
        assert forall|a: int, b: int| 0 <= a < b < after.len() implies (#[trigger] after[a]).0 != (
        #[trigger] after[b]).0 by {
            if b < n {
                assert(entries[a].0 != entries[b].0);
            } else {
                assert(entries[a].0 != key);
            }
        }
    }
}

/// The entries with each value replaced by what `f` makes of it.
pub open spec fn with_values<V, W>(entries: Seq<(Seq<char>, V)>, f: spec_fn(V) -> W) -> Seq<
    (Seq<char>, W),
> {
    entries.map_values(|e: (Seq<char>, V)| (e.0, f(e.1)))
}

/// Replacing the values leaves every name at its place.
pub proof fn lemma_with_values<V, W>(entries: Seq<(Seq<char>, V)>, f: spec_fn(V) -> W, key:
    Seq<char>)
    ensures
        has_key(with_values(entries, f), key) == has_key(entries, key),
        forall|i: int| is_first(with_values(entries, f), key, i) == is_first(entries, key, i),
{
    let after = with_values(entries, f);
    if has_key(after, key) {
        let i = choose|i: int| 0 <= i < after.len() && (#[trigger] after[i]).0 == key;
        assert(entries[i].0 == key);
    }
    if has_key(entries, key) {
        let i = choose|i: int| 0 <= i < entries.len() && (#[trigger] entries[i]).0 == key;
        assert(after[i].0 == key);
    }
    assert forall|i: int| is_first(after, key, i) == is_first(entries, key, i) by {
        if is_first(after, key, i) {
            assert forall|j: int| 0 <= j < i implies (#[trigger] entries[j]).0 != key by {
                assert(after[j].0 != key);
            }
        }
        if is_first(entries, key, i) {
            assert forall|j: int| 0 <= j < i implies (#[trigger] after[j]).0 != key by {
                assert(entries[j].0 != key);
            }
        }
    }
}

/// The stored entries with each name as its sequence of characters.
pub closed spec fn model_of<V>(stored: Seq<(String, V)>) -> Seq<(Seq<char>, V)> {
    stored.map_values(|e: (String, V)| (e.0@, e.1))
}

/// Changing the value of one stored entry changes that entry of the model
/// and no other.
proof fn lemma_model_update<V>(stored: Seq<(String, V)>, i: int)
    requires
        0 <= i < stored.len(),
    ensures
        forall|v: V| #[trigger]
            model_of(stored.update(i, (stored[i].0, v))) == model_of(stored).update(
                i,
                (stored[i].0@, v),
            ),
{
    assert forall|v: V| #[trigger]
        model_of(stored.update(i, (stored[i].0, v))) == model_of(stored).update(
            i,
            (stored[i].0@, v),
        ) by {
        assert(model_of(stored.update(i, (stored[i].0, v))) =~= model_of(stored).update(
            i,
            (stored[i].0@, v),
        ));
    }
}

/// A map from names to values. Entries stay in the order in which their
/// names were first inserted.
#[derive(Clone, Debug)]
pub struct NameMap<V> {
    entries: Vec<(String, V)>,
}

impl<V> View for NameMap<V> {
    type V = Map<Seq<char>, V>;

    open spec fn view(&self) -> Map<Seq<char>, V> {
        as_map(self.entries())
    }
}

impl<V> NameMap<V> {
    /// The entries in order, each name as its sequence of characters.
    pub closed spec fn entries(&self) -> Seq<(Seq<char>, V)> {
        model_of(self.entries@)
    }

    /// Whether no name occurs twice among the entries.
    pub open spec fn distinct(&self) -> bool {
        distinct_keys(self.entries())
    }

    /// An empty map.
    pub fn new() -> (m: Self)
        ensures
            m.entries() == Seq::<(Seq<char>, V)>::empty(),
            m@ == Map::<Seq<char>, V>::empty(),
            m.distinct(),
    {
        let m = NameMap { entries: Vec::new() };
        assert(m.entries() =~= Seq::<(Seq<char>, V)>::empty());
        assert(m@ =~= Map::<Seq<char>, V>::empty());
        m
    }

    /// The number of entries.
    pub fn len(&self) -> (n: usize)
        ensures
            n == self.entries().len(),
    {
        self.entries.len()
    }

    /// Whether there is no entry.
    pub fn is_empty(&self) -> (b: bool)
        ensures
            b == (self.entries().len() == 0),
    {
        self.entries.len() == 0
    }

    /// The place of the first entry named `key`, if there is one.
    pub fn position(&self, key: &str) -> (r: Option<usize>)
        ensures
            match r {
                Some(i) => is_first(self.entries(), key@, i as int),
                None => !has_key(self.entries(), key@),
            },
    {
        let wanted = key.to_owned();
        let mut i: usize = 0;
        while i < self.entries.len()
            invariant
                i <= self.entries@.len(),
                wanted@ == key@,
                forall|j: int| 0 <= j < i ==> (#[trigger] self.entries()[j]).0 != key@,
            decreases self.entries@.len() - i,
        {
            if self.entries[i].0 == wanted {
                return Some(i);
            }
            i += 1;
        }
        None
    }

    /// Whether the map has an entry named `key`.
    pub fn contains_key(&self, key: &str) -> (b: bool)
        ensures
            b == self@.contains_key(key@),
    {
        self.position(key).is_some()
    }

    /// The value named `key`, if there is one.
    pub fn get(&self, key: &str) -> (r: Option<&V>)
        ensures
            r == (if self@.contains_key(key@) {
                Some(&self@[key@])
            } else {
                None
            }),
    {
        match self.position(key) {
            Some(i) => {
                proof {
                    lemma_first_unique(self.entries(), key@, i as int);
                }
                Some(&self.entries[i].1)
            },
            None => None,
        }
    }

    /// The name of the entry at place `i`.
    pub fn key_at(&self, i: usize) -> (k: &String)
        requires
            i < self.entries().len(),
        ensures
            k@ == self.entries()[i as int].0,
    {
        &self.entries[i].0
    }

    /// The value of the entry at place `i`.
    pub fn value_at(&self, i: usize) -> (v: &V)
        requires
            i < self.entries().len(),
        ensures
            *v == self.entries()[i as int].1,
    {
        &self.entries[i].1
    }

    /// The value of the entry at place `i`, to be changed in place.
    pub fn value_at_mut(&mut self, i: usize) -> (v: &mut V)
        requires
            i < old(self).entries().len(),
        ensures
            *v == old(self).entries()[i as int].1,
            final(self).entries() == old(self).entries().update(
                i as int,
                (old(self).entries()[i as int].0, *final(v)),
            ),
    {
        proof {
            lemma_model_update(old(self).entries@, i as int);
        }
        let e = &mut self.entries[i];
        &mut e.1
    }

    /// Sets the value named `key`, and returns the value that the name had
    /// before. A new name goes to the end of the entries.
    pub fn insert(&mut self, key: String, value: V) -> (previous: Option<V>)
        ensures
            final(self)@ == old(self)@.insert(key@, value),
            previous == (if old(self)@.contains_key(key@) {
                Some(old(self)@[key@])
            } else {
                None
            }),
            has_key(old(self).entries(), key@) ==> final(self).entries() ==
                old(self).entries().update(
                first_index(old(self).entries(), key@),
                (key@, value),
            ),
            !has_key(old(self).entries(), key@) ==> final(self).entries() == old(
                self,
            ).entries().push((key@, value)),
            old(self).distinct() ==> final(self).distinct(),
    {
        match self.position(key.as_str()) {
            Some(i) => {
                proof {
                    lemma_first_unique(self.entries(), key@, i as int);
                    lemma_update_is_insert(self.entries(), key@, i as int, value);
                }
                let mut held = value;
                let slot = self.value_at_mut(i);
                core::mem::swap(slot, &mut held);
                Some(held)
            },
            None => {
                proof {
                    lemma_push_is_insert(self.entries(), key@, value);
                }
                self.entries.push((key, value));
                assert(self.entries() =~= old(self).entries().push((key@, value)));
                None
            },
        }
    }
}

impl<V> Default for NameMap<V> {
    fn default() -> (m: Self)
        ensures
            m.entries() == Seq::<(Seq<char>, V)>::empty(),
            m@ == Map::<Seq<char>, V>::empty(),
            m.distinct(),
    {
        NameMap::new()
    }
}

} // verus!
