//! A map from names to values, kept as a list of entries.
//!
//! The first entry with a name is the one that counts, so the map that a
//! table stands for does not depend on any invariant of the list.
use vstd::prelude::*;
use crate::text::str_eq;

verus! {

/// The first index from `from` on at which `entries` holds the name `key`,
/// or the length of `entries` if there is none.
pub open spec fn first_from<V>(entries: Seq<(String, V)>, key: Seq<char>, from: int) -> int
    decreases entries.len() - from,
{
    if 0 <= from < entries.len() {
        if entries[from].0@ == key {
            from
        } else {
            first_from(entries, key, from + 1)
        }
    } else {
        entries.len() as int
    }
}

/// The map that a list of entries stands for.
pub open spec fn entries_map<V>(entries: Seq<(String, V)>) -> Map<Seq<char>, V> {
    Map::new(
        |key: Seq<char>| first_from(entries, key, 0) < entries.len(),
        |key: Seq<char>| entries[first_from(entries, key, 0)].1,
    )
}

/// `first_from` finds the name if and only if it occurs, and nothing before
/// what it finds holds the name.
pub proof fn lemma_first_from<V>(entries: Seq<(String, V)>, key: Seq<char>, from: int)
    requires
        0 <= from <= entries.len(),
    ensures
        from <= first_from(entries, key, from) <= entries.len(),
        first_from(entries, key, from) < entries.len() ==> entries[first_from(
            entries,
            key,
            from,
        )].0@ == key,
        forall|i: int| from <= i < first_from(entries, key, from) ==> (#[trigger] entries[i]).0@ != key,
    decreases entries.len() - from,
{
    if from < entries.len() && entries[from].0@ != key {
        lemma_first_from(entries, key, from + 1);
    }
}

/// Where `first_from` stops is decided by the entries up to there.
pub proof fn lemma_first_from_is<V>(entries: Seq<(String, V)>, key: Seq<char>, from: int, at: int)
    requires
        0 <= from <= at <= entries.len(),
        forall|i: int| from <= i < at ==> (#[trigger] entries[i]).0@ != key,
        at < entries.len() ==> entries[at].0@ == key,
    ensures
        first_from(entries, key, from) == at,
    decreases at - from,
{
    if from < at {
        lemma_first_from_is(entries, key, from + 1, at);
    }
}

/// Adding an entry for a name that does not occur maps the name to the new
/// value and leaves the rest of the map as it was.
pub proof fn lemma_push_absent<V>(entries: Seq<(String, V)>, key: String, value: V)
    requires
        first_from(entries, key@, 0) == entries.len(),
    ensures
        entries_map(entries.push((key, value))) == entries_map(entries).insert(key@, value),
{
    let after = entries.push((key, value));
    let left = entries_map(after);
    let right = entries_map(entries).insert(key@, value);
    assert forall|k: Seq<char>|
        #![trigger left.dom().contains(k)]
        #![trigger right.dom().contains(k)]
        left.dom().contains(k) == right.dom().contains(k) && (left.dom().contains(k) ==> left[k]
            == right[k]) by {
        lemma_first_from(entries, k, 0);
        let found = first_from(entries, k, 0);
        let at = if found < entries.len() {
            found
        } else if k == key@ {
            entries.len() as int
        } else {
            after.len() as int
        };
        assert forall|i: int| 0 <= i < at implies (#[trigger] after[i]).0@ != k by {
            if i < entries.len() {
                assert(after[i] == entries[i]);
            }
        }
        if at < entries.len() {
            assert(after[at] == entries[at]);
        }
        lemma_first_from_is(after, k, 0, at);
    }
    assert(left =~= right);
}

/// Replacing the value of the first entry for a name maps the name to the
/// new value and leaves the rest of the map as it was.
pub proof fn lemma_update_present<V>(entries: Seq<(String, V)>, at: int, key: String, value: V)
    requires
        0 <= at < entries.len(),
        first_from(entries, key@, 0) == at,
    ensures
        entries_map(entries.update(at, (key, value))) == entries_map(entries).insert(key@, value),
{
    let after = entries.update(at, (key, value));
    let left = entries_map(after);
    let right = entries_map(entries).insert(key@, value);
    lemma_first_from(entries, key@, 0);
    assert forall|k: Seq<char>|
        #![trigger left.dom().contains(k)]
        #![trigger right.dom().contains(k)]
        left.dom().contains(k) == right.dom().contains(k) && (left.dom().contains(k) ==> left[k]
            == right[k]) by {
        lemma_first_from(entries, k, 0);
        let stop = first_from(entries, k, 0);
        assert forall|i: int| 0 <= i < stop implies (#[trigger] after[i]).0@ != k by {
            if i != at {
                assert(after[i] == entries[i]);
            }
        }
        if stop < entries.len() && stop != at {
            assert(after[stop] == entries[stop]);
        }
        lemma_first_from_is(after, k, 0, stop);
    }
    assert(left =~= right);
}

/// Every value of `after` is `value` or stands where it stood in `before`.
pub open spec fn kept_or<V>(before: Seq<(String, V)>, after: Seq<(String, V)>, value: V) -> bool {
    forall|j: int|
        0 <= j < after.len() ==> (#[trigger] after[j]).1 == value || (j < before.len() && after[j]
            == before[j])
}

/// A map from names to values.
#[derive(Debug)]
pub struct Table<V> {
    pub entries: Vec<(String, V)>,
}

impl<V> View for Table<V> {
    type V = Map<Seq<char>, V>;

    open spec fn view(&self) -> Map<Seq<char>, V> {
        entries_map(self.entries@)
    }
}

impl<V> Table<V> {
    /// The empty table.
    pub fn new() -> (table: Table<V>)
        ensures
            table@ == Map::<Seq<char>, V>::empty(),
            table.entries@.len() == 0,
    {
        let table = Table { entries: Vec::new() };
        assert(table@ =~= Map::<Seq<char>, V>::empty());
        table
    }

    /// The index of the first entry for `key`, if there is one.
    pub fn position(&self, key: &str) -> (at: Option<usize>)
        ensures
            match at {
                Some(i) => i < self.entries.len() && first_from(self.entries@, key@, 0) == i,
                None => first_from(self.entries@, key@, 0) == self.entries.len(),
            },
            at is Some <==> self@.contains_key(key@),
    {
        let mut i: usize = 0;
        while i < self.entries.len()
            invariant
                i <= self.entries.len(),
                first_from(self.entries@, key@, 0) == first_from(self.entries@, key@, i as int),
            decreases self.entries.len() - i,
        {
            if str_eq(self.entries[i].0.as_str(), key) {
                return Some(i);
            }
            i += 1;
        }
        None
    }

    /// Whether the table has a value for `key`.
    pub fn contains_key(&self, key: &str) -> (found: bool)
        ensures
            found == self@.contains_key(key@),
    {
        self.position(key).is_some()
    }

    /// The value for `key`, if there is one.
    pub fn get(&self, key: &str) -> (value: Option<&V>)
        ensures
            match value {
                Some(v) => self@.contains_key(key@) && *v == self@[key@],
                None => !self@.contains_key(key@),
            },
            value matches Some(v) ==> exists|i: int|
                0 <= i < self.entries.len() && (#[trigger] self.entries[i]).1 == *v,
    {
        match self.position(key) {
            Some(i) => Some(&self.entries[i].1),
            None => None,
        }
    }

    /// Maps `key` to `value`. Says whether `key` had a value before.
    pub fn insert(&mut self, key: String, value: V) -> (replaced: bool)
        ensures
            final(self)@ == old(self)@.insert(key@, value),
            replaced == old(self)@.contains_key(key@),
            kept_or(old(self).entries@, final(self).entries@, value),
    {
        match self.position(key.as_str()) {
            Some(i) => {
                proof {
                    lemma_update_present(self.entries@, i as int, key, value);
                }
                self.entries.set(i, (key, value));
                true
            },
            None => {
                proof {
                    lemma_push_absent(self.entries@, key, value);
                }
                self.entries.push((key, value));
                false
            },
        }
    }
}

} // verus!
