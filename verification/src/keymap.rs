//! Maps from string keys to values, kept as a list of entries in which no
//! key occurs twice.
use crate::text::str_equal;
use vstd::prelude::*;

verus! {

/// Whether no key occurs twice among the entries.
pub open spec fn keys_unique<V>(entries: Seq<(String, V)>) -> bool {
    forall|i: int, j: int|
        0 <= i < entries.len() && 0 <= j < entries.len() && i != j ==> #[trigger] entries[i].0@
            != #[trigger] entries[j].0@
}

/// Whether some entry has the key.
pub open spec fn has_key<V>(entries: Seq<(String, V)>, key: Seq<char>) -> bool {
    exists|i: int| 0 <= i < entries.len() && #[trigger] entries[i].0@ == key
}

/// The value stored under `key`: that of the first entry with the key.
pub open spec fn lookup_spec<V>(entries: Seq<(String, V)>, key: Seq<char>) -> Option<V>
    decreases entries.len(),
{
    if entries.len() == 0 {
        None
    } else if entries[0].0@ == key {
        Some(entries[0].1)
    } else {
        lookup_spec(entries.drop_first(), key)
    }
}

/// The entries after `key` is set to `value`: the entry with the key is
/// replaced where there is one, else the new entry goes at the end.
pub open spec fn insert_spec<V>(entries: Seq<(String, V)>, key: String, value: V) -> Seq<
    (String, V),
> {
    if has_key(entries, key@) {
        entries.update(
            choose|i: int| 0 <= i < entries.len() && #[trigger] entries[i].0@ == key@,
            (key, value),
        )
    } else {
        entries.push((key, value))
    }
}

/// A list of entries whose keys are all distinct is a map: each entry is
/// found by its key, whatever the order of the entries, and a key that no
/// entry has finds nothing.
pub proof fn law_unique_keys_lookup<V>(entries: Seq<(String, V)>)
    requires
        keys_unique(entries),
    ensures
        forall|i: int|
            0 <= i < entries.len() ==> lookup_spec(entries, #[trigger] entries[i].0@) == Some(
                entries[i].1,
            ),
        forall|k: Seq<char>| !has_key(entries, k) ==> #[trigger] lookup_spec(entries, k) is None,
    decreases entries.len(),
{
    if entries.len() > 0 {
        let rest = entries.drop_first();
        assert(keys_unique(rest)) by {
            assert forall|i: int, j: int|
                0 <= i < rest.len() && 0 <= j < rest.len() && i != j implies #[trigger] rest[i].0@
                != #[trigger] rest[j].0@ by {
                assert(rest[i] == entries[i + 1]);
                assert(rest[j] == entries[j + 1]);
            }
        }
        law_unique_keys_lookup(rest);
        assert forall|i: int| 0 <= i < entries.len() implies lookup_spec(
            entries,
            #[trigger] entries[i].0@,
        ) == Some(entries[i].1) by {
            if i > 0 {
                assert(entries[i] == rest[i - 1]);
                assert(entries[i].0@ != entries[0].0@);
            }
        }
        assert forall|k: Seq<char>| !has_key(entries, k) implies #[trigger] lookup_spec(
            entries,
            k,
        ) is None by {
            assert(entries[0].0@ != k);
            if has_key(rest, k) {
                let j = choose|j: int| 0 <= j < rest.len() && #[trigger] rest[j].0@ == k;
                assert(entries[j + 1] == rest[j]);
                assert(entries[j + 1].0@ == k);
            }
            assert(lookup_spec(rest, k) is None);
        }
    }
}

/// A map from string keys to values.
pub struct KeyMap<V> {
    entries: Vec<(String, V)>,
}

impl<V> KeyMap<V> {
    /// No key occurs twice.
    #[verifier::type_invariant]
    spec fn inv(self) -> bool {
        keys_unique(self.entries@)
    }

    /// The entries, in the order in which their keys were first inserted.
    pub closed spec fn entries_spec(self) -> Seq<(String, V)> {
        self.entries@
    }

    /// The value stored under `key`.
    pub open spec fn get_spec(self, key: Seq<char>) -> Option<V> {
        lookup_spec(self.entries_spec(), key)
    }

    /// An empty map.
    pub fn new() -> (m: Self)
        ensures
            m.entries_spec() == Seq::<(String, V)>::empty(),
    {
        KeyMap { entries: Vec::new() }
    }

    /// The entries, given up by the map.
    pub fn into_entries(self) -> (r: Vec<(String, V)>)
        ensures
            r@ == self.entries_spec(),
            keys_unique(r@),
    {
        proof {
            use_type_invariant(&self);
        }
        self.entries
    }

    /// Sets the value stored under `key`, as `HashMap::insert` does.
    pub fn insert(&mut self, key: String, value: V)
        ensures
            final(self).entries_spec() == insert_spec(old(self).entries_spec(), key, value),
            final(self).get_spec(key@) == Some(value),
            forall|k: Seq<char>| k != key@ ==> #[trigger] final(self).get_spec(k) == old(
                self,
            ).get_spec(k),
    {
        proof {
            use_type_invariant(&*self);
        }
        let mut entries: Vec<(String, V)> = Vec::new();
        std::mem::swap(&mut entries, &mut self.entries);
        let ghost before = entries@;
        match position(&entries, key.as_str()) {
            Some(i) => {
                proof {
                    let c = choose|j: int| 0 <= j < before.len() && #[trigger] before[j].0@ == key@;
                    assert(before[i as int].0@ == key@);
                    assert(c == i);
                }
                entries.set(i, (key, value));
                proof {
                    assert forall|a: int, b: int|
                        0 <= a < entries@.len() && 0 <= b < entries@.len() && a != b implies #[trigger] entries@[a].0@
                        != #[trigger] entries@[b].0@ by {
                        if a != i && b != i {
                            assert(entries@[a] == before[a] && entries@[b] == before[b]);
                        } else if a == i {
                            assert(entries@[b] == before[b]);
                            assert(before[i as int].0@ != before[b].0@);
                        } else {
                            assert(entries@[a] == before[a]);
                            assert(before[i as int].0@ != before[a].0@);
                        }
                    }
                    lemma_same_keys_same_lookups(before, entries@, i as int);
                }
            },
            None => {
                entries.push((key, value));
                proof {
                    assert forall|a: int, b: int|
                        0 <= a < entries@.len() && 0 <= b < entries@.len() && a != b implies #[trigger] entries@[a].0@
                        != #[trigger] entries@[b].0@ by {
                        if a < before.len() && b < before.len() {
                            assert(entries@[a] == before[a] && entries@[b] == before[b]);
                        } else if a < before.len() {
                            assert(entries@[a] == before[a]);
                        } else {
                            assert(entries@[b] == before[b]);
                        }
                    }
                    lemma_push_lookups(before, key, value);
                }
            },
        }
        self.entries = entries;
    }

    /// The value stored under `key`, as `HashMap::get` gives it.
    pub fn get(&self, key: &str) -> (r: Option<&V>)
        ensures
            match r {
                Some(v) => self.get_spec(key@) == Some(*v),
                None => self.get_spec(key@) is None,
            },
    {
        proof {
            use_type_invariant(self);
        }
        match position(&self.entries, key) {
            Some(i) => {
                proof {
                    law_unique_keys_lookup(self.entries@);
                }
                Some(&self.entries[i].1)
            },
            None => {
                proof {
                    law_unique_keys_lookup(self.entries@);
                }
                None
            },
        }
    }
}

/// Where the key occurs among the entries.
fn position<V>(entries: &Vec<(String, V)>, key: &str) -> (r: Option<usize>)
    ensures
        match r {
            Some(i) => i < entries.len() && entries@[i as int].0@ == key@,
            None => !has_key(entries@, key@),
        },
{
    let mut i: usize = 0;
    while i < entries.len()
        invariant
            i <= entries.len(),
            forall|j: int| 0 <= j < i ==> #[trigger] entries@[j].0@ != key@,
        decreases entries.len() - i,
    {
        if str_equal(entries[i].0.as_str(), key) {
            return Some(i);
        }
        i = i + 1;
    }
    None
}

/// Replacing the value of entry `i`, keeping its key, changes the lookup of
/// that key only.
proof fn lemma_same_keys_same_lookups<V>(before: Seq<(String, V)>, after: Seq<(String, V)>, i: int)
    requires
        keys_unique(before),
        keys_unique(after),
        before.len() == after.len(),
        0 <= i < before.len(),
        after[i].0@ == before[i].0@,
        forall|j: int| 0 <= j < before.len() && j != i ==> after[j] == before[j],
    ensures
        lookup_spec(after, after[i].0@) == Some(after[i].1),
        forall|k: Seq<char>| k != after[i].0@ ==> #[trigger] lookup_spec(after, k) == lookup_spec(
            before,
            k,
        ),
{
    law_unique_keys_lookup(before);
    law_unique_keys_lookup(after);
    assert forall|k: Seq<char>| k != after[i].0@ implies #[trigger] lookup_spec(after, k)
        == lookup_spec(before, k) by {
        if has_key(after, k) {
            let j = choose|j: int| 0 <= j < after.len() && #[trigger] after[j].0@ == k;
            assert(after[j] == before[j]);
        } else if has_key(before, k) {
            let j = choose|j: int| 0 <= j < before.len() && #[trigger] before[j].0@ == k;
            assert(after[j] == before[j]);
        }
    }
}

/// Adding an entry with a new key finds it, and changes no other lookup.
proof fn lemma_push_lookups<V>(before: Seq<(String, V)>, key: String, value: V)
    requires
        keys_unique(before),
        keys_unique(before.push((key, value))),
        !has_key(before, key@),
    ensures
        lookup_spec(before.push((key, value)), key@) == Some(value),
        forall|k: Seq<char>| k != key@ ==> #[trigger] lookup_spec(before.push((key, value)), k)
            == lookup_spec(before, k),
{
    let after = before.push((key, value));
    law_unique_keys_lookup(before);
    law_unique_keys_lookup(after);
    assert(after[before.len() as int] == (key, value));
    assert(after[before.len() as int].0@ == key@);
    assert forall|k: Seq<char>| k != key@ implies #[trigger] lookup_spec(after, k) == lookup_spec(
        before,
        k,
    ) by {
        if has_key(after, k) {
            let j = choose|j: int| 0 <= j < after.len() && #[trigger] after[j].0@ == k;
            assert(after[j] == before[j]);
        } else if has_key(before, k) {
            let j = choose|j: int| 0 <= j < before.len() && #[trigger] before[j].0@ == k;
            assert(after[j] == before[j]);
        }
    }
}

} // verus!
