//! A small map from names to text, kept in insertion order.

use vstd::prelude::*;

use crate::text::same_text;

verus! {

/// Named string variables: query parameters, form fields, cookies, the
/// variables of one session. No name occurs twice.
#[derive(Debug)]
pub struct VarMap {
    entries: Vec<(String, String)>,
}

/// Whether `i` is a position in `entries` that holds the key `name`.
spec fn holds_key(entries: Seq<(String, String)>, i: int, name: Seq<char>) -> bool {
    0 <= i < entries.len() && entries[i].0@ == name
}

/// No two entries share a key.
spec fn distinct_keys(entries: Seq<(String, String)>) -> bool {
    forall|i: int, j: int|
        0 <= i < entries.len() && 0 <= j < entries.len() && i != j ==> (#[trigger] entries[i]).0@
            != (#[trigger] entries[j]).0@
}

/// The map that a list of entries stands for.
spec fn entries_map(entries: Seq<(String, String)>) -> Map<Seq<char>, Seq<char>> {
    Map::new(
        |name: Seq<char>| exists|i: int| holds_key(entries, i, name),
        |name: Seq<char>| entries[choose|i: int| holds_key(entries, i, name)].1@,
    )
}

/// With distinct keys, the entry at `i` is what the map holds for its key.
proof fn lemma_entry_in_map(entries: Seq<(String, String)>, i: int)
    requires
        distinct_keys(entries),
        0 <= i < entries.len(),
    ensures
        entries_map(entries).contains_key(entries[i].0@),
        entries_map(entries)[entries[i].0@] == entries[i].1@,
{
    let name = entries[i].0@;
    assert(holds_key(entries, i, name));
    let j = choose|j: int| holds_key(entries, j, name);
    assert(j == i);
}

/// A key that no entry holds is not in the map.
proof fn lemma_absent_key(entries: Seq<(String, String)>, name: Seq<char>)
    requires
        forall|i: int| 0 <= i < entries.len() ==> (#[trigger] entries[i]).0@ != name,
    ensures
        !entries_map(entries).contains_key(name),
{
    assert(forall|i: int| !holds_key(entries, i, name));
}

/// Appending an entry under a new key inserts it.
proof fn lemma_push_entry(entries: Seq<(String, String)>, entry: (String, String))
    requires
        distinct_keys(entries),
        forall|i: int| 0 <= i < entries.len() ==> (#[trigger] entries[i]).0@ != entry.0@,
    ensures
        distinct_keys(entries.push(entry)),
        entries_map(entries.push(entry)) == entries_map(entries).insert(entry.0@, entry.1@),
{
    let after = entries.push(entry);
    let expected = entries_map(entries).insert(entry.0@, entry.1@);
    assert(distinct_keys(after));
    assert forall|name: Seq<char>| #[trigger]
        entries_map(after).contains_key(name) == expected.contains_key(name) by {
        if exists|i: int| holds_key(after, i, name) {
            let i = choose|i: int| holds_key(after, i, name);
            if i < entries.len() {
                assert(holds_key(entries, i, name));
            }
        }
        if exists|i: int| holds_key(entries, i, name) {
            let i = choose|i: int| holds_key(entries, i, name);
            assert(holds_key(after, i, name));
        }
        if name == entry.0@ {
            assert(holds_key(after, entries.len() as int, name));
        }
    }
    assert forall|name: Seq<char>| #[trigger]
        entries_map(after).contains_key(name) implies entries_map(after)[name] == expected[name] by {
        let i = choose|i: int| holds_key(after, i, name);
        lemma_entry_in_map(after, i);
        if i < entries.len() {
            lemma_entry_in_map(entries, i);
        }
    }
    assert(entries_map(after) =~= expected);
}

/// Replacing the entry at `i` by one with the same key overwrites its value.
proof fn lemma_update_entry(entries: Seq<(String, String)>, i: int, entry: (String, String))
    requires
        distinct_keys(entries),
        0 <= i < entries.len(),
        entries[i].0@ == entry.0@,
    ensures
        distinct_keys(entries.update(i, entry)),
        entries_map(entries.update(i, entry)) == entries_map(entries).insert(entry.0@, entry.1@),
{
    let after = entries.update(i, entry);
    let expected = entries_map(entries).insert(entry.0@, entry.1@);
    assert forall|a: int, b: int|
        0 <= a < after.len() && 0 <= b < after.len() && a != b implies (#[trigger] after[a]).0@
        != (#[trigger] after[b]).0@ by {
        assert(after[a].0@ == entries[a].0@);
        assert(after[b].0@ == entries[b].0@);
    }
    assert forall|name: Seq<char>| #[trigger]
        entries_map(after).contains_key(name) == expected.contains_key(name) by {
        if exists|j: int| holds_key(after, j, name) {
            let j = choose|j: int| holds_key(after, j, name);
            assert(after[j].0@ == entries[j].0@);
            assert(holds_key(entries, j, name));
        }
        if exists|j: int| holds_key(entries, j, name) {
            let j = choose|j: int| holds_key(entries, j, name);
            assert(after[j].0@ == entries[j].0@);
            assert(holds_key(after, j, name));
        }
        if name == entry.0@ {
            assert(holds_key(after, i, name));
        }
    }
    assert forall|name: Seq<char>| #[trigger]
        entries_map(after).contains_key(name) implies entries_map(after)[name] == expected[name] by {
        let j = choose|j: int| holds_key(after, j, name);
        lemma_entry_in_map(after, j);
        if j != i {
            lemma_entry_in_map(entries, j);
        }
    }
    assert(entries_map(after) =~= expected);
}

/// Dropping the entry at `i` removes its key.
proof fn lemma_remove_entry(entries: Seq<(String, String)>, i: int)
    requires
        distinct_keys(entries),
        0 <= i < entries.len(),
    ensures
        distinct_keys(entries.remove(i)),
        entries_map(entries.remove(i)) == entries_map(entries).remove(entries[i].0@),
{
    let after = entries.remove(i);
    let gone = entries[i].0@;
    let expected = entries_map(entries).remove(gone);
    assert forall|a: int, b: int|
        0 <= a < after.len() && 0 <= b < after.len() && a != b implies (#[trigger] after[a]).0@
        != (#[trigger] after[b]).0@ by {
        let a0 = if a < i { a } else { a + 1 };
        let b0 = if b < i { b } else { b + 1 };
        assert(after[a] == entries[a0]);
        assert(after[b] == entries[b0]);
    }
    assert forall|name: Seq<char>| #[trigger]
        entries_map(after).contains_key(name) == expected.contains_key(name) by {
        if exists|j: int| holds_key(after, j, name) {
            let j = choose|j: int| holds_key(after, j, name);
            let j0 = if j < i { j } else { j + 1 };
            assert(after[j] == entries[j0]);
            assert(holds_key(entries, j0, name));
            assert(entries[j0].0@ != entries[i].0@);
        }
        if name != gone && exists|j: int| holds_key(entries, j, name) {
            let j0 = choose|j: int| holds_key(entries, j, name);
            let j = if j0 < i { j0 } else { j0 - 1 };
            assert(after[j] == entries[j0]);
            assert(holds_key(after, j, name));
        }
    }
    assert forall|name: Seq<char>| #[trigger]
        entries_map(after).contains_key(name) implies entries_map(after)[name] == expected[name] by {
        let j = choose|j: int| holds_key(after, j, name);
        let j0 = if j < i { j } else { j + 1 };
        assert(after[j] == entries[j0]);
        lemma_entry_in_map(after, j);
        lemma_entry_in_map(entries, j0);
    }
    assert(entries_map(after) =~= expected);
}

/// With distinct keys, the map has as many keys as the list has entries.
proof fn lemma_map_size(entries: Seq<(String, String)>)
    requires
        distinct_keys(entries),
    ensures
        entries_map(entries).dom().finite(),
        entries_map(entries).dom().len() == entries.len(),
    decreases entries.len(),
{
    if entries.len() == 0 {
        assert forall|name: Seq<char>| !entries_map(entries).contains_key(name) by {
            lemma_absent_key(entries, name);
        }
        assert(entries_map(entries).dom() =~= Set::<Seq<char>>::empty());
    } else {
        let init = entries.drop_last();
        let last = entries.last();
        assert(entries =~= init.push(last));
        assert forall|i: int, j: int|
            0 <= i < init.len() && 0 <= j < init.len() && i != j implies (#[trigger] init[i]).0@
            != (#[trigger] init[j]).0@ by {
            assert(init[i] == entries[i]);
            assert(init[j] == entries[j]);
        }
        assert forall|i: int| 0 <= i < init.len() implies (#[trigger] init[i]).0@ != last.0@ by {
            assert(init[i] == entries[i]);
            assert(last == entries[entries.len() - 1]);
        }
        lemma_map_size(init);
        lemma_push_entry(init, last);
        lemma_absent_key(init, last.0@);
        assert(entries_map(entries).dom() =~= entries_map(init).dom().insert(last.0@));
    }
}

/// Whether `pairs` lists the keys of `map`, each once and with its value.
pub open spec fn lists_map(pairs: Seq<(String, String)>, map: Map<Seq<char>, Seq<char>>) -> bool {
    &&& forall|i: int, j: int|
        0 <= i < pairs.len() && 0 <= j < pairs.len() && i != j ==> (#[trigger] pairs[i]).0@
            != (#[trigger] pairs[j]).0@
    &&& forall|i: int|
        0 <= i < pairs.len() ==> map.contains_key((#[trigger] pairs[i]).0@) && map[pairs[i].0@]
            == pairs[i].1@
    &&& forall|name: Seq<char>| #[trigger]
        map.contains_key(name) ==> exists|i: int|
            0 <= i < pairs.len() && (#[trigger] pairs[i]).0@ == name
}

impl View for VarMap {
    type V = Map<Seq<char>, Seq<char>>;

    closed spec fn view(&self) -> Map<Seq<char>, Seq<char>> {
        entries_map(self.entries@)
    }
}

impl VarMap {
    #[verifier::type_invariant]
    spec fn well_formed(self) -> bool {
        distinct_keys(self.entries@)
    }

    /// An empty map.
    pub fn new() -> (map: VarMap)
        ensures
            map@ == Map::<Seq<char>, Seq<char>>::empty(),
    {
        let map = VarMap { entries: Vec::new() };
        proof {
            assert forall|name: Seq<char>| !entries_map(map.entries@).contains_key(name) by {
                lemma_absent_key(map.entries@, name);
            }
            assert(map@ =~= Map::<Seq<char>, Seq<char>>::empty());
        }
        map
    }

    fn position(&self, name: &str) -> (found: Option<usize>)
        ensures
            match found {
                Some(i) => i < self.entries@.len() && self.entries@[i as int].0@ == name@,
                None => forall|i: int|
                    0 <= i < self.entries@.len() ==> (#[trigger] self.entries@[i]).0@ != name@,
            },
    {
        let mut i: usize = 0;
        while i < self.entries.len()
            invariant
                i <= self.entries@.len(),
                forall|j: int| 0 <= j < i ==> (#[trigger] self.entries@[j]).0@ != name@,
            decreases self.entries@.len() - i,
        {
            if same_text(self.entries[i].0.as_str(), name) {
                return Some(i);
            }
            i += 1;
        }
        None
    }

    /// Whether `name` has a value.
    pub fn contains_key(&self, name: &str) -> (found: bool)
        ensures
            found == self@.contains_key(name@),
    {
        proof {
            use_type_invariant(self);
        }
        match self.position(name) {
            Some(i) => {
                proof {
                    lemma_entry_in_map(self.entries@, i as int);
                }
                true
            },
            None => {
                proof {
                    lemma_absent_key(self.entries@, name@);
                }
                false
            },
        }
    }

    /// The value of `name`, if it has one.
    pub fn get(&self, name: &str) -> (value: Option<&String>)
        ensures
            match value {
                Some(text) => self@.contains_key(name@) && text@ == self@[name@],
                None => !self@.contains_key(name@),
            },
    {
        proof {
            use_type_invariant(self);
        }
        match self.position(name) {
            Some(i) => {
                proof {
                    lemma_entry_in_map(self.entries@, i as int);
                }
                Some(&self.entries[i].1)
            },
            None => {
                proof {
                    lemma_absent_key(self.entries@, name@);
                }
                None
            },
        }
    }

    /// Gives `name` the value `value`, in place of the one it had, if any.
    pub fn insert(&mut self, name: String, value: String)
        ensures
            final(self)@ == old(self)@.insert(name@, value@),
    {
        proof {
            use_type_invariant(&*self);
        }
        let found = self.position(name.as_str());
        let mut entries: Vec<(String, String)> = Vec::new();
        std::mem::swap(&mut self.entries, &mut entries);
        match found {
            Some(i) => {
                proof {
                    lemma_update_entry(entries@, i as int, (name, value));
                }
                entries.set(i, (name, value));
            },
            None => {
                proof {
                    lemma_push_entry(entries@, (name, value));
                }
                entries.push((name, value));
            },
        }
        self.entries = entries;
    }

    /// Takes `name` and its value out, if it has one.
    pub fn remove(&mut self, name: &str)
        ensures
            final(self)@ == old(self)@.remove(name@),
    {
        proof {
            use_type_invariant(&*self);
        }
        match self.position(name) {
            Some(i) => {
                let mut entries: Vec<(String, String)> = Vec::new();
                std::mem::swap(&mut self.entries, &mut entries);
                proof {
                    lemma_remove_entry(entries@, i as int);
                }
                entries.remove(i);
                self.entries = entries;
            },
            None => {
                proof {
                    lemma_absent_key(self.entries@, name@);
                    assert(self@ =~= self@.remove(name@));
                }
            },
        }
    }

    /// The number of names that have a value.
    pub fn len(&self) -> (count: usize)
        ensures
            self@.dom().finite(),
            count == self@.len(),
    {
        proof {
            use_type_invariant(self);
            lemma_map_size(self.entries@);
        }
        self.entries.len()
    }

    /// Whether no name has a value.
    pub fn is_empty(&self) -> (empty: bool)
        ensures
            empty == (self@ == Map::<Seq<char>, Seq<char>>::empty()),
    {
        proof {
            use_type_invariant(self);
            lemma_map_size(self.entries@);
            if self.entries@.len() == 0 {
                assert(self@.dom() =~= Set::<Seq<char>>::empty());
                assert(self@ =~= Map::<Seq<char>, Seq<char>>::empty());
            } else {
                lemma_entry_in_map(self.entries@, 0);
            }
        }
        self.entries.len() == 0
    }

    /// A copy of every name with its value, in the order in which the names
    /// first got one.
    pub fn pairs(&self) -> (pairs: Vec<(String, String)>)
        ensures
            lists_map(pairs@, self@),
    {
        proof {
            use_type_invariant(self);
        }
        let mut pairs: Vec<(String, String)> = Vec::new();
        let mut i: usize = 0;
        while i < self.entries.len()
            invariant
                i <= self.entries@.len(),
                pairs@ == self.entries@.take(i as int),
            decreases self.entries@.len() - i,
        {
            let name = self.entries[i].0.clone();
            let value = self.entries[i].1.clone();
            pairs.push((name, value));
            assert(self.entries@.take(i + 1) == self.entries@.take(i as int).push(
                self.entries@[i as int],
            ));
            i += 1;
        }
        proof {
            assert(pairs@ == self.entries@);
            assert forall|k: int| 0 <= k < pairs@.len() implies self@.contains_key(
                (#[trigger] pairs@[k]).0@,
            ) && self@[pairs@[k].0@] == pairs@[k].1@ by {
                lemma_entry_in_map(self.entries@, k);
            }
            assert forall|name: Seq<char>| #[trigger] self@.contains_key(name) implies exists|k: int|
                0 <= k < pairs@.len() && (#[trigger] pairs@[k]).0@ == name by {
                let k = choose|k: int| holds_key(self.entries@, k, name);
                assert(pairs@[k].0@ == name);
            }
        }
        pairs
    }
}

impl Clone for VarMap {
    /// A copy that holds the same values under the same names.
    fn clone(&self) -> (copy: VarMap)
        ensures
            copy@ == self@,
    {
        proof {
            use_type_invariant(self);
        }
        let mut entries: Vec<(String, String)> = Vec::new();
        let mut i: usize = 0;
        while i < self.entries.len()
            invariant
                i <= self.entries@.len(),
                entries@ == self.entries@.take(i as int),
            decreases self.entries@.len() - i,
        {
            let name = self.entries[i].0.clone();
            let value = self.entries[i].1.clone();
            entries.push((name, value));
            assert(self.entries@.take(i + 1) == self.entries@.take(i as int).push(
                self.entries@[i as int],
            ));
            i += 1;
        }
        assert(entries@ == self.entries@);
        VarMap { entries }
    }
}

} // verus!
