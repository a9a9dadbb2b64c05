//! A registry of sessions by name, for the owner of several sessions.
//!
//! It holds whatever handle the owner keeps for a session, each under a
//! stable name, and no name twice.

use crate::text::same_text;
use vstd::prelude::*;

verus! {

/// Handles by name.
#[derive(Debug)]
pub struct Registry<T> {
    entries: Vec<(String, T)>,
}

/// No name occurs twice.
spec fn distinct_names<T>(entries: Seq<(String, T)>) -> bool {
    forall|i: int, j: int|
        0 <= i < j < entries.len() ==> (#[trigger] entries[i]).0@ != (#[trigger] entries[j]).0@
}

/// Is some entry registered under `name`?
spec fn has_name<T>(entries: Seq<(String, T)>, name: Seq<char>) -> bool {
    exists|i: int| 0 <= i < entries.len() && (#[trigger] entries[i]).0@ == name
}

/// The place of the entry registered under `name`.
spec fn place_of<T>(entries: Seq<(String, T)>, name: Seq<char>) -> int {
    choose|i: int| 0 <= i < entries.len() && (#[trigger] entries[i]).0@ == name
}

/// The entries as a map from names to handles.
spec fn entries_map<T>(entries: Seq<(String, T)>) -> Map<Seq<char>, T> {
    Map::new(
        |name: Seq<char>| has_name(entries, name),
        |name: Seq<char>| entries[place_of(entries, name)].1,
    )
}

/// The names of the entries, in their places.
spec fn names_of<T>(entries: Seq<(String, T)>) -> Seq<Seq<char>> {
    Seq::new(entries.len(), |i: int| entries[i].0@)
}

/// The characters of each of some strings.
pub open spec fn texts(names: Seq<String>) -> Seq<Seq<char>> {
    Seq::new(names.len(), |i: int| names[i]@)
}

/// The map that a list of pairs gives when they are registered one after
/// the other: of two pairs under one name the later one stays.
pub open spec fn pairs_map<T>(pairs: Seq<(String, T)>) -> Map<Seq<char>, T>
    decreases pairs.len(),
{
    if pairs.len() == 0 {
        Map::empty()
    } else {
        pairs_map(pairs.drop_last()).insert(pairs.last().0@, pairs.last().1)
    }
}

/// With distinct names there are as many names in the map as entries.
proof fn lemma_names_counted<T>(entries: Seq<(String, T)>)
    requires
        distinct_names(entries),
    ensures
        names_of(entries).no_duplicates(),
        names_of(entries).to_set() == entries_map(entries).dom(),
        entries_map(entries).dom().finite(),
        entries_map(entries).dom().len() == entries.len(),
{
    let names = names_of(entries);
    assert(names.no_duplicates());
    assert forall|k: Seq<char>| names.to_set().contains(k) == entries_map(
        entries,
    ).dom().contains(k) by {
        if has_name(entries, k) {
            assert(names[place_of(entries, k)] == k);
        }
    }
    names.unique_seq_to_set();
    vstd::seq_lib::seq_to_set_is_finite(names);
}

/// With distinct names, the entry at place `i` is what the map holds under
/// its name.
proof fn lemma_entry_in_map<T>(entries: Seq<(String, T)>, i: int)
    requires
        distinct_names(entries),
        0 <= i < entries.len(),
    ensures
        entries_map(entries).contains_key(entries[i].0@),
        entries_map(entries)[entries[i].0@] == entries[i].1,
{
}

/// The entries after the one at place `i` was taken out and the last one
/// was put in its place.
spec fn without<T>(entries: Seq<(String, T)>, i: int) -> Seq<(String, T)> {
    entries.update(i, entries.last()).drop_last()
}

/// Taking an entry out leaves the names distinct and takes its name out of
/// the map.
proof fn lemma_without<T>(entries: Seq<(String, T)>, i: int)
    requires
        distinct_names(entries),
        0 <= i < entries.len(),
    ensures
        distinct_names(without(entries, i)),
        entries_map(without(entries, i)) == entries_map(entries).remove(entries[i].0@),
{
    let after = without(entries, i);
    let last: int = entries.len() - 1;
    let wanted = entries_map(entries).remove(entries[i].0@);
    // Where an entry of `after` came from.
    let origin = |c: int|
        if c == i {
            last
        } else {
            c
        };
    assert forall|c: int| 0 <= c < after.len() implies #[trigger] after[c] == entries[origin(c)] by {}
    assert(distinct_names(after));
    assert forall|k: Seq<char>| entries_map(after).contains_key(k) == wanted.contains_key(k) by {
        if wanted.contains_key(k) {
            let c: int = place_of(entries, k);
            if c == last {
                assert(after[i].0@ == k);
            } else {
                assert(after[c].0@ == k);
            }
        }
    }
    assert forall|k: Seq<char>| entries_map(after).contains_key(k) implies entries_map(after)[k]
        == wanted[k] by {
        let c: int = place_of(after, k);
        lemma_entry_in_map(after, c);
        lemma_entry_in_map(entries, origin(c));
    }
}

/// Adding an entry under a new name leaves the names distinct and puts the
/// entry into the map.
proof fn lemma_with<T>(entries: Seq<(String, T)>, entry: (String, T))
    requires
        distinct_names(entries),
        !has_name(entries, entry.0@),
    ensures
        distinct_names(entries.push(entry)),
        entries_map(entries.push(entry)) == entries_map(entries).insert(entry.0@, entry.1),
{
    let after = entries.push(entry);
    let n: int = entries.len() as int;
    let wanted = entries_map(entries).insert(entry.0@, entry.1);
    assert(distinct_names(after));
    assert forall|k: Seq<char>| entries_map(after).contains_key(k) == wanted.contains_key(k) by {
        if wanted.contains_key(k) {
            if k == entry.0@ {
                assert(after[n].0@ == k);
            } else {
                assert(after[place_of(entries, k)].0@ == k);
            }
        }
    }
    assert forall|k: Seq<char>| entries_map(after).contains_key(k) implies entries_map(after)[k]
        == wanted[k] by {
        let c: int = place_of(after, k);
        lemma_entry_in_map(after, c);
        if c < n {
            lemma_entry_in_map(entries, c);
        }
    }
}

impl<T> View for Registry<T> {
    type V = Map<Seq<char>, T>;

    closed spec fn view(&self) -> Map<Seq<char>, T> {
        entries_map(self.entries@)
    }
}

impl<T> Registry<T> {
    #[verifier::type_invariant]
    spec fn well_formed(self) -> bool {
        distinct_names(self.entries@)
    }

    /// An empty registry.
    pub fn new() -> (registry: Registry<T>)
        ensures
            registry@ == Map::<Seq<char>, T>::empty(),
    {
        Registry { entries: Vec::new() }
    }

    /// Registers the pairs of a list one after the other. Of two pairs
    /// under one name the later one stays.
    pub fn from_pairs(pairs: Vec<(String, T)>) -> (registry: Registry<T>)
        ensures
            registry@ == pairs_map(pairs@),
    {
        let mut registry = Registry::new();
        for pair in it: pairs
            invariant
                it.seq() == pairs@,
                registry@ == pairs_map(pairs@.take(it.index())),
        {
            let ghost k: int = it.index();
            assert(pairs@.take(k + 1).drop_last() =~= pairs@.take(k));
            let (name, handle) = pair;
            registry.insert(name, handle);
        }
        assert(pairs@.take(pairs@.len() as int) =~= pairs@);
        registry
    }

    /// The number of handles.
    pub fn len(&self) -> (n: usize)
        ensures
            self@.dom().finite(),
            n == self@.len(),
    {
        proof {
            use_type_invariant(self);
            lemma_names_counted(self.entries@);
        }
        self.entries.len()
    }

    /// The names under which handles are registered, each once.
    pub fn names(&self) -> (names: Vec<String>)
        ensures
            texts(names@).no_duplicates(),
            texts(names@).to_set() == self@.dom(),
    {
        let mut names: Vec<String> = Vec::new();
        let mut i: usize = 0;
        while i < self.entries.len()
            invariant
                i <= self.entries@.len(),
                names@.len() == i,
                forall|j: int| 0 <= j < i ==> (#[trigger] names@[j])@ == self.entries@[j].0@,
            decreases self.entries@.len() - i,
        {
            names.push(self.entries[i].0.clone());
            i = i + 1;
        }
        proof {
            use_type_invariant(self);
            lemma_names_counted(self.entries@);
            assert(texts(names@) =~= names_of(self.entries@));
        }
        names
    }

    /// The place of `name` among the entries.
    fn find(entries: &Vec<(String, T)>, name: &str) -> (place: Option<usize>)
        ensures
            (match place {
                Some(i) => i < entries@.len() && entries@[i as int].0@ == name@,
                None => !has_name(entries@, name@),
            }),
    {
        let mut i: usize = 0;
        while i < entries.len()
            invariant
                i <= entries@.len(),
                forall|j: int| 0 <= j < i ==> (#[trigger] entries@[j]).0@ != name@,
            decreases entries@.len() - i,
        {
            if same_text(entries[i].0.as_str(), name) {
                return Some(i);
            }
            i = i + 1;
        }
        None
    }

    /// Is a handle registered under `name`?
    pub fn contains(&self, name: &str) -> (found: bool)
        ensures
            found == self@.contains_key(name@),
    {
        Self::find(&self.entries, name).is_some()
    }

    /// The handle registered under `name`.
    pub fn get(&self, name: &str) -> (handle: Option<&T>)
        ensures
            (match handle {
                Some(handle) => self@.contains_key(name@) && *handle == self@[name@],
                None => !self@.contains_key(name@),
            }),
    {
        proof {
            use_type_invariant(self);
        }
        match Self::find(&self.entries, name) {
            Some(i) => {
                proof {
                    lemma_entry_in_map(self.entries@, i as int);
                }
                Some(&self.entries[i].1)
            },
            None => None,
        }
    }

    /// Registers `handle` under `name`. A handle that was registered under
    /// that name before is replaced and handed back.
    pub fn insert(&mut self, name: String, handle: T) -> (replaced: Option<T>)
        ensures
            final(self)@ == old(self)@.insert(name@, handle),
            (match replaced {
                Some(before) => old(self)@.contains_key(name@) && before == old(self)@[name@],
                None => !old(self)@.contains_key(name@),
            }),
    {
        proof {
            use_type_invariant(&*self);
        }
        let mut entries: Vec<(String, T)> = Vec::new();
        std::mem::swap(&mut entries, &mut self.entries);
        let ghost before = entries@;
        let replaced = match Self::find(&entries, name.as_str()) {
            Some(i) => {
                proof {
                    lemma_entry_in_map(before, i as int);
                    lemma_without(before, i as int);
                }
                let (_, handle) = entries.swap_remove(i);
                Some(handle)
            },
            None => None,
        };
        proof {
            lemma_with(entries@, (name, handle));
            assert(entries_map(before).remove(name@).insert(name@, handle) =~= entries_map(
                before,
            ).insert(name@, handle));
        }
        entries.push((name, handle));
        self.entries = entries;
        replaced
    }

    /// Takes out the handle registered under `name`.
    pub fn remove(&mut self, name: &str) -> (removed: Option<T>)
        ensures
            final(self)@ == old(self)@.remove(name@),
            (match removed {
                Some(before) => old(self)@.contains_key(name@) && before == old(self)@[name@],
                None => !old(self)@.contains_key(name@),
            }),
    {
        proof {
            use_type_invariant(&*self);
        }
        let mut entries: Vec<(String, T)> = Vec::new();
        std::mem::swap(&mut entries, &mut self.entries);
        let ghost before = entries@;
        let removed = match Self::find(&entries, name) {
            Some(i) => {
                proof {
                    lemma_entry_in_map(before, i as int);
                    lemma_without(before, i as int);
                }
                let (_, handle) = entries.swap_remove(i);
                Some(handle)
            },
            None => {
                None
            },
        };
        self.entries = entries;
        removed
    }
}

} // verus!
