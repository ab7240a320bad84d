//! A table from names to values.
use vstd::prelude::*;

verus! {

/// A mapping from names to values, kept as a list of entries in which no
/// name occurs twice. Inserting under a name that is already there
/// replaces the value.
pub struct Table<T> {
    entries: Vec<(String, T)>,
}

/// Position `i` of `entries` holds the name `name`.
pub open spec fn names_at<T>(entries: Seq<(String, T)>, i: int, name: Seq<char>) -> bool {
    0 <= i < entries.len() && entries[i].0@ == name
}

/// No two positions of `entries` hold the same name.
pub open spec fn distinct_names<T>(entries: Seq<(String, T)>) -> bool {
    forall|i: int, j: int|
        0 <= i < entries.len() && 0 <= j < entries.len() && i != j ==> (#[trigger] entries[i]).0@
            != (#[trigger] entries[j]).0@
}

/// The mapping that `entries` stand for.
pub open spec fn entries_map<T>(entries: Seq<(String, T)>) -> Map<Seq<char>, T> {
    Map::new(
        |name: Seq<char>| exists|i: int| names_at(entries, i, name),
        |name: Seq<char>| entries[choose|i: int| names_at(entries, i, name)].1,
    )
}

proof fn lemma_entry_is_mapped<T>(entries: Seq<(String, T)>, k: int)
    requires
        distinct_names(entries),
        0 <= k < entries.len(),
    ensures
        entries_map(entries).contains_key(entries[k].0@),
        entries_map(entries)[entries[k].0@] == entries[k].1,
{
    let name = entries[k].0@;
    assert(names_at(entries, k, name));
    let i = choose|i: int| names_at(entries, i, name);
    assert(i == k);
}

proof fn lemma_push_inserts<T>(entries: Seq<(String, T)>, name: String, value: T)
    requires
        distinct_names(entries),
        !entries_map(entries).contains_key(name@),
    ensures
        distinct_names(entries.push((name, value))),
        entries_map(entries.push((name, value))) == entries_map(entries).insert(name@, value),
{
    let longer = entries.push((name, value));
    assert forall|i: int, j: int|
        0 <= i < longer.len() && 0 <= j < longer.len() && i != j implies (#[trigger] longer[i]).0@
        != (#[trigger] longer[j]).0@ by {
        if i < entries.len() {
            assert(names_at(entries, i, entries[i].0@));
        }
        if j < entries.len() {
            assert(names_at(entries, j, entries[j].0@));
        }
    }
    assert forall|n: Seq<char>|
        entries_map(longer).contains_key(n) == entries_map(entries).insert(
            name@,
            value,
        ).contains_key(n) by {
        if entries_map(entries).contains_key(n) {
            let i = choose|i: int| names_at(entries, i, n);
            assert(names_at(longer, i, n));
        }
        if n == name@ {
            assert(names_at(longer, entries.len() as int, n));
        }
        if entries_map(longer).contains_key(n) {
            let i = choose|i: int| names_at(longer, i, n);
            if i < entries.len() {
                assert(names_at(entries, i, n));
            }
        }
    }
    assert forall|n: Seq<char>| entries_map(longer).contains_key(n) implies entries_map(longer)[n]
        == entries_map(entries).insert(name@, value)[n] by {
        let i = choose|i: int| names_at(longer, i, n);
        if i < entries.len() {
            assert(names_at(entries, i, n));
            lemma_entry_is_mapped(entries, i);
        }
    }
    assert(entries_map(longer) =~= entries_map(entries).insert(name@, value));
}

proof fn lemma_update_inserts<T>(entries: Seq<(String, T)>, k: int, name: String, value: T)
    requires
        distinct_names(entries),
        0 <= k < entries.len(),
        entries[k].0@ == name@,
    ensures
        distinct_names(entries.update(k, (name, value))),
        entries_map(entries.update(k, (name, value))) == entries_map(entries).insert(
            name@,
            value,
        ),
{
    let changed = entries.update(k, (name, value));
    assert forall|i: int, j: int|
        0 <= i < changed.len() && 0 <= j < changed.len() && i != j implies (
        #[trigger] changed[i]).0@ != (#[trigger] changed[j]).0@ by {
        assert(changed[i].0@ == entries[i].0@);
        assert(changed[j].0@ == entries[j].0@);
    }
    assert forall|n: Seq<char>|
        entries_map(changed).contains_key(n) == entries_map(entries).insert(
            name@,
            value,
        ).contains_key(n) by {
        if entries_map(entries).contains_key(n) {
            let i = choose|i: int| names_at(entries, i, n);
            assert(changed[i].0@ == entries[i].0@);
            assert(names_at(changed, i, n));
        }
        if n == name@ {
            assert(names_at(changed, k, n));
        }
        if entries_map(changed).contains_key(n) {
            let i = choose|i: int| names_at(changed, i, n);
            assert(changed[i].0@ == entries[i].0@);
            assert(names_at(entries, i, n));
        }
    }
    assert forall|n: Seq<char>| entries_map(changed).contains_key(n) implies entries_map(
        changed,
    )[n] == entries_map(entries).insert(name@, value)[n] by {
        let i = choose|i: int| names_at(changed, i, n);
        lemma_entry_is_mapped(changed, i);
        if i != k {
            assert(changed[i] == entries[i]);
            lemma_entry_is_mapped(entries, i);
        }
    }
    assert(entries_map(changed) =~= entries_map(entries).insert(name@, value));
}

impl<T> Table<T> {
    /// No name occurs twice.
    pub closed spec fn wf(&self) -> bool {
        distinct_names(self.entries@)
    }

    /// The mapping that the table holds.
    pub closed spec fn map(&self) -> Map<Seq<char>, T> {
        entries_map(self.entries@)
    }

    /// The empty table.
    pub fn new() -> (t: Table<T>)
        ensures
            t.wf(),
            t.map() == Map::<Seq<char>, T>::empty(),
    {
        let t = Table { entries: Vec::new() };
        assert(t.map() =~= Map::<Seq<char>, T>::empty());
        t
    }

    fn position(&self, name: &String) -> (r: Option<usize>)
        ensures
            match r {
                Some(k) => names_at(self.entries@, k as int, name@),
                None => !self.map().contains_key(name@),
            },
    {
        let mut k: usize = 0;
        while k < self.entries.len()
            invariant
                k <= self.entries.len(),
                forall|i: int| 0 <= i < k ==> !names_at(self.entries@, i, name@),
            decreases self.entries.len() - k,
        {
            if self.entries[k].0 == *name {
                return Some(k);
            }
            k += 1;
        }
        None
    }

    /// The value under `name`, if the table has one.
    pub fn get(&self, name: &String) -> (r: Option<&T>)
        requires
            self.wf(),
        ensures
            match r {
                Some(v) => self.map().contains_key(name@) && self.map()[name@] == *v,
                None => !self.map().contains_key(name@),
            },
    {
        match self.position(name) {
            Some(k) => {
                proof {
                    lemma_entry_is_mapped(self.entries@, k as int);
                }
                Some(&self.entries[k].1)
            },
            None => None,
        }
    }

    /// Puts `value` under `name`, in place of what was there.
    pub fn insert(&mut self, name: String, value: T)
        requires
            old(self).wf(),
        ensures
            final(self).wf(),
            final(self).map() == old(self).map().insert(name@, value),
    {
        match self.position(&name) {
            Some(k) => {
                proof {
                    lemma_update_inserts(self.entries@, k as int, name, value);
                }
                self.entries.set(k, (name, value));
            },
            None => {
                proof {
                    lemma_push_inserts(self.entries@, name, value);
                }
                self.entries.push((name, value));
            },
        }
    }

    /// How many names the table holds.
    pub fn len(&self) -> (n: usize)
        ensures
            n == self.entry_count(),
    {
        self.entries.len()
    }

    /// The number of entries.
    pub closed spec fn entry_count(&self) -> nat {
        self.entries@.len()
    }

    /// The table holds as many names as it has entries.
    pub proof fn lemma_domain_size(&self)
        requires
            self.wf(),
        ensures
            self.map().dom().finite(),
            self.map().dom().len() == self.entry_count(),
    {
        let entries = self.entries@;
        let names = Seq::new(entries.len(), |i: int| entries[i].0@);
        assert forall|i: int, j: int|
            0 <= i < names.len() && 0 <= j < names.len() && i != j implies names[i] != names[j] by {
            assert(entries[i].0@ != entries[j].0@);
        }
        assert(names.to_set() =~= self.map().dom()) by {
            assert forall|n: Seq<char>| names.to_set().contains(n) == self.map().dom().contains(
                n,
            ) by {
                if names.contains(n) {
                    let i = choose|i: int| 0 <= i < names.len() && names[i] == n;
                    assert(names_at(entries, i, n));
                }
                if self.map().dom().contains(n) {
                    let i = choose|i: int| names_at(entries, i, n);
                    assert(names[i] == n);
                }
            }
        }
        vstd::seq_lib::seq_to_set_is_finite(names);
        names.unique_seq_to_set();
    }
}

} // verus!
