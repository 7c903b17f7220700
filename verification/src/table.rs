//! A small string-keyed table of counters, shared by the per-document
//! version floors and the metrics counters.

use vstd::prelude::*;
use vstd::string::StringExecFns;

use crate::wire::str_eq;

verus! {

/// One keyed counter.
#[derive(Debug, Clone)]
pub struct CounterEntry {
    pub key: String,
    pub value: u64,
}

/// The value the table holds for a key: the first matching entry, or zero.
pub open spec fn spec_counter_in(entries: Seq<CounterEntry>, key: Seq<char>) -> u64
    decreases entries.len(),
{
    if entries.len() == 0 {
        0u64
    } else if entries[0].key@ == key {
        entries[0].value
    } else {
        spec_counter_in(entries.drop_first(), key)
    }
}

/// Skipping entries that do not match leaves the looked-up value unchanged.
proof fn lemma_counter_skip(entries: Seq<CounterEntry>, i: int, key: Seq<char>)
    requires
        0 <= i <= entries.len(),
        forall|j: int| 0 <= j < i ==> (#[trigger] entries[j]).key@ != key,
    ensures
        spec_counter_in(entries, key) == spec_counter_in(entries.skip(i), key),
    decreases i,
{
    if i > 0 {
        assert(entries.drop_first().skip(i - 1) =~= entries.skip(i));
        assert forall|j: int| 0 <= j < i - 1 implies (#[trigger]
            entries.drop_first()[j]).key@ != key by {
            assert(entries.drop_first()[j] == entries[j + 1]);
        };
        lemma_counter_skip(entries.drop_first(), i - 1, key);
    } else {
        assert(entries.skip(0) =~= entries);
    }
}

/// Updating the first matching entry sets exactly that key's value.
proof fn lemma_counter_update(entries: Seq<CounterEntry>, i: int, e2: CounterEntry,
    k2: Seq<char>)
    requires
        0 <= i < entries.len(),
        entries[i].key@ == e2.key@,
        forall|j: int| 0 <= j < i ==> (#[trigger] entries[j]).key@ != e2.key@,
    ensures
        spec_counter_in(entries.update(i, e2), e2.key@) == e2.value,
        k2 != e2.key@ ==> spec_counter_in(entries.update(i, e2), k2)
            == spec_counter_in(entries, k2),
    decreases i,
{
    if i == 0 {
        assert(entries.update(0, e2)[0] == e2);
        assert(entries.update(0, e2).drop_first() =~= entries.drop_first());
    } else {
        assert(entries.update(i, e2)[0] == entries[0]);
        assert(entries.update(i, e2).drop_first() =~= entries.drop_first().update(i - 1,
            e2));
        assert(entries.drop_first()[i - 1] == entries[i]);
        assert forall|j: int| 0 <= j < i - 1 implies (#[trigger]
            entries.drop_first()[j]).key@ != e2.key@ by {
            assert(entries.drop_first()[j] == entries[j + 1]);
        };
        lemma_counter_update(entries.drop_first(), i - 1, e2, k2);
    }
}

/// Appending an entry for a key the table does not hold sets exactly that
/// key's value.
proof fn lemma_counter_push(entries: Seq<CounterEntry>, e: CounterEntry, k2: Seq<char>)
    requires
        forall|j: int| 0 <= j < entries.len() ==> (#[trigger] entries[j]).key@ != e.key@,
    ensures
        spec_counter_in(entries.push(e), e.key@) == e.value,
        k2 != e.key@ ==> spec_counter_in(entries.push(e), k2)
            == spec_counter_in(entries, k2),
    decreases entries.len(),
{
    if entries.len() == 0 {
        assert(entries.push(e)[0] == e);
        assert(entries.push(e).drop_first() =~= Seq::<CounterEntry>::empty());
        assert(spec_counter_in(Seq::<CounterEntry>::empty(), e.key@) == 0);
        assert(spec_counter_in(Seq::<CounterEntry>::empty(), k2) == 0);
        assert(spec_counter_in(entries, k2) == 0);
    } else {
        assert(entries.push(e)[0] == entries[0]);
        assert(entries.push(e).drop_first() =~= entries.drop_first().push(e));
        assert forall|j: int| 0 <= j < entries.drop_first().len() implies (#[trigger]
            entries.drop_first()[j]).key@ != e.key@ by {
            assert(entries.drop_first()[j] == entries[j + 1]);
        };
        assert(entries[0].key@ != e.key@);
        lemma_counter_push(entries.drop_first(), e, k2);
    }
}

/// A string-keyed table of counters; an absent key counts as zero.
pub struct CounterTable {
    entries: Vec<CounterEntry>,
}

impl CounterTable {
    /// The value held for a key.
    pub closed spec fn spec_get(&self, key: Seq<char>) -> u64 {
        spec_counter_in(self.entries@, key)
    }

    pub closed spec fn spec_entries(&self) -> Seq<CounterEntry> {
        self.entries@
    }

    /// Every stored pair, as plain mathematical values.
    pub closed spec fn spec_pairs(&self) -> Seq<(Seq<char>, u64)> {
        self.entries@.map_values(|e: CounterEntry| (e.key@, e.value))
    }

    /// An empty table: every key counts as zero.
    pub fn new() -> (r: Self)
        ensures
            r.spec_entries() == Seq::<CounterEntry>::empty(),
            forall|k: Seq<char>| #[trigger] r.spec_get(k) == 0,
    {
        let table = CounterTable { entries: Vec::new() };
        proof {
            assert forall|k: Seq<char>| #[trigger] table.spec_get(k) == 0 by {
            };
        }
        table
    }

    /// The index of the first entry for a key, when the table holds one.
    fn find_index(&self, key: &str) -> (r: Option<usize>)
        ensures
            r matches Some(i) ==> {
                &&& i < self.spec_entries().len()
                &&& self.spec_entries()[i as int].key@ == key@
                &&& forall|j: int| 0 <= j < i ==> (#[trigger]
                    self.spec_entries()[j]).key@ != key@
            },
            r is None ==> forall|j: int| 0 <= j < self.spec_entries().len()
                ==> (#[trigger] self.spec_entries()[j]).key@ != key@,
    {
        let n = self.entries.len();
        let mut i: usize = 0;
        while i < n
            invariant
                n == self.spec_entries().len(),
                i <= n,
                forall|j: int| 0 <= j < i ==> (#[trigger] self.spec_entries()[j]).key@
                    != key@,
            decreases n - i,
        {
            if str_eq(self.entries[i].key.as_str(), key) {
                return Some(i);
            }
            i = i + 1;
        }
        None
    }

    /// Reads a key's counter.
    pub fn get(&self, key: &str) -> (r: u64)
        ensures
            r == self.spec_get(key@),
    {
        match self.find_index(key) {
            Some(i) => {
                proof {
                    assert forall|j: int| 0 <= j < i implies (#[trigger]
                        self.entries@[j]).key@ != key@ by {
                        assert(self.entries@[j] == self.spec_entries()[j]);
                    };
                    lemma_counter_skip(self.entries@, i as int, key@);
                    assert(self.entries@.skip(i as int)[0] == self.entries@[i as int]);
                }
                self.entries[i].value
            },
            None => {
                proof {
                    assert forall|j: int| 0 <= j < self.entries@.len() implies (#[trigger]
                        self.entries@[j]).key@ != key@ by {
                        assert(self.entries@[j] == self.spec_entries()[j]);
                    };
                    lemma_counter_skip(self.entries@, self.entries@.len() as int, key@);
                    assert(self.entries@.skip(self.entries@.len() as int)
                        =~= Seq::<CounterEntry>::empty());
                }
                0
            },
        }
    }

    /// Sets a key's counter, leaving every other key unchanged.
    pub fn set(&mut self, key: &str, value: u64)
        ensures
            final(self).spec_get(key@) == value,
            forall|k2: Seq<char>| k2 != key@ ==> #[trigger] final(self).spec_get(k2)
                == old(self).spec_get(k2),
    {
        let entry = CounterEntry { key: String::from_str(key), value };
        match self.find_index(key) {
            Some(i) => {
                proof {
                    assert forall|j: int| 0 <= j < i implies (#[trigger]
                        self.entries@[j]).key@ != entry.key@ by {
                        assert(self.entries@[j] == self.spec_entries()[j]);
                    };
                    assert forall|k2: Seq<char>| true implies
                        spec_counter_in(self.entries@.update(i as int, entry), k2)
                            == (if k2 == key@ { value } else { spec_counter_in(
                            self.entries@, k2) }) by {
                        lemma_counter_update(self.entries@, i as int, entry, k2);
                    };
                }
                let slot = vstd::std_specs::vec::vec_index_mut(&mut self.entries, i);
                *slot = entry;
            },
            None => {
                proof {
                    assert forall|j: int| 0 <= j < self.entries@.len() implies (#[trigger]
                        self.entries@[j]).key@ != entry.key@ by {
                        assert(self.entries@[j] == self.spec_entries()[j]);
                    };
                    assert forall|k2: Seq<char>| true implies
                        spec_counter_in(self.entries@.push(entry), k2)
                            == (if k2 == key@ { value } else { spec_counter_in(
                            self.entries@, k2) }) by {
                        lemma_counter_push(self.entries@, entry, k2);
                    };
                }
                self.entries.push(entry);
            },
        }
    }

    /// Adds to a key's counter, saturating at the numeric bound.
    pub fn bump(&mut self, key: &str, delta: u64)
        ensures
            final(self).spec_get(key@) == if old(self).spec_get(key@) + delta
                <= u64::MAX { (old(self).spec_get(key@) + delta) as u64 } else { u64::MAX },
            forall|k2: Seq<char>| k2 != key@ ==> #[trigger] final(self).spec_get(k2)
                == old(self).spec_get(k2),
    {
        let current = self.get(key);
        let next = if current <= u64::MAX - delta {
            current + delta
        } else {
            u64::MAX
        };
        self.set(key, next);
    }

    /// Hands out every entry as plain pairs, for a metrics snapshot.
    pub fn snapshot(&self) -> (r: Vec<(String, u64)>)
        ensures
            r@.len() == self.spec_pairs().len(),
            forall|i: int| 0 <= i < r@.len() ==> ((#[trigger] r@[i]).0@
                == self.spec_pairs()[i].0 && r@[i].1 == self.spec_pairs()[i].1),
    {
        let n = self.entries.len();
        let mut out: Vec<(String, u64)> = Vec::new();
        let mut i: usize = 0;
        while i < n
            invariant
                n == self.spec_entries().len(),
                i <= n,
                out@.len() == i,
                forall|j: int| 0 <= j < i ==> (#[trigger] out@[j]).0@
                    == self.spec_entries()[j].key@ && out@[j].1
                    == self.spec_entries()[j].value,
            decreases n - i,
        {
            let entry = &self.entries[i];
            out.push((String::from_str(entry.key.as_str()), entry.value));
            i = i + 1;
        }
        out
    }
}

} // verus!
