//! A table from text keys to values: no key occurs twice, inserting under a
//! present key replaces its value, and the entries keep the order in which
//! their keys were first inserted.
use vstd::prelude::*;

verus! {

pub struct Table<V> {
    entries: Vec<(String, V)>,
}

/// No key occurs twice among `entries`.
pub open spec fn distinct_keys<V>(entries: Seq<(Seq<char>, V)>) -> bool {
    forall|i: int, j: int|
        0 <= i < entries.len() && 0 <= j < entries.len() && i != j ==> #[trigger] entries[i].0
            != #[trigger] entries[j].0
}

/// The map that a sequence of entries with distinct keys stands for.
pub open spec fn entries_map<V>(entries: Seq<(Seq<char>, V)>) -> Map<Seq<char>, V> {
    Map::new(
        |k: Seq<char>| exists|i: int| 0 <= i < entries.len() && entries[i].0 == k,
        |k: Seq<char>| entries[choose|i: int| 0 <= i < entries.len() && entries[i].0 == k].1,
    )
}

pub proof fn lemma_entries_map_at<V>(entries: Seq<(Seq<char>, V)>, i: int)
    requires
        distinct_keys(entries),
        0 <= i < entries.len(),
    ensures
        entries_map(entries).contains_key(entries[i].0),
        entries_map(entries)[entries[i].0] == entries[i].1,
{
    let k = entries[i].0;
    assert(exists|j: int| 0 <= j < entries.len() && entries[j].0 == k);
    let c = choose|j: int| 0 <= j < entries.len() && entries[j].0 == k;
    if c != i {
        assert(entries[c].0 != entries[i].0);
    }
}

impl<V> Table<V> {
    #[verifier::type_invariant]
    spec fn keys_distinct(self) -> bool {
        distinct_keys(self.spec_entries())
    }

    /// The entries, keys by their text, in order.
    pub closed spec fn spec_entries(self) -> Seq<(Seq<char>, V)> {
        self.entries@.map_values(|e: (String, V)| (e.0@, e.1))
    }

    /// The number of entries.
    pub open spec fn spec_len(self) -> nat {
        self.spec_entries().len()
    }

    /// The empty table.
    pub fn new() -> (t: Self)
        ensures
            t.spec_entries() == Seq::<(Seq<char>, V)>::empty(),
    {
        let t = Table { entries: Vec::new() };
        assert(t.spec_entries() =~= Seq::<(Seq<char>, V)>::empty());
        t
    }

    /// Makes known to a proof that the keys of the table are distinct (no
    /// run-time effect).
    pub fn note_distinct_keys(&self)
        ensures
            distinct_keys(self.spec_entries()),
    {
        proof {
            use_type_invariant(self);
        }
    }

    pub fn len(&self) -> (n: usize)
        ensures
            n == self.spec_len(),
    {
        self.entries.len()
    }

    /// The key of entry `i`.
    pub fn key_at(&self, i: usize) -> (k: &String)
        requires
            i < self.spec_len(),
        ensures
            k@ == self.spec_entries()[i as int].0,
    {
        &self.entries[i].0
    }

    /// The value of entry `i`.
    pub fn value_at(&self, i: usize) -> (v: &V)
        requires
            i < self.spec_len(),
        ensures
            *v == self.spec_entries()[i as int].1,
    {
        &self.entries[i].1
    }

    /// The index of the entry under `key`.
    fn position(&self, key: &String) -> (r: Option<usize>)
        ensures
            r matches Some(i) ==> i < self.spec_len() && self.spec_entries()[i as int].0 == key@,
            r is None ==> forall|i: int|
                0 <= i < self.spec_len() ==> self.spec_entries()[i].0 != key@,
    {
        let mut i: usize = 0;
        while i < self.entries.len()
            invariant
                0 <= i <= self.entries@.len(),
                forall|j: int| 0 <= j < i ==> self.spec_entries()[j].0 != key@,
            decreases self.entries.len() - i,
        {
            if self.entries[i].0 == *key {
                return Some(i);
            }
            i = i + 1;
        }
        None
    }

    /// The value under `key`, if there is one.
    pub fn get(&self, key: &String) -> (r: Option<&V>)
        ensures
            match r {
                Some(v) => entries_map(self.spec_entries()).contains_key(key@) && *v == entries_map(
                    self.spec_entries(),
                )[key@],
                None => !entries_map(self.spec_entries()).contains_key(key@),
            },
    {
        proof {
            use_type_invariant(self);
        }
        match self.position(key) {
            Some(i) => {
                proof {
                    lemma_entries_map_at(self.spec_entries(), i as int);
                }
                Some(&self.entries[i].1)
            },
            None => None,
        }
    }

    /// Inserts `value` under `key`: replaces the value of an entry with that
    /// key in place, or else appends a new entry.
    pub fn insert(&mut self, key: String, value: V)
        ensures
            final(self).spec_entries() == insert_entry(old(self).spec_entries(), key@, value),
    {
        proof {
            use_type_invariant(&*self);
        }
        match self.position(&key) {
            Some(i) => {
                let ghost old_entries = self.spec_entries();
                let mut entries: Vec<(String, V)> = Vec::new();
                std::mem::swap(&mut entries, &mut self.entries);
                entries.set(i, (key, value));
                proof {
                    let ne = entries@.map_values(|e: (String, V)| (e.0@, e.1));
                    assert(ne =~= old_entries.update(i as int, (key@, value)));
                    assert(distinct_keys(ne)) by {
                        assert forall|a: int, b: int|
                            0 <= a < ne.len() && 0 <= b < ne.len() && a != b implies #[trigger] ne[a].0
                            != #[trigger] ne[b].0 by {
                            assert(old_entries[a].0 != old_entries[b].0);
                        }
                    }
                }
                self.entries = entries;
                proof {
                    assert(self.spec_entries() =~= old_entries.update(i as int, (key@, value)));
                    let c = choose|c: int| 0 <= c < old_entries.len() && old_entries[c].0 == key@;
                    if c != i {
                        assert(old_entries[c].0 != old_entries[i as int].0);
                    }
                }
            },
            None => {
                let ghost old_entries = self.spec_entries();
                let mut entries: Vec<(String, V)> = Vec::new();
                std::mem::swap(&mut entries, &mut self.entries);
                entries.push((key, value));
                proof {
                    let ne = entries@.map_values(|e: (String, V)| (e.0@, e.1));
                    assert(ne =~= old_entries.push((key@, value)));
                    assert(distinct_keys(ne)) by {
                        assert forall|a: int, b: int|
                            0 <= a < ne.len() && 0 <= b < ne.len() && a != b implies #[trigger] ne[a].0
                            != #[trigger] ne[b].0 by {
                            if a < old_entries.len() && b < old_entries.len() {
                                assert(old_entries[a].0 != old_entries[b].0);
                            }
                        }
                    }
                }
                self.entries = entries;
                assert(self.spec_entries() =~= old_entries.push((key@, value)));
            },
        }
    }
}

/// The entries after inserting `value` under `key`.
pub open spec fn insert_entry<V>(entries: Seq<(Seq<char>, V)>, key: Seq<char>, value: V) -> Seq<
    (Seq<char>, V),
> {
    if exists|i: int| 0 <= i < entries.len() && entries[i].0 == key {
        let i = choose|i: int| 0 <= i < entries.len() && entries[i].0 == key;
        entries.update(i, (key, value))
    } else {
        entries.push((key, value))
    }
}

/// Inserting keeps the keys distinct, and the table then maps the key to
/// the inserted value and every other key to what it mapped before.
pub proof fn law_insert_then_get<V>(entries: Seq<(Seq<char>, V)>, key: Seq<char>, value: V)
    requires
        distinct_keys(entries),
    ensures
        distinct_keys(insert_entry(entries, key, value)),
        entries_map(insert_entry(entries, key, value)) == entries_map(entries).insert(key, value),
{
    let ne = insert_entry(entries, key, value);
    if exists|i: int| 0 <= i < entries.len() && entries[i].0 == key {
        let i = choose|i: int| 0 <= i < entries.len() && entries[i].0 == key;
        assert(ne == entries.update(i, (key, value)));
        assert(distinct_keys(ne)) by {
            assert forall|a: int, b: int|
                0 <= a < ne.len() && 0 <= b < ne.len() && a != b implies #[trigger] ne[a].0 != #[trigger] ne[b].0 by {
                assert(entries[a].0 != entries[b].0);
            }
        }
    } else {
        assert(ne == entries.push((key, value)));
        assert(distinct_keys(ne)) by {
            assert forall|a: int, b: int|
                0 <= a < ne.len() && 0 <= b < ne.len() && a != b implies #[trigger] ne[a].0 != #[trigger] ne[b].0 by {
                if a < entries.len() && b < entries.len() {
                    assert(entries[a].0 != entries[b].0);
                }
            }
        }
    }
    let m1 = entries_map(ne);
    let m2 = entries_map(entries).insert(key, value);
    assert forall|k: Seq<char>| #[trigger] m1.contains_key(k) <==> m2.contains_key(k) by {
        if m2.contains_key(k) && k != key {
            let j = choose|j: int| 0 <= j < entries.len() && entries[j].0 == k;
            assert(ne[j].0 == k);
        }
        if k == key {
            if exists|i: int| 0 <= i < entries.len() && entries[i].0 == key {
                let i = choose|i: int| 0 <= i < entries.len() && entries[i].0 == key;
                assert(ne[i].0 == key);
            } else {
                assert(ne[entries.len() as int].0 == key);
            }
        }
        if m1.contains_key(k) && k != key {
            let j = choose|j: int| 0 <= j < ne.len() && ne[j].0 == k;
            assert(j < entries.len());
            assert(entries[j].0 == k);
        }
    }
    assert forall|k: Seq<char>| #[trigger] m1.contains_key(k) implies m1[k] == m2[k] by {
        let j = choose|j: int| 0 <= j < ne.len() && ne[j].0 == k;
        lemma_entries_map_at(ne, j);
        if k != key {
            assert(j < entries.len() && entries[j] == ne[j]);
            lemma_entries_map_at(entries, j);
        }
    }
    assert(m1 =~= m2);
}

} // verus!
