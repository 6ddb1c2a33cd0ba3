//! A small ordered table from string keys to string values, used for a
//! session's aliases and environment variables.

use vstd::prelude::*;

verus! {

/// An entry of a table, as plain character sequences.
pub type Entry = (Seq<char>, Seq<char>);

/// No key occurs twice among the entries.
pub open spec fn keys_unique(es: Seq<Entry>) -> bool {
    forall|i: int, j: int| 0 <= i < j < es.len() ==> es[i].0 != es[j].0
}

/// The position of the last entry with key `k`, or -1 when there is none.
pub open spec fn find_key(es: Seq<Entry>, k: Seq<char>) -> int
    decreases es.len(),
{
    if es.len() == 0 {
        -1
    } else if es.last().0 == k {
        es.len() - 1
    } else {
        find_key(es.drop_last(), k)
    }
}

/// The value stored under `k`, if any.
pub open spec fn lookup(es: Seq<Entry>, k: Seq<char>) -> Option<Seq<char>> {
    let i = find_key(es, k);
    if i >= 0 {
        Some(es[i].1)
    } else {
        None
    }
}

/// The entries after setting `k` to `v`: an existing entry is updated in
/// place, a new key is appended.
pub open spec fn table_insert(es: Seq<Entry>, k: Seq<char>, v: Seq<char>) -> Seq<Entry> {
    let i = find_key(es, k);
    if i >= 0 {
        es.update(i, (k, v))
    } else {
        es.push((k, v))
    }
}

/// The entries after removing the entry with key `k`, if there is one.
pub open spec fn table_remove(es: Seq<Entry>, k: Seq<char>) -> Seq<Entry> {
    let i = find_key(es, k);
    if i >= 0 {
        es.remove(i)
    } else {
        es
    }
}

proof fn lemma_find_key_range(es: Seq<Entry>, k: Seq<char>)
    ensures
        -1 <= find_key(es, k) < es.len(),
        find_key(es, k) >= 0 ==> es[find_key(es, k)].0 == k,
    decreases es.len(),
{
    if es.len() > 0 && es.last().0 != k {
        lemma_find_key_range(es.drop_last(), k);
    }
}

proof fn lemma_find_key_absent(es: Seq<Entry>, k: Seq<char>)
    requires
        forall|j: int| 0 <= j < es.len() ==> es[j].0 != k,
    ensures
        find_key(es, k) == -1,
    decreases es.len(),
{
    if es.len() > 0 {
        assert(es.last().0 != k);
        lemma_find_key_absent(es.drop_last(), k);
    }
}

proof fn lemma_find_key_at(es: Seq<Entry>, k: Seq<char>, i: int)
    requires
        keys_unique(es),
        0 <= i < es.len(),
        es[i].0 == k,
    ensures
        find_key(es, k) == i,
    decreases es.len(),
{
    if i < es.len() - 1 {
        assert(es.last().0 != k);
        lemma_find_key_at(es.drop_last(), k, i);
    }
}

/// An ordered table of string keys and values with unique keys. Entries stay
/// in the order in which their keys were first set.
pub struct VarTable {
    keys: Vec<String>,
    vals: Vec<String>,
}

impl VarTable {
    /// The entries, in order.
    pub closed spec fn entries(&self) -> Seq<Entry> {
        Seq::new(self.keys@.len(), |i: int| (self.keys@[i]@, self.vals@[i]@))
    }

    /// The table is well formed: keys and values pair up and keys are unique.
    pub closed spec fn wf(&self) -> bool {
        &&& self.keys@.len() == self.vals@.len()
        &&& keys_unique(self.entries())
    }

    /// Creates an empty table.
    pub fn new() -> (r: VarTable)
        ensures
            r.wf(),
            r.entries() == Seq::<Entry>::empty(),
    {
        let r = VarTable { keys: Vec::new(), vals: Vec::new() };
        assert(r.entries() =~= Seq::<Entry>::empty());
        r
    }

    /// The number of entries.
    pub fn len(&self) -> (r: usize)
        requires
            self.wf(),
        ensures
            r == self.entries().len(),
    {
        self.keys.len()
    }

    /// Whether the table holds no entry.
    pub fn is_empty(&self) -> (r: bool)
        requires
            self.wf(),
        ensures
            r == (self.entries().len() == 0),
    {
        self.keys.len() == 0
    }

    /// The key of the entry at position `i`.
    pub fn key_at(&self, i: usize) -> (r: &String)
        requires
            self.wf(),
            i < self.entries().len(),
        ensures
            r@ == self.entries()[i as int].0,
    {
        &self.keys[i]
    }

    /// The value of the entry at position `i`.
    pub fn value_at(&self, i: usize) -> (r: &String)
        requires
            self.wf(),
            i < self.entries().len(),
        ensures
            r@ == self.entries()[i as int].1,
    {
        &self.vals[i]
    }

    /// The position of the entry with key `key`.
    fn position(&self, key: &str) -> (r: Option<usize>)
        requires
            self.wf(),
        ensures
            match r {
                Some(i) => i < self.entries().len() && find_key(self.entries(), key@) == i as int,
                None => find_key(self.entries(), key@) == -1,
            },
    {
        let mut i: usize = 0;
        while i < self.keys.len()
            invariant
                self.wf(),
                i <= self.keys@.len(),
                forall|j: int| 0 <= j < i ==> self.entries()[j].0 != key@,
            decreases self.keys@.len() - i,
        {
            if crate::text::str_equal(self.keys[i].as_str(), key) {
                proof {
                    lemma_find_key_at(self.entries(), key@, i as int);
                }
                return Some(i);
            }
            i = i + 1;
        }
        proof {
            lemma_find_key_absent(self.entries(), key@);
        }
        None
    }

    /// The value stored under `key`, if any.
    pub fn get(&self, key: &str) -> (r: Option<&String>)
        requires
            self.wf(),
        ensures
            r.is_some() == lookup(self.entries(), key@).is_some(),
            r.is_some() ==> r.unwrap()@ == lookup(self.entries(), key@).unwrap(),
    {
        match self.position(key) {
            Some(i) => Some(&self.vals[i]),
            None => None,
        }
    }

    /// Sets `key` to `value`, replacing the value of an existing entry.
    pub fn insert(&mut self, key: String, value: String)
        requires
            old(self).wf(),
        ensures
            final(self).wf(),
            final(self).entries() == table_insert(old(self).entries(), key@, value@),
    {
        let ghost es = self.entries();
        match self.position(key.as_str()) {
            Some(i) => {
                proof {
                    lemma_find_key_range(es, key@);
                }
                self.vals.set(i, value);
                assert(self.entries() =~= es.update(i as int, (key@, value@)));
            },
            None => {
                proof {
                    lemma_find_key_absent_inv(es, key@);
                }
                self.keys.push(key);
                self.vals.push(value);
                assert(self.entries() =~= es.push((key@, value@)));
            },
        }
    }

    /// Removes the entry with key `key`; says whether there was one.
    pub fn remove(&mut self, key: &str) -> (r: bool)
        requires
            old(self).wf(),
        ensures
            final(self).wf(),
            r == lookup(old(self).entries(), key@).is_some(),
            final(self).entries() == table_remove(old(self).entries(), key@),
    {
        let ghost es = self.entries();
        match self.position(key) {
            Some(i) => {
                self.keys.remove(i);
                self.vals.remove(i);
                assert(self.entries() =~= es.remove(i as int));
                true
            },
            None => false,
        }
    }
}

proof fn lemma_find_key_absent_inv(es: Seq<Entry>, k: Seq<char>)
    requires
        find_key(es, k) == -1,
    ensures
        forall|j: int| 0 <= j < es.len() ==> es[j].0 != k,
    decreases es.len(),
{
    if es.len() > 0 {
        lemma_find_key_absent_inv(es.drop_last(), k);
        assert forall|j: int| 0 <= j < es.len() implies es[j].0 != k by {
            if j < es.len() - 1 {
                assert(es[j] == es.drop_last()[j]);
            }
        }
    }
}

} // verus!
