//! An association table keyed by strings, in which no key occurs twice.
//!
//! The table keeps its entries in the order in which their keys first
//! arrived, so that everything computed from it is deterministic.

use vstd::prelude::*;

verus! {

/// No key occurs twice among the entries.
pub open spec fn keys_unique<T>(s: Seq<(Seq<char>, T)>) -> bool {
    forall|i: int, j: int|
        0 <= i < s.len() && 0 <= j < s.len() && i != j ==> #[trigger] s[i].0 != #[trigger] s[j].0
}

/// Some entry has key `k`.
pub open spec fn has_key<T>(s: Seq<(Seq<char>, T)>, k: Seq<char>) -> bool {
    exists|i: int| 0 <= i < s.len() && #[trigger] s[i].0 == k
}

/// The position of the entry with key `k` (meaningful when `has_key(s, k)`).
pub open spec fn key_index<T>(s: Seq<(Seq<char>, T)>, k: Seq<char>) -> int {
    choose|i: int| 0 <= i < s.len() && #[trigger] s[i].0 == k
}

/// The value stored under `k` (meaningful when `has_key(s, k)`).
pub open spec fn value_for<T>(s: Seq<(Seq<char>, T)>, k: Seq<char>) -> T {
    s[key_index(s, k)].1
}

/// The entries after storing `v` under `k`: in place where `k` is present,
/// at the end where it is not.
pub open spec fn table_insert<T>(s: Seq<(Seq<char>, T)>, k: Seq<char>, v: T) -> Seq<(Seq<char>, T)> {
    if has_key(s, k) {
        s.update(key_index(s, k), (k, v))
    } else {
        s.push((k, v))
    }
}

/// The entries after taking out the one with key `k`, if any.
pub open spec fn table_remove<T>(s: Seq<(Seq<char>, T)>, k: Seq<char>) -> Seq<(Seq<char>, T)> {
    if has_key(s, k) {
        s.remove(key_index(s, k))
    } else {
        s
    }
}

/// In a table with unique keys, the entry at `i` is the one found under its key.
pub proof fn lemma_key_index<T>(s: Seq<(Seq<char>, T)>, i: int)
    requires
        keys_unique(s),
        0 <= i < s.len(),
    ensures
        has_key(s, s[i].0),
        key_index(s, s[i].0) == i,
        value_for(s, s[i].0) == s[i].1,
{
    assert(s[i].0 == s[i].0);
    let j = key_index(s, s[i].0);
    assert(0 <= j < s.len() && s[j].0 == s[i].0);
}

/// Storing under a key keeps the keys unique.
pub proof fn lemma_insert_unique<T>(s: Seq<(Seq<char>, T)>, k: Seq<char>, v: T)
    requires
        keys_unique(s),
    ensures
        keys_unique(table_insert(s, k, v)),
        has_key(table_insert(s, k, v), k),
        value_for(table_insert(s, k, v), k) == v,
        forall|q: Seq<char>| has_key(table_insert(s, k, v), q) <==> (has_key(s, q) || q == k),
{
    let t = table_insert(s, k, v);
    if has_key(s, k) {
        let j = key_index(s, k);
        assert forall|a: int, b: int|
            0 <= a < t.len() && 0 <= b < t.len() && a != b implies #[trigger] t[a].0 != #[trigger] t[b].0 by {
            if a != j && b != j {
                assert(t[a] == s[a] && t[b] == s[b]);
            } else if a == j {
                assert(t[b] == s[b]);
                assert(s[j].0 == k);
            } else {
                assert(t[a] == s[a]);
                assert(s[j].0 == k);
            }
        }
        lemma_key_index(t, j);
        assert forall|q: Seq<char>| has_key(t, q) <==> (has_key(s, q) || q == k) by {
            if has_key(t, q) {
                let a = key_index(t, q);
                if a != j {
                    assert(t[a] == s[a]);
                }
            }
            if has_key(s, q) && q != k {
                let a = key_index(s, q);
                assert(t[a] == s[a]);
            }
        }
    } else {
        assert forall|a: int, b: int|
            0 <= a < t.len() && 0 <= b < t.len() && a != b implies #[trigger] t[a].0 != #[trigger] t[b].0 by {
            if a < s.len() && b < s.len() {
                assert(t[a] == s[a] && t[b] == s[b]);
            } else if a < s.len() {
                assert(t[a] == s[a]);
            } else {
                assert(t[b] == s[b]);
            }
        }
        lemma_key_index(t, s.len() as int);
        assert forall|q: Seq<char>| has_key(t, q) <==> (has_key(s, q) || q == k) by {
            if has_key(t, q) {
                let a = key_index(t, q);
                if a < s.len() {
                    assert(t[a] == s[a]);
                }
            }
            if has_key(s, q) {
                let a = key_index(s, q);
                assert(t[a] == s[a]);
            }
        }
    }
}

/// Taking out an entry keeps the keys unique, and the key is gone.
pub proof fn lemma_remove_unique<T>(s: Seq<(Seq<char>, T)>, k: Seq<char>)
    requires
        keys_unique(s),
    ensures
        keys_unique(table_remove(s, k)),
        !has_key(table_remove(s, k), k),
        forall|q: Seq<char>| q != k ==> (has_key(table_remove(s, k), q) <==> has_key(s, q)),
{
    let t = table_remove(s, k);
    if has_key(s, k) {
        let j = key_index(s, k);
        assert forall|a: int, b: int|
            0 <= a < t.len() && 0 <= b < t.len() && a != b implies #[trigger] t[a].0 != #[trigger] t[b].0 by {
            let a2 = if a < j { a } else { a + 1 };
            let b2 = if b < j { b } else { b + 1 };
            assert(t[a] == s[a2] && t[b] == s[b2]);
        }
        if has_key(t, k) {
            let a = key_index(t, k);
            let a2 = if a < j { a } else { a + 1 };
            assert(t[a] == s[a2]);
        }
        assert forall|q: Seq<char>| q != k implies (has_key(t, q) <==> has_key(s, q)) by {
            if has_key(t, q) {
                let a = key_index(t, q);
                let a2 = if a < j { a } else { a + 1 };
                assert(t[a] == s[a2]);
            }
            if has_key(s, q) {
                let a = key_index(s, q);
                assert(a != j);
                let a2 = if a < j { a } else { a - 1 };
                assert(t[a2] == s[a]);
            }
        }
    }
}

/// A table from string keys to values. Entries keep the order in which
/// their keys first arrived; no key occurs twice.
#[derive(Debug)]
pub struct StrMap<V: View> {
    entries: Vec<(String, V)>,
}

impl<V: View> View for StrMap<V> {
    type V = Seq<(Seq<char>, V::V)>;

    closed spec fn view(&self) -> Seq<(Seq<char>, V::V)> {
        self.entries@.map_values(|e: (String, V)| (e.0@, e.1@))
    }
}

impl<V: View> StrMap<V> {
    #[verifier::type_invariant]
    closed spec fn inv(self) -> bool {
        keys_unique(self@)
    }

    /// An empty table.
    pub fn new() -> (m: Self)
        ensures
            m@ == Seq::<(Seq<char>, V::V)>::empty(),
    {
        let m = StrMap { entries: Vec::new() };
        assert(m@ =~= Seq::<(Seq<char>, V::V)>::empty());
        m
    }

    /// The number of entries.
    pub fn len(&self) -> (n: usize)
        ensures
            n == self@.len(),
            keys_unique(self@),
    {
        proof { use_type_invariant(self); }
        self.entries.len()
    }

    /// Whether the table has no entry.
    pub fn is_empty(&self) -> (b: bool)
        ensures
            b == (self@.len() == 0),
    {
        self.entries.len() == 0
    }

    /// The position of the entry with key `k`, if any.
    pub fn find(&self, k: &str) -> (r: Option<usize>)
        ensures
            match r {
                Some(i) => i < self@.len() && self@[i as int].0 == k@ && key_index(self@, k@) == i,
                None => !has_key(self@, k@),
            },
            keys_unique(self@),
    {
        proof { use_type_invariant(self); }
        let key = k.to_owned();
        let mut i: usize = 0;
        while i < self.entries.len()
            invariant
                i <= self@.len(),
                self@.len() == self.entries@.len(),
                key@ == k@,
                keys_unique(self@),
                forall|j: int| 0 <= j < i ==> self@[j].0 != k@,
            decreases self.entries@.len() - i,
        {
            if self.entries[i].0 == key {
                proof {
                    assert(self@[i as int] == (self.entries@[i as int].0@, self.entries@[i as int].1@));
                    lemma_key_index(self@, i as int);
                }
                return Some(i);
            }
            assert(self@[i as int] == (self.entries@[i as int].0@, self.entries@[i as int].1@));
            i = i + 1;
        }
        None
    }

    /// Whether some entry has key `k`.
    pub fn contains_key(&self, k: &str) -> (b: bool)
        ensures
            b == has_key(self@, k@),
    {
        match self.find(k) {
            Some(_) => true,
            None => false,
        }
    }

    /// The key of the entry at `i`.
    pub fn key_at(&self, i: usize) -> (k: &String)
        requires
            i < self@.len(),
        ensures
            k@ == self@[i as int].0,
            keys_unique(self@),
    {
        proof { use_type_invariant(self); }
        &self.entries[i].0
    }

    /// The value of the entry at `i`.
    pub fn value_at(&self, i: usize) -> (v: &V)
        requires
            i < self@.len(),
        ensures
            v@ == self@[i as int].1,
            keys_unique(self@),
    {
        proof { use_type_invariant(self); }
        &self.entries[i].1
    }

    /// The value stored under `k`, if any.
    pub fn get(&self, k: &str) -> (r: Option<&V>)
        ensures
            r is Some <==> has_key(self@, k@),
            r matches Some(v) ==> v@ == value_for(self@, k@),
    {
        match self.find(k) {
            Some(i) => Some(&self.entries[i].1),
            None => None,
        }
    }

    /// Stores `v` under `k`: in place of the old value where `k` is present
    /// (which is handed back), at the end where it is not.
    pub fn insert(&mut self, k: String, v: V) -> (r: Option<V>)
        ensures
            keys_unique(old(self)@),
            final(self)@ == table_insert(old(self)@, k@, v@),
            r is Some <==> has_key(old(self)@, k@),
            r matches Some(o) ==> o@ == value_for(old(self)@, k@),
    {
        proof { use_type_invariant(&*self); }
        let found = self.find(k.as_str());
        let mut entries: Vec<(String, V)> = Vec::new();
        std::mem::swap(&mut entries, &mut self.entries);
        let ghost before = entries@;
        match found {
            Some(i) => {
                let (old_k, old_v) = entries.remove(i);
                entries.insert(i, (k, v));
                proof {
                    assert(old(self)@[i as int] == (old_k@, old_v@));
                    let s = entries@.map_values(|e: (String, V)| (e.0@, e.1@));
                    assert(s =~= table_insert(old(self)@, k@, v@));
                    lemma_insert_unique(old(self)@, k@, v@);
                }
                self.entries = entries;
                Some(old_v)
            },
            None => {
                entries.push((k, v));
                proof {
                    let s = entries@.map_values(|e: (String, V)| (e.0@, e.1@));
                    assert(s =~= table_insert(old(self)@, k@, v@));
                    lemma_insert_unique(old(self)@, k@, v@);
                }
                self.entries = entries;
                None
            },
        }
    }

    /// Takes out the entry with key `k`, if any, and hands back its value;
    /// the other entries keep their order.
    pub fn remove(&mut self, k: &str) -> (r: Option<V>)
        ensures
            keys_unique(old(self)@),
            final(self)@ == table_remove(old(self)@, k@),
            r is Some <==> has_key(old(self)@, k@),
            r matches Some(o) ==> o@ == value_for(old(self)@, k@),
    {
        proof { use_type_invariant(&*self); }
        let found = self.find(k);
        match found {
            Some(i) => {
                let mut entries: Vec<(String, V)> = Vec::new();
                std::mem::swap(&mut entries, &mut self.entries);
                let (old_k, old_v) = entries.remove(i);
                proof {
                    assert(old(self)@[i as int] == (old_k@, old_v@));
                    let s = entries@.map_values(|e: (String, V)| (e.0@, e.1@));
                    assert(s =~= table_remove(old(self)@, k@));
                    lemma_remove_unique(old(self)@, k@);
                }
                self.entries = entries;
                Some(old_v)
            },
            None => None,
        }
    }

    /// Puts `v` in place of the value of the entry at `i`, and hands back
    /// the value that stood there.
    pub fn replace_at(&mut self, i: usize, v: V) -> (r: V)
        requires
            i < old(self)@.len(),
        ensures
            keys_unique(old(self)@),
            final(self)@ == old(self)@.update(i as int, (old(self)@[i as int].0, v@)),
            r@ == old(self)@[i as int].1,
    {
        proof { use_type_invariant(&*self); }
        let mut entries: Vec<(String, V)> = Vec::new();
        std::mem::swap(&mut entries, &mut self.entries);
        let (key, old_v) = entries.remove(i);
        entries.insert(i, (key, v));
        proof {
            let s = entries@.map_values(|e: (String, V)| (e.0@, e.1@));
            let t = old(self)@.update(i as int, (old(self)@[i as int].0, v@));
            assert(s =~= t);
            assert forall|a: int, b: int|
                0 <= a < t.len() && 0 <= b < t.len() && a != b implies #[trigger] t[a].0 != #[trigger] t[b].0 by {
                assert(t[a].0 == old(self)@[a].0 && t[b].0 == old(self)@[b].0);
            }
        }
        self.entries = entries;
        old_v
    }
}

} // verus!
