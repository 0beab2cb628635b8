//! A keyed store from string keys to values of one type.
//!
//! The store owns its values; callers receive copies. Its state is a sequence
//! of entries with pairwise distinct keys, seen by contracts as a `Map`.
use std::sync::Arc;
use vstd::prelude::*;

verus! {

/// No key occurs twice among the entries.
pub open spec fn keys_distinct<T>(s: Seq<(Seq<char>, T)>) -> bool {
    forall|i: int, j: int| 0 <= i < j < s.len() ==> s[i].0 != s[j].0
}

/// Some entry of `s` has the key `k`.
pub open spec fn has_key<T>(s: Seq<(Seq<char>, T)>, k: Seq<char>) -> bool {
    exists|i: int| 0 <= i < s.len() && #[trigger] s[i].0 == k
}

/// The position of an entry with key `k`, where there is one.
pub open spec fn key_index<T>(s: Seq<(Seq<char>, T)>, k: Seq<char>) -> int {
    choose|i: int| 0 <= i < s.len() && #[trigger] s[i].0 == k
}

/// The mapping that a sequence of entries stands for.
pub open spec fn entries_map<T>(s: Seq<(Seq<char>, T)>) -> Map<Seq<char>, T> {
    Map::new(|k: Seq<char>| has_key(s, k), |k: Seq<char>| s[key_index(s, k)].1)
}

/// The value stored under `k`, if any.
pub open spec fn lookup<T>(s: Seq<(Seq<char>, T)>, k: Seq<char>) -> Option<T> {
    if has_key(s, k) {
        Some(s[key_index(s, k)].1)
    } else {
        None
    }
}

/// The entries after an unconditional write of `v` under `k`: an entry with
/// that key is overwritten in place, a new key goes to the end.
pub open spec fn put_entries<T>(s: Seq<(Seq<char>, T)>, k: Seq<char>, v: T) -> Seq<(Seq<char>, T)> {
    if has_key(s, k) {
        s.update(key_index(s, k), (k, v))
    } else {
        s.push((k, v))
    }
}

/// The entries after the removal of `k`: the others keep their order.
pub open spec fn delete_entries<T>(s: Seq<(Seq<char>, T)>, k: Seq<char>) -> Seq<(Seq<char>, T)> {
    if has_key(s, k) {
        s.remove(key_index(s, k))
    } else {
        s
    }
}

/// Among distinct keys a key has one position only.
pub proof fn lemma_key_index_unique<T>(s: Seq<(Seq<char>, T)>, i: int)
    requires
        keys_distinct(s),
        0 <= i < s.len(),
    ensures
        has_key(s, s[i].0),
        key_index(s, s[i].0) == i,
        lookup(s, s[i].0) == Some(s[i].1),
{
    let j = key_index(s, s[i].0);
    assert(0 <= j < s.len() && s[j].0 == s[i].0);
    if j < i {
        assert(s[j].0 != s[i].0);
    } else if i < j {
        assert(s[i].0 != s[j].0);
    }
}

/// A write keeps the keys distinct and acts on the mapping as `Map::insert`.
pub proof fn lemma_put_entries<T>(s: Seq<(Seq<char>, T)>, k: Seq<char>, v: T)
    requires
        keys_distinct(s),
    ensures
        keys_distinct(put_entries(s, k, v)),
        entries_map(put_entries(s, k, v)) == entries_map(s).insert(k, v),
        lookup(put_entries(s, k, v), k) == Some(v),
        forall|other: Seq<char>| other != k ==> lookup(put_entries(s, k, v), other) == lookup(s, other),
{
    let t = put_entries(s, k, v);
    if has_key(s, k) {
        let i = key_index(s, k);
        assert(forall|j: int| 0 <= j < s.len() ==> t[j].0 == s[j].0);
        assert(keys_distinct(t));
        lemma_key_index_unique(t, i);
        assert forall|other: Seq<char>| other != k implies lookup(t, other) == lookup(s, other) by {
            if has_key(s, other) {
                let j = key_index(s, other);
                assert(t[j].0 == other);
                lemma_key_index_unique(t, j);
            } else if has_key(t, other) {
                let j = key_index(t, other);
                assert(s[j].0 == other);
            }
        }
    } else {
        assert(forall|j: int| 0 <= j < s.len() ==> t[j] == s[j]);
        assert forall|a: int, b: int| 0 <= a < b < t.len() implies t[a].0 != t[b].0 by {
            if b == s.len() {
                assert(s[a].0 != k);
            }
        }
        lemma_key_index_unique(t, s.len() as int);
        assert forall|other: Seq<char>| other != k implies lookup(t, other) == lookup(s, other) by {
            if has_key(s, other) {
                let j = key_index(s, other);
                assert(t[j].0 == other);
                lemma_key_index_unique(t, j);
            } else if has_key(t, other) {
                let j = key_index(t, other);
                assert(s[j].0 == other);
            }
        }
    }
    lemma_lookup_map(s);
    lemma_lookup_map(t);
    assert(entries_map(t) =~= entries_map(s).insert(k, v)) by {
        assert forall|other: Seq<char>| true implies (entries_map(t).contains_key(other)
            <==> entries_map(s).insert(k, v).contains_key(other)) by {
            if other != k {
                assert(lookup(t, other) == lookup(s, other));
            }
        }
        assert forall|other: Seq<char>| entries_map(t).contains_key(other) implies entries_map(t)[other]
            == entries_map(s).insert(k, v)[other] by {
            if other != k {
                assert(lookup(t, other) == lookup(s, other));
            }
        }
    }
}

/// A removal keeps the keys distinct and acts on the mapping as `Map::remove`.
pub proof fn lemma_delete_entries<T>(s: Seq<(Seq<char>, T)>, k: Seq<char>)
    requires
        keys_distinct(s),
    ensures
        keys_distinct(delete_entries(s, k)),
        entries_map(delete_entries(s, k)) == entries_map(s).remove(k),
        lookup(delete_entries(s, k), k) == None::<T>,
        forall|other: Seq<char>| other != k ==> lookup(delete_entries(s, k), other) == lookup(s, other),
{
    let t = delete_entries(s, k);
    if has_key(s, k) {
        let i = key_index(s, k);
        assert(forall|j: int| 0 <= j < i ==> t[j] == s[j]);
        assert(forall|j: int| i <= j < t.len() ==> t[j] == s[j + 1]);
        assert forall|a: int, b: int| 0 <= a < b < t.len() implies t[a].0 != t[b].0 by {
            let a2 = if a < i { a } else { a + 1 };
            let b2 = if b < i { b } else { b + 1 };
            assert(s[a2].0 != s[b2].0);
        }
        if has_key(t, k) {
            let j = key_index(t, k);
            let j2 = if j < i { j } else { j + 1 };
            assert(s[j2].0 == k);
            lemma_key_index_unique(s, j2);
        }
        assert forall|other: Seq<char>| other != k implies lookup(t, other) == lookup(s, other) by {
            if has_key(s, other) {
                let j = key_index(s, other);
                let j2 = if j < i { j } else { j - 1 };
                assert(t[j2].0 == other);
                lemma_key_index_unique(t, j2);
            } else if has_key(t, other) {
                let j = key_index(t, other);
                let j2 = if j < i { j } else { j + 1 };
                assert(s[j2].0 == other);
            }
        }
    }
    lemma_lookup_map(s);
    lemma_lookup_map(t);
    assert(entries_map(t) =~= entries_map(s).remove(k)) by {
        assert forall|other: Seq<char>| true implies (entries_map(t).contains_key(other)
            <==> entries_map(s).remove(k).contains_key(other)) by {
            if other != k {
                assert(lookup(t, other) == lookup(s, other));
            }
        }
        assert forall|other: Seq<char>| entries_map(t).contains_key(other) implies entries_map(t)[other]
            == entries_map(s).remove(k)[other] by {
            if other != k {
                assert(lookup(t, other) == lookup(s, other));
            }
        }
    }
}

/// Distinct keys make the mapping as large as the sequence.
pub proof fn lemma_entries_map_len<T>(s: Seq<(Seq<char>, T)>)
    requires
        keys_distinct(s),
    ensures
        entries_map(s).dom().finite(),
        entries_map(s).len() == s.len(),
    decreases s.len(),
{
    if s.len() == 0 {
        assert(entries_map(s).dom() =~= Set::<Seq<char>>::empty());
    } else {
        let p = s.drop_last();
        let k = s.last().0;
        let v = s.last().1;
        assert(forall|i: int| 0 <= i < p.len() ==> p[i] == s[i]);
        assert(keys_distinct(p));
        lemma_entries_map_len(p);
        if has_key(p, k) {
            let i = key_index(p, k);
            assert(s[i].0 != s[s.len() - 1].0);
        }
        assert(put_entries(p, k, v) =~= s);
        lemma_put_entries(p, k, v);
        assert(entries_map(s).dom() =~= entries_map(p).dom().insert(k));
        assert(!entries_map(p).dom().contains(k));
    }
}

/// An unconditional write is idempotent: after a write of `v1` and then of
/// `v2` under one key, the key holds `v2`; and the same write made twice
/// leaves the store as it is after the first.
pub proof fn law_put_idempotent<T>(s: Seq<(Seq<char>, T)>, k: Seq<char>, v1: T, v2: T)
    requires
        keys_distinct(s),
    ensures
        lookup(put_entries(put_entries(s, k, v1), k, v2), k) == Some(v2),
        entries_map(put_entries(put_entries(s, k, v1), k, v2)) == entries_map(s).insert(k, v2),
        put_entries(put_entries(s, k, v2), k, v2) == put_entries(s, k, v2),
{
    let once = put_entries(s, k, v1);
    lemma_put_entries(s, k, v1);
    lemma_put_entries(once, k, v2);
    assert(entries_map(s).insert(k, v1).insert(k, v2) =~= entries_map(s).insert(k, v2));
    let same = put_entries(s, k, v2);
    lemma_put_entries(s, k, v2);
    assert(same[key_index(same, k)] == (k, v2));
    assert(put_entries(same, k, v2) =~= same);
}

/// A removal is final: the key is gone afterwards, and a second removal finds
/// nothing and changes nothing.
pub proof fn law_delete_final<T>(s: Seq<(Seq<char>, T)>, k: Seq<char>)
    requires
        keys_distinct(s),
    ensures
        lookup(delete_entries(s, k), k) == None::<T>,
        !entries_map(delete_entries(s, k)).contains_key(k),
        delete_entries(delete_entries(s, k), k) == delete_entries(s, k),
{
    lemma_delete_entries(s, k);
    lemma_lookup_map(delete_entries(s, k));
}

/// `lookup` reads the mapping.
pub proof fn lemma_lookup_map<T>(s: Seq<(Seq<char>, T)>)
    ensures
        forall|k: Seq<char>| #[trigger] entries_map(s).contains_key(k) <==> lookup(s, k) is Some,
        forall|k: Seq<char>| #[trigger]
            entries_map(s).contains_key(k) ==> lookup(s, k) == Some(entries_map(s)[k]),
{
}

/// The plain form of stored entries: each key by its characters.
pub open spec fn plain_entries<T>(s: Seq<(String, T)>) -> Seq<(Seq<char>, T)> {
    s.map_values(|e: (String, T)| (e.0@, e.1))
}

/// `r` is a copy of the entries `s`, entry by entry and in their order.
pub open spec fn is_snapshot<T: Clone>(s: Seq<(Seq<char>, T)>, r: Seq<(String, T)>) -> bool {
    &&& r.len() == s.len()
    &&& forall|i: int| 0 <= i < s.len() ==> (#[trigger] r[i]).0@ == s[i].0 && cloned(s[i].1, r[i].1)
}

/// A store from string keys to values. No key occurs twice in it; an entry
/// keeps its place when it is overwritten, and a new key goes to the end.
#[derive(Debug)]
pub struct Container<T> {
    items: Vec<(String, T)>,
}

impl<T> View for Container<T> {
    type V = Map<Seq<char>, T>;

    open spec fn view(&self) -> Map<Seq<char>, T> {
        entries_map(self.entries())
    }
}

impl<T> Default for Container<T> {
    fn default() -> (c: Self)
        ensures
            c.entries() == Seq::<(Seq<char>, T)>::empty(),
            c@ == Map::<Seq<char>, T>::empty(),
    {
        Container::new()
    }
}

impl<T> Container<T> {
    #[verifier::type_invariant]
    spec fn inv(self) -> bool {
        keys_distinct(plain_entries(self.items@))
    }

    /// The entries in the order in which the store holds them.
    pub closed spec fn entries(&self) -> Seq<(Seq<char>, T)> {
        plain_entries(self.items@)
    }

    /// An empty store behind a shared pointer, for readers that share it.
    pub fn new_arc() -> (c: Arc<Container<T>>)
        ensures
            c.entries() == Seq::<(Seq<char>, T)>::empty(),
            c@ == Map::<Seq<char>, T>::empty(),
    {
        Arc::new(Container::<T>::new())
    }

    /// An empty store.
    pub fn new() -> (c: Self)
        ensures
            c.entries() == Seq::<(Seq<char>, T)>::empty(),
            c@ == Map::<Seq<char>, T>::empty(),
    {
        let c = Container { items: Vec::new() };
        assert(c@ =~= Map::<Seq<char>, T>::empty());
        c
    }

    /// The position of `key` among the entries, if it is stored.
    fn find(&self, key: &str) -> (r: Option<usize>)
        ensures
            match r {
                Some(i) => i < self.entries().len() && self.entries()[i as int].0 == key@,
                None => !has_key(self.entries(), key@),
            },
    {
        let wanted = key.to_owned();
        let mut i: usize = 0;
        while i < self.items.len()
            invariant
                i <= self.items.len(),
                wanted@ == key@,
                forall|j: int| 0 <= j < i ==> self.entries()[j].0 != key@,
            decreases self.items.len() - i,
        {
            if self.items[i].0 == wanted {
                return Some(i);
            }
            i += 1;
        }
        None
    }

    /// Moves the entries out and leaves the store empty.
    fn take_items(&mut self) -> (items: Vec<(String, T)>)
        ensures
            items@ == old(self).items@,
            final(self).items@ == Seq::<(String, T)>::empty(),
    {
        let mut items: Vec<(String, T)> = Vec::new();
        core::mem::swap(&mut self.items, &mut items);
        items
    }

    /// A copy of the value stored under `key`, if there is one.
    pub fn get_by_id(&self, key: &str) -> (r: Option<T>) where T: Clone
        ensures
            match r {
                Some(v) => self@.contains_key(key@) && cloned(self@[key@], v),
                None => !self@.contains_key(key@),
            },
    {
        proof {
            use_type_invariant(self);
            lemma_lookup_map(self.entries());
        }
        match self.find(key) {
            Some(i) => {
                proof {
                    lemma_key_index_unique(self.entries(), i as int);
                }
                Some(self.items[i].1.clone())
            },
            None => None,
        }
    }

    /// A copy of the whole table, in the order of `entries`.
    pub fn get_all(&self) -> (r: Vec<(String, T)>) where T: Clone
        ensures
            is_snapshot(self.entries(), r@),
            keys_distinct(self.entries()),
    {
        proof {
            use_type_invariant(self);
        }
        let mut out: Vec<(String, T)> = Vec::new();
        let mut i: usize = 0;
        while i < self.items.len()
            invariant
                i <= self.items.len(),
                out@.len() == i,
                forall|j: int|
                    0 <= j < i ==> (#[trigger] out@[j]).0@ == self.entries()[j].0 && cloned(
                        self.entries()[j].1,
                        out@[j].1,
                    ),
            decreases self.items.len() - i,
        {
            let key = self.items[i].0.clone();
            let value = self.items[i].1.clone();
            out.push((key, value));
            i += 1;
        }
        out
    }

    /// Whether `key` is stored.
    pub fn _get_is(&self, key: &str) -> (r: bool)
        ensures
            r == self@.contains_key(key@),
    {
        self.find(key).is_some()
    }

    /// Stores `value` under `key`, whatever was there, and hands back what was.
    pub fn put_by_id(&mut self, key: &str, value: T) -> (r: Option<T>)
        ensures
            final(self)@ == old(self)@.insert(key@, value),
            r == lookup(old(self).entries(), key@),
            r is Some <==> old(self)@.contains_key(key@),
            r is Some ==> r == Some(old(self)@[key@]),
            final(self).entries() == put_entries(old(self).entries(), key@, value),
    {
        proof {
            use_type_invariant(&*self);
            lemma_lookup_map(self.entries());
            lemma_put_entries(self.entries(), key@, value);
        }
        match self.find(key) {
            Some(i) => {
                proof {
                    lemma_key_index_unique(self.entries(), i as int);
                }
                let mut items = self.take_items();
                let (_, previous) = items.remove(i);
                items.insert(i, (key.to_owned(), value));
                assert(plain_entries(items@) =~= put_entries(old(self).entries(), key@, value));
                self.items = items;
                Some(previous)
            },
            None => {
                let mut items = self.take_items();
                items.push((key.to_owned(), value));
                assert(plain_entries(items@) =~= put_entries(old(self).entries(), key@, value));
                self.items = items;
                None
            },
        }
    }

    /// Removes `key` and hands back its value; `None` where it was not stored.
    pub fn delete_by_id(&mut self, key: &str) -> (r: Option<T>)
        ensures
            final(self)@ == old(self)@.remove(key@),
            r == lookup(old(self).entries(), key@),
            r is Some <==> old(self)@.contains_key(key@),
            r is Some ==> r == Some(old(self)@[key@]),
            final(self).entries() == delete_entries(old(self).entries(), key@),
    {
        proof {
            use_type_invariant(&*self);
            lemma_lookup_map(self.entries());
            lemma_delete_entries(self.entries(), key@);
        }
        match self.find(key) {
            Some(i) => {
                proof {
                    lemma_key_index_unique(self.entries(), i as int);
                }
                let mut items = self.take_items();
                let (_, previous) = items.remove(i);
                assert(plain_entries(items@) =~= delete_entries(old(self).entries(), key@));
                self.items = items;
                Some(previous)
            },
            None => None,
        }
    }

    /// Removes every entry.
    pub fn _delete_all(&mut self)
        ensures
            final(self)@ == Map::<Seq<char>, T>::empty(),
            final(self).entries() == Seq::<(Seq<char>, T)>::empty(),
    {
        let _ = self.take_items();
        assert(self@ =~= Map::<Seq<char>, T>::empty());
    }

    /// The number of entries.
    pub fn _len(&self) -> (n: usize)
        ensures
            n == self.entries().len(),
            self@.dom().finite(),
            n == self@.len(),
            keys_distinct(self.entries()),
    {
        proof {
            use_type_invariant(self);
            lemma_entries_map_len(self.entries());
        }
        self.items.len()
    }

    /// Whether the store holds nothing.
    pub fn _is_empty(&self) -> (r: bool)
        ensures
            r == (self.entries().len() == 0),
            r == (self@ == Map::<Seq<char>, T>::empty()),
    {
        let r = self.items.len() == 0;
        proof {
            if r {
                assert(self@ =~= Map::<Seq<char>, T>::empty());
            } else {
                assert(self.entries()[0].0 == self.entries()[0].0);
                assert(has_key(self.entries(), self.entries()[0].0));
                assert(self@.contains_key(self.entries()[0].0));
            }
        }
        r
    }
}

} // verus!
