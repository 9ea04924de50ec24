//! A map that remembers the order in which its keys came in.

use vstd::prelude::*;
use crate::bytes::{Key, Stored, holds, views};
use crate::lists::{lemma_filter_all, lemma_filter_step};

verus! {

pub struct Entry<K, V> {
    pub key: K,
    pub val: V,
}

pub struct Table<K, V> {
    pub entries: Vec<Entry<K, V>>,
}

/// What a table holds: its keys, each once, in the order in which they came in,
/// and the value under each.
#[verifier::ext_equal]
#[verifier::reject_recursive_types(K)]
pub struct TableView<K, V> {
    pub keys: Seq<K>,
    pub map: Map<K, V>,
}

impl<K, V> TableView<K, V> {
    pub open spec fn empty() -> TableView<K, V> {
        TableView { keys: Seq::empty(), map: Map::empty() }
    }

    pub open spec fn wf(self) -> bool {
        &&& self.keys.no_duplicates()
        &&& forall|k: K| #[trigger] self.map.contains_key(k) <==> self.keys.contains(k)
    }

    pub open spec fn has(self, k: K) -> bool {
        self.map.contains_key(k)
    }

    pub open spec fn get(self, k: K) -> Option<V> {
        if self.map.contains_key(k) {
            Some(self.map[k])
        } else {
            None
        }
    }

    /// The table with `v` under `k`. A new key goes to the end.
    pub open spec fn put(self, k: K, v: V) -> TableView<K, V> {
        TableView {
            keys: if self.map.contains_key(k) { self.keys } else { self.keys.push(k) },
            map: self.map.insert(k, v),
        }
    }

    /// The table without the keys in `gone`.
    pub open spec fn without(self, gone: Seq<K>) -> TableView<K, V> {
        TableView {
            keys: self.keys.filter(|k: K| !gone.contains(k)),
            map: Map::new(|k: K| self.map.contains_key(k) && !gone.contains(k), |k: K| self.map[k]),
        }
    }

    pub open spec fn len(self) -> nat {
        self.keys.len()
    }

    /// The values, in the order of the keys.
    pub open spec fn values(self) -> Seq<V> {
        self.keys.map_values(|k: K| self.map[k])
    }
}

pub open spec fn entry_keys<K: View, V>(s: Seq<Entry<K, V>>) -> Seq<K::V> {
    s.map_values(|e: Entry<K, V>| e.key@)
}

impl<K: View, V: View> View for Table<K, V> {
    type V = TableView<K::V, V::V>;

    open spec fn view(&self) -> TableView<K::V, V::V> {
        let keys = entry_keys(self.entries@);
        TableView {
            keys,
            map: Map::new(
                |k: K::V| keys.contains(k),
                |k: K::V| self.entries@[keys.index_of(k)].val@,
            ),
        }
    }
}

impl<K: Key, V: Stored> Table<K, V> {
    pub fn new() -> (t: Table<K, V>)
        ensures
            t@ == TableView::<K::V, V::V>::empty(),
            t@.wf(),
    {
        let t = Table { entries: Vec::new() };
        assert(t@ =~= TableView::<K::V, V::V>::empty());
        t
    }

    fn find(&self, key: &K) -> (at: Option<usize>)
        ensures
            match at {
                Some(i) => i < self.entries@.len() && self.entries@[i as int].key@ == key@,
                None => !self@.has(key@),
            },
    {
        for i in 0..self.entries.len()
            invariant
                forall|j: int| 0 <= j < i ==> #[trigger] entry_keys(self.entries@)[j] != key@,
        {
            if self.entries[i].key.same(key) {
                return Some(i);
            }
        }
        None
    }

    proof fn lemma_entry(&self, i: int)
        requires
            self@.wf(),
            0 <= i < self.entries@.len(),
        ensures
            self@.keys[i] == self.entries@[i].key@,
            self@.has(self.entries@[i].key@),
            self@.map[self.entries@[i].key@] == self.entries@[i].val@,
    {
        let keys = entry_keys(self.entries@);
        assert(keys[i] == self.entries@[i].key@);
        assert(keys.contains(keys[i]));
    }

    pub fn has(&self, key: &K) -> (r: bool)
        requires
            self@.wf(),
        ensures
            r == self@.has(key@),
    {
        match self.find(key) {
            Some(i) => {
                proof {
                    self.lemma_entry(i as int);
                }
                true
            },
            None => false,
        }
    }

    pub fn get(&self, key: &K) -> (v: Option<V>)
        requires
            self@.wf(),
        ensures
            crate::bytes::view_opt(v) == self@.get(key@),
            v is Some <==> self@.has(key@),
            v matches Some(x) ==> x@ == self@.map[key@],
    {
        match self.find(key) {
            Some(i) => {
                proof {
                    self.lemma_entry(i as int);
                }
                Some(self.entries[i].val.dup())
            },
            None => None,
        }
    }

    pub fn put(&mut self, key: K, val: V)
        requires
            old(self)@.wf(),
        ensures
            final(self)@ == old(self)@.put(key@, val@),
            final(self)@.wf(),
    {
        let ghost before = *self;
        let ghost keys = entry_keys(self.entries@);
        match self.find(&key) {
            Some(i) => {
                proof {
                    self.lemma_entry(i as int);
                }
                let e = Entry { key, val };
                self.entries[i] = e;
                proof {
                    assert(entry_keys(self.entries@) =~= keys);
                    assert forall|k: K::V| keys.contains(k) implies #[trigger] self@.map[k]
                        == before@.put(key@, val@).map[k] by {
                        let j = keys.index_of(k);
                        assert(keys[j] == k);
                    }
                    assert(self@ =~= before@.put(key@, val@));
                }
            },
            None => {
                let e = Entry { key, val };
                self.entries.push(e);
                proof {
                    let after = entry_keys(self.entries@);
                    assert(after =~= keys.push(key@));
                    assert(after.no_duplicates());
                    assert forall|k: K::V| #[trigger] after.contains(k) <==> keys.contains(k) || k
                        == key@ by {
                        if keys.contains(k) {
                            let j = keys.index_of(k);
                            assert(after[j] == k);
                        }
                        assert(after[keys.len() as int] == key@);
                    }
                    assert(self@.wf());
                    assert forall|k: K::V| after.contains(k) implies #[trigger] self@.map[k]
                        == before@.put(key@, val@).map[k] by {
                        let j = after.index_of(k);
                        self.lemma_entry(j);
                        if j < keys.len() {
                            before.lemma_entry(j);
                        }
                    }
                    assert(self@ =~= before@.put(key@, val@));
                }
            },
        }
    }
}

/// What overwriting the value under a key does to the list of values.
pub proof fn lemma_values_replaced<K, V>(t: TableView<K, V>, i: int, v: V)
    requires
        t.wf(),
        0 <= i < t.keys.len(),
    ensures
        t.has(t.keys[i]),
        t.values()[i] == t.map[t.keys[i]],
        t.put(t.keys[i], v).values() == t.values().update(i, v),
        t.put(t.keys[i], v).wf(),
{
    let k = t.keys[i];
    assert(t.keys.contains(k));
    assert(t.put(k, v).values() =~= t.values().update(i, v));
}

/// What a new key does to the list of values.
pub proof fn lemma_values_pushed<K, V>(t: TableView<K, V>, k: K, v: V)
    requires
        t.wf(),
        !t.has(k),
    ensures
        t.put(k, v).values() == t.values().push(v),
        t.put(k, v).wf(),
{
    let after = t.put(k, v);
    assert forall|j: int| 0 <= j < t.keys.len() implies #[trigger] after.values()[j]
        == t.values()[j] by {
        assert(t.keys.contains(t.keys[j]));
    }
    assert(after.values() =~= t.values().push(v));
    assert(!t.keys.contains(k));
    assert(after.keys.no_duplicates());
    assert forall|j: K| #[trigger] after.map.contains_key(j) <==> after.keys.contains(j) by {
        if t.keys.contains(j) {
            let n = t.keys.index_of(j);
            assert(after.keys[n] == j);
        }
        assert(after.keys[t.keys.len() as int] == k);
    }
}

/// A key has a place.
pub proof fn lemma_place<K, V>(t: TableView<K, V>, k: K) -> (i: int)
    requires
        t.wf(),
        t.has(k),
    ensures
        0 <= i < t.keys.len(),
        t.keys[i] == k,
        t.values()[i] == t.map[k],
{
    t.keys.index_of(k)
}

/// Tables with the same keys and the same values are the same.
pub proof fn lemma_same_table<K, V>(a: TableView<K, V>, b: TableView<K, V>)
    requires
        a.wf(),
        b.wf(),
        a.keys == b.keys,
        a.values() == b.values(),
    ensures
        a == b,
{
    assert forall|k: K| a.map.contains_key(k) implies a.map[k] == b.map[k] by {
        let i = lemma_place(a, k);
        assert(b.values()[i] == b.map[k]);
    }
    assert(a =~= b);
}

impl<K: Key, V: Stored> Table<K, V> {
    pub fn len(&self) -> (n: usize)
        ensures
            n == self@.len(),
    {
        self.entries.len()
    }

    /// The key at a place.
    pub fn key_at(&self, i: usize) -> (k: K)
        requires
            i < self@.len(),
        ensures
            k@ == self@.keys[i as int],
    {
        self.entries[i].key.dup()
    }

    /// The value at a place.
    pub fn value_at(&self, i: usize) -> (v: V)
        requires
            self@.wf(),
            i < self@.len(),
        ensures
            v@ == self@.values()[i as int],
    {
        proof {
            self.lemma_entry(i as int);
        }
        self.entries[i].val.dup()
    }

    /// The value at a place, without a copy.
    pub fn peek(&self, i: usize) -> (v: &V)
        requires
            self@.wf(),
            i < self@.len(),
        ensures
            v@ == self@.values()[i as int],
    {
        proof {
            self.lemma_entry(i as int);
        }
        &self.entries[i].val
    }

    /// The keys, in the order in which they came in.
    pub fn keys(&self) -> (ks: Vec<K>)
        ensures
            views(ks@) == self@.keys,
    {
        let mut ks: Vec<K> = Vec::new();
        for i in 0..self.entries.len()
            invariant
                ks@.len() == i,
                forall|j: int| 0 <= j < i ==> #[trigger] ks@[j]@ == self@.keys[j],
        {
            ks.push(self.entries[i].key.dup());
        }
        assert(views(ks@) =~= self@.keys);
        ks
    }
}

/// A table without some of its keys is a table.
pub proof fn lemma_without_wf<K, V>(t: TableView<K, V>, gone: Seq<K>)
    requires
        t.wf(),
    ensures
        t.without(gone).wf(),
{
    let p = |k: K| !gone.contains(k);
    let w = t.without(gone);
    lemma_filter_no_duplicates(t.keys, p);
    assert forall|k: K| #[trigger] w.map.contains_key(k) <==> w.keys.contains(k) by {
        if w.map.contains_key(k) {
            let i = t.keys.index_of(k);
            t.keys.lemma_filter_contains(p, i);
        }
        if w.keys.contains(k) {
            t.keys.lemma_filter_contains_rev(p, k);
            let i = w.keys.index_of(k);
            t.keys.lemma_filter_pred(p, i);
        }
    }
}

/// Filtering brings in no second copy of an item.
pub proof fn lemma_filter_no_duplicates<K>(s: Seq<K>, p: spec_fn(K) -> bool)
    requires
        s.no_duplicates(),
    ensures
        s.filter(p).no_duplicates(),
    decreases s.len(),
{
    reveal(Seq::filter);
    if s.len() > 0 {
        let t = s.drop_last();
        lemma_filter_no_duplicates(t, p);
        if p(s.last()) && t.filter(p).contains(s.last()) {
            t.lemma_filter_contains_rev(p, s.last());
        }
    }
}

impl<K: Key, V: Stored> Table<K, V> {
    /// Removes the given keys.
    pub fn remove_all(&mut self, gone: &Vec<K>)
        requires
            old(self)@.wf(),
        ensures
            final(self)@ == old(self)@.without(views(gone@)),
            final(self)@.wf(),
    {
        let ghost v = self@;
        let ghost p = |k: K::V| !views(gone@).contains(k);
        let mut kept: Table<K, V> = Table::new();
        proof {
            lemma_filter_all(v.keys, p);
        }
        let total = self.len();
        for i in 0..total
            invariant
                self@ == v,
                v.wf(),
                total == v.len(),
                p == (|k: K::V| !views(gone@).contains(k)),
                kept@.wf(),
                kept@.keys == v.keys.take(i as int).filter(p),
                forall|k: K::V| #[trigger] kept@.has(k) ==> v.has(k) && kept@.map[k] == v.map[k],
        {
            let key = self.key_at(i);
            proof {
                lemma_filter_step(v.keys, i as int, p);
                assert(v.keys.contains(key@));
            }
            if !holds(gone, &key) {
                proof {
                    if kept@.has(key@) {
                        assert(kept@.keys.contains(key@));
                        v.keys.take(i as int).lemma_filter_contains_rev(p, key@);
                        let j = v.keys.take(i as int).index_of(key@);
                        assert(v.keys[j] == key@);
                    }
                }
                let ghost before = kept@;
                let val = self.value_at(i);
                assert(v.has(key@) && val@ == v.map[key@]);
                kept.put(key, val);
                assert forall|k: K::V| #[trigger] kept@.has(k) implies v.has(k) && kept@.map[k]
                    == v.map[k] by {
                    if k != key@ {
                        assert(before.has(k));
                    }
                }
            }
        }
        proof {
            let w = v.without(views(gone@));
            lemma_without_wf(v, views(gone@));
            assert(kept@.keys == w.keys);
            assert forall|k: K::V| #[trigger] w.map.contains_key(k) implies kept@.map[k]
                == w.map[k] by {
                assert(w.keys.contains(k));
                assert(kept@.has(k));
            }
            assert(kept@.map =~= w.map);
        }
        *self = kept;
    }
}

} // verus!
