//! Secondary indexes: which invoices stand under a name.

use vstd::prelude::*;
use crate::bytes::{Bytes32, Key, Stored, Text, views};
use crate::lists::{lemma_filter_all, lemma_filter_step};

verus! {

/// A line of an index.
#[derive(Debug)]
pub struct TextRef {
    pub key: Text,
    pub id: Bytes32,
}

pub struct TextRefView {
    pub key: Seq<u8>,
    pub id: Bytes32,
}

impl View for TextRef {
    type V = TextRefView;

    open spec fn view(&self) -> TextRefView {
        TextRefView { key: self.key@, id: self.id }
    }
}

pub struct TextIndex {
    pub lines: Vec<TextRef>,
}

impl View for TextIndex {
    type V = Seq<TextRefView>;

    open spec fn view(&self) -> Seq<TextRefView> {
        views(self.lines@)
    }
}

/// An index in which `id` stands under `key`.
pub open spec fn index_add(s: Seq<TextRefView>, key: Seq<u8>, id: Bytes32) -> Seq<TextRefView> {
    let line = TextRefView { key, id };
    if s.contains(line) {
        s
    } else {
        s.push(line)
    }
}

/// What stands under `key`.
pub open spec fn ids_under(s: Seq<TextRefView>, key: Seq<u8>) -> Seq<Bytes32> {
    s.filter(|r: TextRefView| r.key == key).map_values(|r: TextRefView| r.id)
}

/// An index in which `id` stands under each of `keys`.
pub open spec fn index_add_each(s: Seq<TextRefView>, keys: Seq<Seq<u8>>, id: Bytes32) -> Seq<
    TextRefView,
>
    decreases keys.len(),
{
    if keys.len() == 0 {
        s
    } else {
        index_add(index_add_each(s, keys.drop_last(), id), keys.last(), id)
    }
}

impl TextIndex {
    pub fn new() -> (x: TextIndex)
        ensures
            x@ == Seq::<TextRefView>::empty(),
    {
        let x = TextIndex { lines: Vec::new() };
        assert(x@ =~= Seq::<TextRefView>::empty());
        x
    }

    pub fn contains(&self, key: &Text, id: &Bytes32) -> (r: bool)
        ensures
            r == self@.contains(TextRefView { key: key@, id: *id }),
    {
        for i in 0..self.lines.len()
            invariant
                forall|j: int|
                    0 <= j < i ==> #[trigger] self@[j] != (TextRefView { key: key@, id: *id }),
        {
            assert(self@[i as int] == self.lines@[i as int]@);
            if self.lines[i].id == *id && self.lines[i].key.same(key) {
                return true;
            }
        }
        false
    }

    /// Puts `id` under `key`, unless it is there.
    pub fn add_line(&mut self, key: &Text, id: &Bytes32)
        ensures
            final(self)@ == index_add(old(self)@, key@, *id),
    {
        if !self.contains(key, id) {
            let ghost before = self@;
            self.lines.push(TextRef { key: key.dup(), id: *id });
            assert(self@ =~= before.push(TextRefView { key: key@, id: *id }));
        }
    }

    /// Puts `id` under each of `keys`.
    pub fn add_each(&mut self, keys: &Vec<Text>, id: &Bytes32)
        ensures
            final(self)@ == index_add_each(old(self)@, views(keys@), *id),
    {
        let ghost before = self@;
        let ghost all = views(keys@);
        assert(all.take(0) =~= Seq::<Seq<u8>>::empty());
        for i in 0..keys.len()
            invariant
                all == views(keys@),
                self@ == index_add_each(before, all.take(i as int), *id),
        {
            self.add_line(&keys[i], id);
            proof {
                assert(all.take(i + 1).drop_last() =~= all.take(i as int));
                assert(all.take(i + 1).last() == keys@[i as int]@);
            }
        }
        assert(all.take(all.len() as int) =~= all);
    }

    /// What stands under `key`, in the order in which it was put there.
    pub fn find(&self, key: &Text) -> (ids: Vec<Bytes32>)
        ensures
            ids@ == ids_under(self@, key@),
    {
        let ghost p = |r: TextRefView| r.key == key@;
        let ghost f = |r: TextRefView| r.id;
        let mut ids: Vec<Bytes32> = Vec::new();
        proof {
            lemma_filter_all(self@, p);
            assert(ids@ =~= self@.take(0).filter(p).map_values(f));
        }
        for i in 0..self.lines.len()
            invariant
                p == (|r: TextRefView| r.key == key@),
                f == (|r: TextRefView| r.id),
                ids@ == self@.take(i as int).filter(p).map_values(f),
        {
            proof {
                lemma_filter_step(self@, i as int, p);
                assert(self@[i as int] == self.lines@[i as int]@);
            }
            if self.lines[i].key.same(key) {
                ids.push(self.lines[i].id);
                assert(ids@ =~= self@.take(i + 1).filter(p).map_values(f));
            }
        }
        ids
    }
}

/// Adding a line keeps the lines that are there.
pub proof fn lemma_index_add_keeps(s: Seq<TextRefView>, key: Seq<u8>, id: Bytes32)
    ensures
        index_add(s, key, id).contains(TextRefView { key, id }),
        forall|r: TextRefView| s.contains(r) ==> #[trigger] index_add(s, key, id).contains(r),
{
    let t = index_add(s, key, id);
    let line = TextRefView { key, id };
    if !s.contains(line) {
        assert(t[s.len() as int] == line);
        assert forall|r: TextRefView| s.contains(r) implies #[trigger] t.contains(r) by {
            let i = s.index_of(r);
            assert(t[i] == r);
        }
    }
}

/// Adding lines keeps the lines that are there, and holds each new one.
pub proof fn lemma_index_add_each_keeps(s: Seq<TextRefView>, keys: Seq<Seq<u8>>, id: Bytes32)
    ensures
        forall|i: int|
            0 <= i < keys.len() ==> index_add_each(s, keys, id).contains(
                TextRefView { key: #[trigger] keys[i], id },
            ),
        forall|r: TextRefView| s.contains(r) ==> #[trigger] index_add_each(s, keys, id).contains(r),
    decreases keys.len(),
{
    if keys.len() > 0 {
        lemma_index_add_each_keeps(s, keys.drop_last(), id);
        let t = index_add_each(s, keys.drop_last(), id);
        lemma_index_add_keeps(t, keys.last(), id);
        assert forall|i: int| 0 <= i < keys.len() implies index_add_each(s, keys, id).contains(
            TextRefView { key: #[trigger] keys[i], id },
        ) by {
            if i < keys.len() - 1 {
                assert(keys.drop_last()[i] == keys[i]);
                assert(t.contains(TextRefView { key: keys[i], id }));
            }
        }
    }
}

/// Adding lines adds no others.
pub proof fn lemma_index_add_each_adds(s: Seq<TextRefView>, keys: Seq<Seq<u8>>, id: Bytes32)
    ensures
        forall|r: TextRefView| #[trigger]
            index_add_each(s, keys, id).contains(r) ==> s.contains(r) || r.id == id
                && keys.contains(r.key),
    decreases keys.len(),
{
    if keys.len() > 0 {
        let k0 = keys.drop_last();
        lemma_index_add_each_adds(s, k0, id);
        let t = index_add_each(s, k0, id);
        assert forall|r: TextRefView| #[trigger] index_add_each(s, keys, id).contains(
            r,
        ) implies s.contains(r) || r.id == id && keys.contains(r.key) by {
            if t.contains(r) {
                assert(s.contains(r) || r.id == id && k0.contains(r.key));
                if k0.contains(r.key) {
                    assert(keys[k0.index_of(r.key)] == r.key);
                }
            } else {
                assert(keys[keys.len() - 1] == r.key);
            }
        }
    }
}

} // verus!
