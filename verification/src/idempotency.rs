//! Which requests have been carried out, and with what result.

use vstd::prelude::*;
use crate::bytes::{Address, Bytes32};
use crate::table::{Table, TableView};

verus! {

/// What marks a request: the caller's nonce, or who bid on what with which salt.
#[derive(Clone, Copy, PartialEq, Eq, Structural, Debug)]
pub enum IdempotencyKey {
    Nonce(Bytes32),
    BidOn { invoice_id: Bytes32, investor: Address, salt: Bytes32 },
}

pub struct Idempotency {
    pub marks: Vec<IdempotencyKey>,
    pub results: Table<Bytes32, Bytes32>,
}

#[verifier::ext_equal]
pub struct IdempotencyView {
    pub marks: Set<IdempotencyKey>,
    pub results: TableView<Bytes32, Bytes32>,
}

impl IdempotencyView {
    pub open spec fn marked(self, key: IdempotencyKey) -> IdempotencyView {
        IdempotencyView { marks: self.marks.insert(key), ..self }
    }

    pub open spec fn answered(self, nonce: Bytes32, result: Bytes32) -> IdempotencyView {
        IdempotencyView { results: self.results.put(nonce, result), ..self }
    }

    pub open spec fn has_nonce(self, nonce: Bytes32) -> bool {
        self.marks.contains(IdempotencyKey::Nonce(nonce))
    }
}

impl View for Idempotency {
    type V = IdempotencyView;

    open spec fn view(&self) -> IdempotencyView {
        IdempotencyView { marks: self.marks@.to_set(), results: self.results@ }
    }
}

impl Idempotency {
    pub fn new() -> (s: Idempotency)
        ensures
            s@.marks == Set::<IdempotencyKey>::empty(),
            s@.results == TableView::<Bytes32, Bytes32>::empty(),
            s@.results.wf(),
    {
        let s = Idempotency { marks: Vec::new(), results: Table::new() };
        assert(s@.marks =~= Set::<IdempotencyKey>::empty());
        s
    }

    pub fn idempotency_exists(&self, key: &IdempotencyKey) -> (r: bool)
        ensures
            r == self@.marks.contains(*key),
    {
        for i in 0..self.marks.len()
            invariant
                forall|j: int| 0 <= j < i ==> self.marks@[j] != *key,
        {
            if self.marks[i] == *key {
                assert(self.marks@.contains(*key));
                return true;
            }
        }
        false
    }

    pub fn store_idempotency(&mut self, key: &IdempotencyKey)
        ensures
            final(self)@ == old(self)@.marked(*key),
    {
        let ghost before = self.marks@;
        self.marks.push(*key);
        proof {
            assert forall|k: IdempotencyKey| #[trigger] self.marks@.contains(k) <==> before.contains(
                k,
            ) || k == *key by {
                if before.contains(k) {
                    assert(self.marks@[before.index_of(k)] == k);
                }
                assert(self.marks@[before.len() as int] == *key);
            }
            assert(self@.marks =~= old(self)@.marks.insert(*key));
        }
    }

    pub fn get_idempotency_result(&self, nonce: &Bytes32) -> (r: Option<Bytes32>)
        requires
            self@.results.wf(),
        ensures
            r == self@.results.get(*nonce),
    {
        self.results.get(nonce)
    }

    pub fn store_idempotency_result(&mut self, nonce: &Bytes32, result: &Bytes32)
        requires
            old(self)@.results.wf(),
        ensures
            final(self)@ == old(self)@.answered(*nonce, *result),
            final(self)@.results.wf(),
    {
        self.results.put(*nonce, *result);
    }
}

} // verus!
