//! Plain values: 32-byte identifiers, account addresses and byte strings.

use vstd::prelude::*;

verus! {

/// The big-endian number held by the eight bytes of `s` that start at `at`.
pub open spec fn be64(s: Seq<u8>, at: int) -> int {
    s[at] * 0x100_0000_0000_0000 + s[at + 1] * 0x1_0000_0000_0000 + s[at + 2] * 0x100_0000_0000
        + s[at + 3] * 0x1_0000_0000 + s[at + 4] * 0x100_0000 + s[at + 5] * 0x1_0000 + s[at + 6]
        * 0x100 + s[at + 7]
}

/// 32 bytes, as four big-endian words.
#[derive(Clone, Copy, PartialEq, Eq, Structural, Debug)]
pub struct Bytes32 {
    pub w0: u64,
    pub w1: u64,
    pub w2: u64,
    pub w3: u64,
}

/// The identifier whose bytes are `s`.
pub open spec fn bytes32(s: Seq<u8>) -> Bytes32 {
    Bytes32 {
        w0: be64(s, 0) as u64,
        w1: be64(s, 8) as u64,
        w2: be64(s, 16) as u64,
        w3: be64(s, 24) as u64,
    }
}

fn read_word(a: &[u8; 32], at: usize) -> (w: u64)
    requires
        at <= 24,
    ensures
        w == be64(a@, at as int),
{
    let mut w: u64 = a[at] as u64;
    w = w * 256 + a[at + 1] as u64;
    w = w * 256 + a[at + 2] as u64;
    w = w * 256 + a[at + 3] as u64;
    w = w * 256 + a[at + 4] as u64;
    w = w * 256 + a[at + 5] as u64;
    w = w * 256 + a[at + 6] as u64;
    w * 256 + a[at + 7] as u64
}

fn write_word(a: &mut [u8; 32], at: usize, w: u64)
    requires
        at <= 24,
    ensures
        be64(final(a)@, at as int) == w,
        forall|i: int| 0 <= i < 32 && !(at <= i < at + 8) ==> final(a)@[i] == old(a)@[i],
{
    let v1: u64 = w / 256;
    let v2: u64 = v1 / 256;
    let v3: u64 = v2 / 256;
    let v4: u64 = v3 / 256;
    let v5: u64 = v4 / 256;
    let v6: u64 = v5 / 256;
    let v7: u64 = v6 / 256;
    a[at] = v7 as u8;
    a[at + 1] = (v6 % 256) as u8;
    a[at + 2] = (v5 % 256) as u8;
    a[at + 3] = (v4 % 256) as u8;
    a[at + 4] = (v3 % 256) as u8;
    a[at + 5] = (v2 % 256) as u8;
    a[at + 6] = (v1 % 256) as u8;
    a[at + 7] = (w % 256) as u8;
}

impl Bytes32 {
    pub fn from_array(a: &[u8; 32]) -> (id: Bytes32)
        ensures
            id == bytes32(a@),
    {
        Bytes32 {
            w0: read_word(a, 0),
            w1: read_word(a, 8),
            w2: read_word(a, 16),
            w3: read_word(a, 24),
        }
    }

    /// The bytes of the identifier: `from_array` takes them back to it.
    pub fn to_array(&self) -> (a: [u8; 32])
        ensures
            bytes32(a@) == *self,
    {
        let mut a: [u8; 32] = [0u8; 32];
        write_word(&mut a, 0, self.w0);
        write_word(&mut a, 8, self.w1);
        write_word(&mut a, 16, self.w2);
        write_word(&mut a, 24, self.w3);
        a
    }
}

/// The address of an account (its public key) or of a contract (its hash).
#[derive(Clone, Copy, PartialEq, Eq, Structural, Debug)]
pub enum Address {
    Account(Bytes32),
    Contract(Bytes32),
}

/// A byte string.
#[derive(Debug)]
pub struct Text {
    pub bytes: Vec<u8>,
}

impl View for Bytes32 {
    type V = Bytes32;

    open spec fn view(&self) -> Bytes32 {
        *self
    }
}

impl View for Address {
    type V = Address;

    open spec fn view(&self) -> Address {
        *self
    }
}

impl View for Text {
    type V = Seq<u8>;

    open spec fn view(&self) -> Seq<u8> {
        self.bytes@
    }
}

/// The views of the items of a sequence.
pub open spec fn views<T: View>(s: Seq<T>) -> Seq<T::V> {
    s.map_values(|t: T| t@)
}

/// The view of an optional value.
pub open spec fn view_opt<T: View>(o: Option<T>) -> Option<T::V> {
    match o {
        Some(t) => Some(t@),
        None => None,
    }
}

/// A value that can be kept in the ledger and copied out of it.
pub trait Stored: View + Sized {
    fn dup(&self) -> (copy: Self)
        ensures
            copy@ == self@,
    ;
}

/// A stored value by which others are found.
pub trait Key: Stored {
    fn same(&self, other: &Self) -> (r: bool)
        ensures
            r == (self@ == other@),
    ;
}

impl Stored for Bytes32 {
    fn dup(&self) -> (copy: Bytes32) {
        *self
    }
}

impl Key for Bytes32 {
    fn same(&self, other: &Bytes32) -> (r: bool) {
        *self == *other
    }
}

impl Stored for Address {
    fn dup(&self) -> (copy: Address) {
        *self
    }
}

impl Key for Address {
    fn same(&self, other: &Address) -> (r: bool) {
        *self == *other
    }
}

impl Text {
    /// The byte string with the given bytes.
    pub fn new(bytes: Vec<u8>) -> (t: Text)
        ensures
            t@ == bytes@,
    {
        Text { bytes }
    }

    pub fn empty() -> (t: Text)
        ensures
            t@ == Seq::<u8>::empty(),
    {
        Text { bytes: Vec::new() }
    }

    pub fn len(&self) -> (n: usize)
        ensures
            n == self@.len(),
    {
        self.bytes.len()
    }
}

impl Stored for Text {
    fn dup(&self) -> (copy: Text) {
        let mut bytes: Vec<u8> = Vec::new();
        for i in 0..self.bytes.len()
            invariant
                bytes@ == self.bytes@.take(i as int),
        {
            bytes.push(self.bytes[i]);
        }
        assert(self.bytes@.take(self.bytes@.len() as int) == self.bytes@);
        Text { bytes }
    }
}

impl Key for Text {
    fn same(&self, other: &Text) -> (r: bool) {
        if self.bytes.len() != other.bytes.len() {
            return false;
        }
        for i in 0..self.bytes.len()
            invariant
                self.bytes@.len() == other.bytes@.len(),
                forall|j: int| 0 <= j < i ==> self.bytes@[j] == other.bytes@[j],
        {
            if self.bytes[i] != other.bytes[i] {
                return false;
            }
        }
        assert(self@ =~= other@);
        true
    }
}

/// Copies every item of a list.
pub fn dup_all<T: Stored>(v: &Vec<T>) -> (copy: Vec<T>)
    ensures
        views(copy@) == views(v@),
{
    let mut copy: Vec<T> = Vec::new();
    for i in 0..v.len()
        invariant
            copy@.len() == i,
            forall|j: int| 0 <= j < i ==> copy@[j]@ == #[trigger] v@[j]@,
    {
        copy.push(v[i].dup());
    }
    assert(views(copy@) =~= views(v@));
    copy
}

/// Copies an optional value.
pub fn dup_opt<T: Stored>(o: &Option<T>) -> (copy: Option<T>)
    ensures
        view_opt(copy) == view_opt(*o),
{
    match o {
        Some(t) => Some(t.dup()),
        None => None,
    }
}

/// Whether a list holds a value.
pub fn holds<K: Key>(v: &Vec<K>, key: &K) -> (r: bool)
    ensures
        r == views(v@).contains(key@),
{
    for i in 0..v.len()
        invariant
            forall|j: int| 0 <= j < i ==> #[trigger] views(v@)[j] != key@,
    {
        assert(views(v@)[i as int] == v@[i as int]@);
        if v[i].same(key) {
            return true;
        }
    }
    false
}

} // verus!
