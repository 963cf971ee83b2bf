//! Plain values for the identities that a contract handles: addresses of
//! accounts and contracts, and short symbols.

use vstd::prelude::*;

verus! {

/// A value by which ledger entries are found: equal to another exactly when
/// `same` says so.
pub trait Key: Sized {
    fn same(&self, other: &Self) -> (r: bool)
        ensures
            r == (*self == *other),
    ;
}

impl Key for u32 {
    fn same(&self, other: &Self) -> (r: bool) {
        *self == *other
    }
}

impl Key for u64 {
    fn same(&self, other: &Self) -> (r: bool) {
        *self == *other
    }
}

impl<A: Key, B: Key> Key for (A, B) {
    fn same(&self, other: &Self) -> (r: bool) {
        self.0.same(&other.0) && self.1.same(&other.1)
    }
}

/// The address of a participant: an account, known by its public key, or a
/// contract, known by its hash.
#[derive(Clone, Copy, Debug, PartialEq, Eq)]
pub enum Address {
    Account([u8; 32]),
    Contract([u8; 32]),
}

/// A short name made of at most 32 letters, digits and underscores, held as
/// its bytes with zeros behind them.
#[derive(Clone, Copy, Debug, PartialEq, Eq)]
pub struct Symbol {
    pub bytes: [u8; 32],
}

/// Compares two blocks of 32 bytes.
fn same_bytes(a: &[u8; 32], b: &[u8; 32]) -> (r: bool)
    ensures
        r == (*a == *b),
{
    let mut i: usize = 0;
    while i < 32
        invariant
            i <= 32,
            forall|j: int| 0 <= j < i ==> a[j] == b[j],
        decreases 32 - i,
    {
        if a[i] != b[i] {
            return false;
        }
        i = i + 1;
    }
    assert(*a =~= *b);
    true
}

impl Key for Address {
    fn same(&self, other: &Self) -> (r: bool) {
        match (self, other) {
            (Address::Account(a), Address::Account(b)) => same_bytes(a, b),
            (Address::Contract(a), Address::Contract(b)) => same_bytes(a, b),
            _ => false,
        }
    }
}

impl Key for Symbol {
    fn same(&self, other: &Self) -> (r: bool) {
        same_bytes(&self.bytes, &other.bytes)
    }
}

} // verus!
