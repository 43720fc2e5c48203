//! Caller identities. An identity is a `candid::Principal`, handed in by the
//! host and only ever compared for equality.

use candid::Principal;
use vstd::prelude::*;

verus! {

#[verifier::external_type_specification]
#[verifier::external_body]
pub struct ExPrincipal(Principal);

/// Relies on the derived `PartialEq` of `candid::Principal`, which compares
/// its length and its whole byte buffer: two principals compare equal exactly
/// when they are the same value.
#[verifier::external_body]
pub(crate) fn same_principal(a: &Principal, b: &Principal) -> (r: bool)
    ensures
        r == (*a == *b),
{
    a == b
}

/// Whether `who` occurs in `list`.
pub fn contains_principal(list: &Vec<Principal>, who: &Principal) -> (r: bool)
    ensures
        r == list@.contains(*who),
{
    let mut i: usize = 0;
    while i < list.len()
        invariant
            i <= list@.len(),
            forall|j: int| 0 <= j < i ==> list@[j] != *who,
        decreases list@.len() - i,
    {
        if same_principal(&list[i], who) {
            assert(list@[i as int] == *who);
            return true;
        }
        i = i + 1;
    }
    false
}

/// An element-by-element copy of a vector of plain values.
pub fn copy_all<T: Copy>(v: &Vec<T>) -> (r: Vec<T>)
    ensures
        r@ == v@,
{
    let mut r: Vec<T> = Vec::new();
    let mut i: usize = 0;
    while i < v.len()
        invariant
            i <= v@.len(),
            r@ == v@.subrange(0, i as int),
        decreases v@.len() - i,
    {
        r.push(v[i]);
        i = i + 1;
        assert(r@ =~= v@.subrange(0, i as int));
    }
    assert(v@.subrange(0, v@.len() as int) =~= v@);
    r
}

} // verus!
