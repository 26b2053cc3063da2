//! Shared handles. A handle stands for the value it points at: sharing is an
//! optimisation and never part of what a function promises.

use std::sync::Arc;
use vstd::prelude::*;

verus! {

/// `Arc::ptr_eq` tells whether two handles point at one allocation. Which
/// handles do depends on how they were made, so the only claim is that handles
/// to one allocation hold the same value.
#[verifier::external_body]
pub(crate) fn same_allocation<T>(a: &Arc<T>, b: &Arc<T>) -> (r: bool)
    ensures
        r ==> *a == *b,
{
    Arc::ptr_eq(a, b)
}

/// `Arc::clone` hands out another handle to the same value.
#[verifier::external_body]
pub(crate) fn share<T>(a: &Arc<T>) -> (r: Arc<T>)
    ensures
        r == *a,
{
    Arc::clone(a)
}

} // verus!
