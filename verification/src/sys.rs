//! The two platform calls the verified code leans on: duplicating a
//! shared handle, and parking a thread that can make no more progress.
use vstd::prelude::*;

verus! {

use std::sync::Arc;

/// Duplicate a shared handle.
///
/// Relies on `std::sync::Arc::clone`: the result is a handle to the
/// same allocation as `a`, so it carries the very same value.
#[verifier::external_body]
pub(crate) fn arc_clone<T>(a: &Arc<T>) -> (r: Arc<T>)
    ensures
        r == *a,
{
    Arc::clone(a)
}

/// A wait that has abandoned progress: spin without end, never
/// producing a value. Reached only when a blocking operation has
/// retried an entire `u64` worth of rounds without the awaited
/// condition holding once; it stands for the indefinite block that the
/// operation's description allows. Nothing is claimed of the result,
/// since none is ever produced; the code a caller places after this
/// call only closes that branch for the verifier and never runs.
///
/// Relies on `std::hint::spin_loop`, which always returns, so the loop
/// below never exits.
#[verifier::external_body]
pub(crate) fn block_forever<T>() -> (r: T) {
    loop {
        std::hint::spin_loop();
    }
}

} // verus!
