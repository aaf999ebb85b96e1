//! The answer of an operation that may have to wait.

use vstd::prelude::*;

verus! {

/// What came of polling an operation.
pub enum Poll<T> {
    /// The operation is over, with this result.
    Ready(T),
    /// The operation cannot go on yet.
    Pending,
}

} // verus!
