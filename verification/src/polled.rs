//! The outcome of polling something once.

use vstd::prelude::*;

verus! {

/// What one poll gave: a value, or nothing yet.
#[derive(Debug, PartialEq, Eq)]
pub enum Polled<T> {
    /// The value is there.
    Ready(T),
    /// There is no value yet; the task will be woken when it pays to poll again.
    Pending,
}

} // verus!
