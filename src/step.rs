//! The outcome of advancing an asynchronous operation once.
use vstd::prelude::*;

verus! {

/// Whether an operation has produced its value yet.
#[derive(Debug, Clone, Copy, PartialEq, Eq)]
pub enum Step<T> {
    /// The operation has not finished; it will be advanced again later.
    Pending,
    /// The operation finished with this value.
    Ready(T),
}

} // verus!
