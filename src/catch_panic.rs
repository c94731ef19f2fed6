//! A service adapter that turns an abrupt fault of the wrapped operation into
//! an error result.
//!
//! The executor advances the inner operation under a boundary that catches
//! the fault and reports it as `Err(payload)`; [`settle`] decides the step of
//! the wrapped operation, so the fault reaches the manager as an ordinary
//! result and the other services go on.
use crate::step::Step;
use vstd::prelude::*;

verus! {

/// Catches panics from the underlying service.
#[derive(Debug, Clone, Copy)]
pub struct CatchPanic<S> {
    inner: S,
}

impl<S> CatchPanic<S> {
    /// The wrapped service.
    pub closed spec fn inner(&self) -> S {
        self.inner
    }

    /// Creates a new panic catching service.
    pub fn new(inner: S) -> (r: Self)
        ensures
            r.inner() == inner,
    {
        CatchPanic { inner }
    }

    /// Returns the wrapped service, to start it with the token and wrap its
    /// operation in a [`CatchPanicFuture`].
    pub fn into_inner(self) -> (r: S)
        ensures
            r == self.inner(),
    {
        self.inner
    }
}

/// The operation of a [`CatchPanic`] service.
pub struct CatchPanicFuture<F> {
    future: F,
}

impl<F> CatchPanicFuture<F> {
    /// The inner operation.
    pub closed spec fn future(&self) -> F {
        self.future
    }

    /// Wraps the inner operation `future`.
    pub fn new(future: F) -> (r: Self)
        ensures
            r.future() == future,
    {
        CatchPanicFuture { future }
    }

    /// Gives access to the inner operation, to advance it.
    pub fn future_mut(&mut self) -> (r: &mut F)
        ensures
            *r == old(self).future(),
            final(self).future() == *final(r),
    {
        &mut self.future
    }
}

/// The step of a fault-isolated operation, from what advancing the inner
/// operation under the boundary gave: `Ok(step)` when it returned normally,
/// `Err(payload)` when it faulted.
///
/// A normal step passes through with its value as `Ok`; a fault finishes the
/// operation with `Err(payload)`.
pub fn settle<O, P>(outcome: Result<Step<O>, P>) -> (r: Step<Result<O, P>>)
    ensures
        match outcome {
            Ok(Step::Pending) => r is Pending,
            Ok(Step::Ready(output)) => r == Step::<Result<O, P>>::Ready(Ok(output)),
            Err(payload) => r == Step::<Result<O, P>>::Ready(Err(payload)),
        },
{
    match outcome {
        Ok(Step::Pending) => Step::Pending,
        Ok(Step::Ready(output)) => Step::Ready(Ok(output)),
        Err(payload) => Step::Ready(Err(payload)),
    }
}

} // verus!
