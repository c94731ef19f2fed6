//! Service adapters with a static label: a tagged service whose result is
//! paired with its label on every completion, and a fault-isolating service.
use crate::step::Step;
use vstd::prelude::*;

verus! {

/// The operation of a [`TaggedService`]: the inner operation and its label.
pub struct TaggedFuture<F> {
    tag: &'static str,
    future: F,
}

impl<F> TaggedFuture<F> {
    /// The label.
    pub closed spec fn tag(&self) -> &'static str {
        self.tag
    }

    /// The inner operation.
    pub closed spec fn future(&self) -> F {
        self.future
    }

    /// Wraps the inner operation `future` of a service labelled `tag`.
    pub fn new(tag: &'static str, future: F) -> (r: Self)
        ensures
            r.tag() == tag,
            r.future() == future,
    {
        TaggedFuture { tag, future }
    }

    /// Gives access to the inner operation, to advance it.
    pub fn future_mut(&mut self) -> (r: &mut F)
        ensures
            *r == old(self).future(),
            final(self).future() == *final(r),
            final(self).tag() == old(self).tag(),
    {
        &mut self.future
    }

    /// The step of the labelled operation from one step of the inner one:
    /// pending while it is pending, and its output paired with the label
    /// once it finishes.
    pub fn resolve<O>(&self, step: Step<O>) -> (r: Step<(&'static str, O)>)
        ensures
            match step {
                Step::Pending => r is Pending,
                Step::Ready(output) => r == Step::Ready((self.tag(), output)),
            },
    {
        match step {
            Step::Pending => Step::Pending,
            Step::Ready(output) => Step::Ready((self.tag, output)),
        }
    }
}

/// A service whose result is paired with a static label.
pub struct TaggedService<S> {
    tag: &'static str,
    service: S,
}

impl<S> TaggedService<S> {
    /// The label.
    pub closed spec fn tag(&self) -> &'static str {
        self.tag
    }

    /// The wrapped service.
    pub closed spec fn service(&self) -> S {
        self.service
    }

    /// Creates a new labelled service.
    pub fn new(tag: &'static str, service: S) -> (r: Self)
        ensures
            r.tag() == tag,
            r.service() == service,
    {
        TaggedService { tag, service }
    }

    /// Splits the adapter into its label and the wrapped service, to start
    /// the service with the token and wrap its operation in a
    /// [`TaggedFuture`].
    pub fn into_parts(self) -> (r: (&'static str, S))
        ensures
            r == (self.tag(), self.service()),
    {
        (self.tag, self.service)
    }
}

/// A service whose abrupt faults become error results; the step of its
/// operation is decided by [`crate::catch_panic::settle`].
pub struct CatchPanicService<S> {
    service: S,
}

impl<S> CatchPanicService<S> {
    /// The wrapped service.
    pub closed spec fn service(&self) -> S {
        self.service
    }

    /// Creates a new fault-isolating service.
    pub fn new(service: S) -> (r: Self)
        ensures
            r.service() == service,
    {
        CatchPanicService { service }
    }

    /// Returns the wrapped service.
    pub fn into_inner(self) -> (r: S)
        ensures
            r == self.service(),
    {
        self.service
    }
}

} // verus!
