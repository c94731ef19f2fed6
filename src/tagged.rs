//! A service adapter that pairs the result of a service with a tag.
//!
//! The tag is fixed when the service is wrapped. The token reaches the inner
//! service unchanged, and the inner operation is advanced as it is; only its
//! result is paired with the tag.
use crate::step::Step;
use vstd::prelude::*;

verus! {

/// Tags the underlying service with additional data.
#[derive(Debug, Clone, Copy)]
pub struct Tagged<T, S> {
    tag: T,
    inner: S,
}

impl<T, S> Tagged<T, S> {
    /// The tag given to the result.
    pub closed spec fn tag(&self) -> T {
        self.tag
    }

    /// The wrapped service.
    pub closed spec fn inner(&self) -> S {
        self.inner
    }

    /// Creates a new tagged service.
    pub fn new(tag: T, inner: S) -> (r: Self)
        ensures
            r.tag() == tag,
            r.inner() == inner,
    {
        Tagged { tag, inner }
    }

    /// Splits the adapter into its tag and the wrapped service, to start the
    /// service with the token and wrap its operation in a [`TaggedFuture`].
    pub fn into_parts(self) -> (r: (T, S))
        ensures
            r == (self.tag(), self.inner()),
    {
        (self.tag, self.inner)
    }
}

/// The operation of a [`Tagged`] service: the inner operation and the tag it
/// hands out once, when the inner operation finishes.
pub struct TaggedFuture<T, F> {
    tag: Option<T>,
    future: F,
}

impl<T, F> TaggedFuture<T, F> {
    /// The tag still held; `None` once the result has been handed out.
    pub closed spec fn tag(&self) -> Option<T> {
        self.tag
    }

    /// The inner operation.
    pub closed spec fn future(&self) -> F {
        self.future
    }

    /// Wraps the inner operation `future` of a service tagged with `tag`.
    pub fn new(tag: T, future: F) -> (r: Self)
        ensures
            r.tag() == Some(tag),
            r.future() == future,
    {
        TaggedFuture { tag: Some(tag), future }
    }

    /// Returns `true` once the tagged result has been handed out.
    pub fn is_resolved(&self) -> (r: bool)
        ensures
            r == (self.tag() is None),
    {
        self.tag.is_none()
    }

    /// Gives access to the inner operation, to advance it.
    pub fn future_mut(&mut self) -> (r: &mut F)
        ensures
            *r == old(self).future(),
            final(self).future() == *final(r),
            final(self).tag() == old(self).tag(),
    {
        &mut self.future
    }

    /// Takes one step of the inner operation and gives the step of the
    /// tagged operation.
    ///
    /// While the inner operation is pending so is the tagged one, and nothing
    /// changes. When it finishes with `output`, the result is the tag paired
    /// with `output`, and the tag is used up: the operation must not be
    /// advanced again.
    pub fn resolve<O>(&mut self, step: Step<O>) -> (r: Step<(T, O)>)
        requires
            step is Ready ==> old(self).tag() is Some,
        ensures
            match step {
                Step::Pending => r is Pending && *final(self) == *old(self),
                Step::Ready(output) => r == Step::Ready((old(self).tag()->Some_0, output))
                    && final(self).tag() is None && final(self).future() == old(self).future(),
            },
    {
        match step {
            Step::Pending => Step::Pending,
            Step::Ready(output) => {
                let tag = self.tag.take().unwrap();
                Step::Ready((tag, output))
            },
        }
    }
}

} // verus!
