//! Values that arrive later.

use std::task::{Context, Poll};
use vstd::prelude::*;

verus! {

/// A computation that is polled until it hands over its one result.
///
/// The model functions have bodies only so that a future can be written
/// outside the verifier; such a future keeps them, its `inv` is `false`, and no
/// proof speaks of it.
pub trait Future {
    /// What the computation results in.
    type Output;

    /// The state is one that `poll` can start from.
    open spec fn inv(&self) -> bool {
        false
    }

    /// `value` is a result that the computation can still come to.
    open spec fn may_yield(&self, value: Self::Output) -> bool {
        true
    }

    /// The result that the next poll hands over, where that is settled.
    open spec fn settled(&self) -> Option<Self::Output> {
        None
    }

    /// Drives the computation.  `Ready` hands over the result; `Pending` asks
    /// to be polled again later and rules no result in that was ruled out before.
    fn poll(&mut self, cx: &mut Context<'_>) -> (r: Poll<Self::Output>)
        requires
            old(self).inv(),
        ensures
            r matches Poll::Ready(v) ==> old(self).may_yield(v),
            r is Pending ==> final(self).inv() && forall|v: Self::Output| #[trigger]
                final(self).may_yield(v) ==> old(self).may_yield(v),
            old(self).settled() matches Some(v) ==> r == Poll::Ready(v),
    ;
}

/// A result that is there already.
pub struct Ready<T> {
    value: Option<T>,
}

impl<T> Ready<T> {
    /// The value still to be handed over, if it has not been.
    pub closed spec fn value(&self) -> Option<T> {
        self.value
    }
}

/// A future that hands over `value` the first time it is polled.
pub fn ready<T>(value: T) -> (r: Ready<T>)
    ensures
        r.value() == Some(value),
{
    Ready { value: Some(value) }
}

impl<T> Future for Ready<T> {
    type Output = T;

    open spec fn inv(&self) -> bool {
        self.value() is Some
    }

    open spec fn may_yield(&self, value: T) -> bool {
        self.value() == Some(value)
    }

    open spec fn settled(&self) -> Option<T> {
        self.value()
    }

    fn poll(&mut self, cx: &mut Context<'_>) -> (r: Poll<T>)
        ensures
            r == Poll::Ready(old(self).value().unwrap()),
            final(self).value() is None,
    {
        match self.value.take() {
            Some(v) => Poll::Ready(v),
            None => Poll::Pending,
        }
    }
}

} // verus!
