//! A function applied to a sink's errors.

use crate::sink::{Sink, StartSend};
use crate::step::{same_maps, Step};
use std::task::{Context, Poll};
use vstd::prelude::*;

verus! {

/// Hands every call through to the wrapped sink and passes an error that comes
/// back through a function.
#[verifier::reject_recursive_types(F)]
pub struct SinkMapErr<Si: Sink, F: Step<Si::Error>> {
    sink: Si,
    f: F,
    failed: bool,
    error: Ghost<Option<F::Output>>,
}

impl<Si: Sink, F: Step<Si::Error>> SinkMapErr<Si, F> {
    /// The wrapped sink.
    pub closed spec fn inner(&self) -> Si {
        self.sink
    }

    /// The function that the errors go through.
    pub closed spec fn step(&self) -> F {
        self.f
    }

    /// The wrapped sink has reported an error through this adapter.
    pub closed spec fn has_failed(&self) -> bool {
        self.failed
    }

    /// Wraps `sink`.
    pub fn new(sink: Si, f: F) -> (r: Self)
        ensures
            r.inner() == sink,
            !r.has_failed(),
            r.step() == f,
    {
        SinkMapErr { sink, f, failed: false, error: Ghost(None) }
    }

    /// The wrapped sink.
    pub fn get_ref(&self) -> (r: &Si)
        ensures
            *r == self.inner(),
    {
        &self.sink
    }

    /// Gives the wrapped sink back.
    pub fn into_inner(self) -> (r: Si)
        ensures
            r == self.inner(),
    {
        self.sink
    }

    /// `e` is what the function made of the error that the wrapped sink reported.
    pub open spec fn mapped(&self, e: F::Output) -> bool {
        self.inner().failure() matches Some(cause) && self.step().maps(cause, e)
    }

    fn fail(&mut self, cause: Si::Error) -> (e: F::Output)
        requires
            old(self).f.inv(),
            old(self).sink.failure() == Some(cause),
        ensures
            final(self).has_failed(),
            final(self).failure() == Some(e),
            final(self).mapped(e),
            final(self).step().calls() == old(self).step().calls().push(cause),
            same_maps::<Si::Error, F>(final(self).step(), old(self).step()),
            final(self).inner() == old(self).inner(),
    {
        let e = self.f.call(cause);
        self.failed = true;
        proof {
            self.error = Ghost(Some(e));
            assert(self.f.maps(cause, e));
        }
        e
    }
}

impl<Si: Sink, F: Step<Si::Error>> Sink for SinkMapErr<Si, F> {
    type Item = Si::Item;

    type Error = F::Output;

    open spec fn inv(&self) -> bool {
        self.has_failed() || (self.inner().inv() && self.step().inv())
    }

    open spec fn sent(&self) -> Seq<Si::Item> {
        self.inner().sent()
    }

    open spec fn awaiting(&self) -> Option<Si::Item> {
        if self.has_failed() {
            None
        } else {
            self.inner().awaiting()
        }
    }

    open spec fn flushed(&self) -> bool {
        !self.has_failed() && self.inner().flushed()
    }

    open spec fn closed(&self) -> bool {
        !self.has_failed() && self.inner().closed()
    }

    closed spec fn failure(&self) -> Option<F::Output> {
        if self.failed {
            self.error@
        } else {
            None
        }
    }

    open spec fn takes_next(&self) -> bool {
        !self.has_failed() && self.inner().takes_next()
    }

    open spec fn keeps(&self, earlier: &Self) -> bool {
        same_maps::<Si::Error, F>(self.step(), earlier.step()) && self.inner().keeps(
            &earlier.inner(),
        )
    }

    open spec fn always_ready(&self) -> bool {
        !self.has_failed() && self.inner().always_ready()
    }

    fn start_send(&mut self, cx: &mut Context<'_>, item: Si::Item) -> (r: Result<
        StartSend<Si::Item>,
        F::Output,
    >)
        ensures
            old(self).has_failed() ==> r
                == Ok::<StartSend<Si::Item>, F::Output>(StartSend::Rejected(item)) && *final(self)
                == *old(self),
            final(self).has_failed() == (old(self).has_failed() || r is Err),
            r is Ok ==> final(self).step() == old(self).step(),
            same_maps::<Si::Error, F>(final(self).step(), old(self).step()),
            r matches Err(e) ==> final(self).mapped(e)
                && (final(self).inner().failure() matches Some(
                cause,
            ) && final(self).step().calls() == old(self).step().calls().push(cause)),
    {
        if self.failed {
            return Ok(StartSend::Rejected(item));
        }
        match self.sink.start_send(cx, item) {
            Ok(answer) => Ok(answer),
            Err(cause) => Err(self.fail(cause)),
        }
    }

    fn poll_flush(&mut self, cx: &mut Context<'_>) -> (r: Poll<Result<(), F::Output>>)
        ensures
            old(self).has_failed() ==> r is Pending && *final(self) == *old(self),
            final(self).has_failed() == (old(self).has_failed() || r matches Poll::Ready(Err(_))),
            !(r matches Poll::Ready(Err(_))) ==> final(self).step() == old(self).step(),
            same_maps::<Si::Error, F>(final(self).step(), old(self).step()),
            r matches Poll::Ready(Err(e)) ==> final(self).mapped(e)
                && (final(self).inner().failure() matches Some(cause) && final(self).step().calls()
                == old(self).step().calls().push(cause)),
    {
        if self.failed {
            return Poll::Pending;
        }
        match self.sink.poll_flush(cx) {
            Poll::Ready(Ok(())) => Poll::Ready(Ok(())),
            Poll::Ready(Err(cause)) => Poll::Ready(Err(self.fail(cause))),
            Poll::Pending => Poll::Pending,
        }
    }

    fn poll_close(&mut self, cx: &mut Context<'_>) -> (r: Poll<Result<(), F::Output>>)
        ensures
            old(self).has_failed() ==> r is Pending && *final(self) == *old(self),
            final(self).has_failed() == (old(self).has_failed() || r matches Poll::Ready(Err(_))),
            !(r matches Poll::Ready(Err(_))) ==> final(self).step() == old(self).step(),
            same_maps::<Si::Error, F>(final(self).step(), old(self).step()),
            r matches Poll::Ready(Err(e)) ==> final(self).mapped(e)
                && (final(self).inner().failure() matches Some(cause) && final(self).step().calls()
                == old(self).step().calls().push(cause)),
    {
        if self.failed {
            return Poll::Pending;
        }
        match self.sink.poll_close(cx) {
            Poll::Ready(Ok(())) => Poll::Ready(Ok(())),
            Poll::Ready(Err(cause)) => Poll::Ready(Err(self.fail(cause))),
            Poll::Pending => Poll::Pending,
        }
    }
}

} // verus!
