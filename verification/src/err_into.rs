//! Widening of a sink's errors through `From`.

use crate::sink::{Sink, StartSend};
use std::task::{Context, Poll};
use vstd::prelude::*;

verus! {

/// Hands every call through to the wrapped sink and converts an error that
/// comes back into `E`.
#[verifier::reject_recursive_types(E)]
pub struct SinkErrInto<Si: Sink, E> {
    sink: Si,
    failed: bool,
    error: Ghost<Option<E>>,
}

impl<Si: Sink, E: From<Si::Error>> SinkErrInto<Si, E> {
    /// The wrapped sink.
    pub closed spec fn inner(&self) -> Si {
        self.sink
    }

    /// The wrapped sink has reported an error through this adapter.
    pub closed spec fn has_failed(&self) -> bool {
        self.failed
    }

    /// Wraps `sink`.
    pub fn new(sink: Si) -> (r: Self)
        ensures
            r.inner() == sink,
            !r.has_failed(),
    {
        SinkErrInto { sink, failed: false, error: Ghost(None) }
    }

    /// The wrapped sink.
    pub fn get_ref(&self) -> (r: &Si)
        ensures
            *r == self.inner(),
    {
        &self.sink
    }

    /// Gives the wrapped sink back.
    pub fn into_inner(self) -> (r: Si)
        ensures
            r == self.inner(),
    {
        self.sink
    }

    /// `e` is what `From` made of the error that the wrapped sink reported.
    pub open spec fn widened(&self, e: E) -> bool {
        self.inner().failure() matches Some(cause) && call_ensures(E::from, (cause,), e)
    }

    fn fail(&mut self, cause: Si::Error) -> (e: E)
        requires
            old(self).sink.failure() == Some(cause),
        ensures
            final(self).has_failed(),
            final(self).failure() == Some(e),
            final(self).widened(e),
            final(self).inner() == old(self).inner(),
    {
        let e = E::from(cause);
        self.failed = true;
        proof {
            self.error = Ghost(Some(e));
        }
        e
    }
}

impl<Si: Sink, E: From<Si::Error>> Sink for SinkErrInto<Si, E> {
    type Item = Si::Item;

    type Error = E;

    open spec fn inv(&self) -> bool {
        self.has_failed() || self.inner().inv()
    }

    open spec fn sent(&self) -> Seq<Si::Item> {
        self.inner().sent()
    }

    open spec fn awaiting(&self) -> Option<Si::Item> {
        if self.has_failed() {
            None
        } else {
            self.inner().awaiting()
        }
    }

    open spec fn flushed(&self) -> bool {
        !self.has_failed() && self.inner().flushed()
    }

    open spec fn closed(&self) -> bool {
        !self.has_failed() && self.inner().closed()
    }

    closed spec fn failure(&self) -> Option<E> {
        if self.failed {
            self.error@
        } else {
            None
        }
    }

    open spec fn takes_next(&self) -> bool {
        !self.has_failed() && self.inner().takes_next()
    }

    open spec fn keeps(&self, earlier: &Self) -> bool {
        self.inner().keeps(&earlier.inner())
    }

    open spec fn always_ready(&self) -> bool {
        !self.has_failed() && self.inner().always_ready()
    }

    fn start_send(&mut self, cx: &mut Context<'_>, item: Si::Item) -> (r: Result<
        StartSend<Si::Item>,
        E,
    >)
        ensures
            old(self).has_failed() ==> r == Ok::<StartSend<Si::Item>, E>(StartSend::Rejected(item))
                && *final(self) == *old(self),
            final(self).has_failed() == (old(self).has_failed() || r is Err),
            r matches Err(e) ==> final(self).widened(e),
    {
        if self.failed {
            return Ok(StartSend::Rejected(item));
        }
        match self.sink.start_send(cx, item) {
            Ok(answer) => Ok(answer),
            Err(cause) => Err(self.fail(cause)),
        }
    }

    fn poll_flush(&mut self, cx: &mut Context<'_>) -> (r: Poll<Result<(), E>>)
        ensures
            old(self).has_failed() ==> r is Pending && *final(self) == *old(self),
            final(self).has_failed() == (old(self).has_failed() || r matches Poll::Ready(Err(_))),
            r matches Poll::Ready(Err(e)) ==> final(self).widened(e),
    {
        if self.failed {
            return Poll::Pending;
        }
        match self.sink.poll_flush(cx) {
            Poll::Ready(Ok(())) => Poll::Ready(Ok(())),
            Poll::Ready(Err(cause)) => Poll::Ready(Err(self.fail(cause))),
            Poll::Pending => Poll::Pending,
        }
    }

    fn poll_close(&mut self, cx: &mut Context<'_>) -> (r: Poll<Result<(), E>>)
        ensures
            old(self).has_failed() ==> r is Pending && *final(self) == *old(self),
            final(self).has_failed() == (old(self).has_failed() || r matches Poll::Ready(Err(_))),
            r matches Poll::Ready(Err(e)) ==> final(self).widened(e),
    {
        if self.failed {
            return Poll::Pending;
        }
        match self.sink.poll_close(cx) {
            Poll::Ready(Ok(())) => Poll::Ready(Ok(())),
            Poll::Ready(Err(cause)) => Poll::Ready(Err(self.fail(cause))),
            Poll::Pending => Poll::Pending,
        }
    }
}

} // verus!
