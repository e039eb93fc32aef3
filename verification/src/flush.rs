//! Flushing a sink to completion.

use crate::future::Future;
use crate::sink::{carries_on, Sink};
use std::task::{Context, Poll};
use vstd::prelude::*;

verus! {

/// Drives a sink until everything it has accepted is delivered.
pub struct Flush<'a, Si: Sink> {
    sink: &'a mut Si,
}

impl<'a, Si: Sink> Flush<'a, Si> {
    /// The sink as it is now.
    pub closed spec fn sink(&self) -> Si {
        *self.sink
    }

    /// The borrow of the sink that this operation works through.
    pub closed spec fn borrow(&self) -> &mut Si {
        self.sink
    }

    /// Once the operation is let go of, the sink is as the operation left it.
    pub proof fn lemma_released(&self)
        requires
            has_resolved(*self),
        ensures
            *final(self.borrow()) == self.sink(),
    {
    }

    /// Starts to flush `sink`.
    pub fn new(sink: &'a mut Si) -> (r: Self)
        ensures
            r.sink() == *old(sink),
            *final(r.borrow()) == *final(sink),
    {
        Flush { sink }
    }
}

impl<'a, Si: Sink> Future for Flush<'a, Si> {
    type Output = Result<(), Si::Error>;

    open spec fn inv(&self) -> bool {
        self.sink().inv()
    }

    open spec fn may_yield(&self, value: Result<(), Si::Error>) -> bool {
        true
    }

    open spec fn settled(&self) -> Option<Result<(), Si::Error>> {
        None
    }

    /// One step of the sink's own flush.
    fn poll(&mut self, cx: &mut Context<'_>) -> (r: Poll<Result<(), Si::Error>>)
        ensures
            *final(final(self).borrow()) == *final(old(self).borrow()),
            carries_on(final(self).sink(), old(self).sink()),
            !(r matches Poll::Ready(Err(_))) ==> {
                &&& final(self).sink().inv()
                &&& final(self).sink().sent() == old(self).sink().sent()
                &&& final(self).sink().awaiting() == old(self).sink().awaiting()
                &&& final(self).sink().closed() == old(self).sink().closed()
            },
            r matches Poll::Ready(Ok(_)) ==> final(self).sink().flushed(),
            r matches Poll::Ready(Err(e)) ==> final(self).sink().failure() == Some(e),
            old(self).sink().failure() is Some ==> r is Pending && final(self).sink().failure()
                == old(self).sink().failure(),
            old(self).sink().flushed() ==> r matches Poll::Ready(Ok(_)),
            old(self).sink().always_ready() ==> (r matches Poll::Ready(Ok(_)))
                && final(self).sink().always_ready(),
    {
        self.sink.poll_flush(cx)
    }
}

} // verus!
