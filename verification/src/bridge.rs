//! The decisions that lie between a sink of this crate and a sink that is asked
//! whether it is ready before an item is handed to it.

use crate::sink::{settle, StartSend};
use std::task::Poll;
use vstd::prelude::*;

verus! {

/// What to do with an item once the sink has said whether it is ready.
#[derive(Debug, PartialEq, Eq)]
pub enum Gate<T> {
    /// The sink is ready: the item is to be handed over.
    Open(T),
    /// The sink is not ready: the item goes back to the caller.
    Shut(T),
}

/// Decides on the answer to the question for readiness: a ready sink gets the
/// item, one that waits does not, and an error ends the offer.
pub fn gate<T, E>(ready: Poll<Result<(), E>>, item: T) -> (r: Result<Gate<T>, E>)
    ensures
        match ready {
            Poll::Ready(Ok(_)) => r == Ok::<Gate<T>, E>(Gate::Open(item)),
            Poll::Pending => r == Ok::<Gate<T>, E>(Gate::Shut(item)),
            Poll::Ready(Err(e)) => r == Err::<Gate<T>, E>(e),
        },
{
    match ready {
        Poll::Ready(Ok(())) => Ok(Gate::Open(item)),
        Poll::Pending => Ok(Gate::Shut(item)),
        Poll::Ready(Err(e)) => Err(e),
    }
}

/// The answer to an offer whose item a ready sink was handed: the item is
/// accepted unless the sink failed.
pub fn begun<T, E>(answer: Result<(), E>) -> (r: Result<StartSend<T>, E>)
    ensures
        match answer {
            Ok(_) => r == Ok::<StartSend<T>, E>(StartSend::Accepted),
            Err(e) => r == Err::<StartSend<T>, E>(e),
        },
{
    match answer {
        Ok(()) => Ok(StartSend::Accepted),
        Err(e) => Err(e),
    }
}

/// The state in front of a sink of this crate that is driven by a caller who
/// asks for readiness first: the item that was handed over and that the sink
/// has not taken, and whether the sink was closed or has failed.
pub struct Hold<T> {
    slot: Option<T>,
    closed: bool,
    failed: bool,
}

impl<T> Hold<T> {
    /// The item that waits for the sink.
    pub closed spec fn waiting(&self) -> Option<T> {
        self.slot
    }

    /// The sink has acknowledged the end of input.
    pub closed spec fn is_closed(&self) -> bool {
        self.closed
    }

    /// The sink has reported an error.
    pub closed spec fn has_failed(&self) -> bool {
        self.failed
    }

    /// Nothing waits, and the sink is open and has not failed.
    pub fn new() -> (r: Self)
        ensures
            r.waiting() is None,
            !r.is_closed(),
            !r.has_failed(),
    {
        Hold { slot: None, closed: false, failed: false }
    }

    /// Whether an item may be put: nothing waits, and the sink is open and has
    /// not failed.
    pub fn vacant(&self) -> (r: bool)
        ensures
            r == (self.waiting() is None && !self.is_closed() && !self.has_failed()),
    {
        self.slot.is_none() && !self.closed && !self.failed
    }

    /// Whether the sink is to be left alone because it has failed.
    pub fn blocked(&self) -> (r: bool)
        ensures
            r == self.has_failed(),
    {
        self.failed
    }

    /// Puts the item that the caller hands over.  An item that may not be put
    /// comes back.
    pub fn put(&mut self, item: T) -> (r: Result<(), T>)
        ensures
            final(self).is_closed() == old(self).is_closed(),
            final(self).has_failed() == old(self).has_failed(),
            old(self).waiting() is None && !old(self).is_closed() && !old(self).has_failed() ==> r
                is Ok && final(self).waiting() == Some(item),
            !(old(self).waiting() is None && !old(self).is_closed() && !old(self).has_failed())
                ==> r == Err::<(), T>(item) && final(self).waiting() == old(self).waiting(),
    {
        if self.vacant() {
            self.slot = Some(item);
            Ok(())
        } else {
            Err(item)
        }
    }

    /// Takes out the item that is to be offered to the sink now.  A sink that
    /// has failed is offered nothing.
    pub fn take(&mut self) -> (r: Option<T>)
        ensures
            final(self).is_closed() == old(self).is_closed(),
            final(self).has_failed() == old(self).has_failed(),
            old(self).has_failed() ==> r is None && final(self).waiting() == old(self).waiting(),
            !old(self).has_failed() ==> r == old(self).waiting() && final(self).waiting() is None,
    {
        if self.failed {
            None
        } else {
            self.slot.take()
        }
    }

    /// Takes in the sink's answer to the offer of the item that was taken out:
    /// an item that was turned away waits again, and an error is noted.
    pub fn offered<E>(&mut self, answer: Result<StartSend<T>, E>) -> (r: Poll<Result<(), E>>)
        requires
            old(self).waiting() is None,
        ensures
            final(self).is_closed() == old(self).is_closed(),
            match answer {
                Ok(StartSend::Accepted) => r == Poll::Ready(Ok::<(), E>(()))
                    && final(self).waiting() is None && final(self).has_failed()
                    == old(self).has_failed(),
                Ok(StartSend::Rejected(back)) => r is Pending && final(self).waiting() == Some(back)
                    && final(self).has_failed() == old(self).has_failed(),
                Err(e) => r == Poll::Ready(Err::<(), E>(e)) && final(self).waiting() is None
                    && final(self).has_failed(),
            },
    {
        let r = settle(&mut self.slot, answer);
        if let Poll::Ready(Err(_)) = &r {
            self.failed = true;
        }
        r
    }

    /// Takes in the sink's answer to a flush, or to a close if `closing`: an
    /// error is noted, and so is a close that is done.  The answer goes on to
    /// the caller as it is.
    pub fn polled<E>(&mut self, answer: Poll<Result<(), E>>, closing: bool) -> (r: Poll<
        Result<(), E>,
    >)
        ensures
            r == answer,
            final(self).waiting() == old(self).waiting(),
            final(self).has_failed() == (old(self).has_failed() || answer matches Poll::Ready(
                Err(_),
            )),
            final(self).is_closed() == (old(self).is_closed() || (closing
                && answer matches Poll::Ready(Ok(_)))),
    {
        match &answer {
            Poll::Ready(Err(_)) => {
                self.failed = true;
            },
            Poll::Ready(Ok(_)) => {
                if closing {
                    self.closed = true;
                }
            },
            Poll::Pending => {},
        }
        answer
    }
}

} // verus!
