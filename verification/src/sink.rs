//! The three-phase protocol that every sink, plain or adapted, follows.

use std::task::{Context, Poll};
use vstd::prelude::*;

verus! {

/// Answer of a sink to an offered item.
#[derive(Debug, PartialEq, Eq)]
pub enum StartSend<T> {
    /// The sink took the item.
    Accepted,
    /// The sink is under backpressure and hands the item back untouched.
    Rejected(T),
}

/// What becomes of an offer once the sink has answered it.
///
/// An item that the sink turned away goes into `slot`, to be offered again, and
/// the operation has to wait.  An error ends the operation.  `Ready(Ok(()))`
/// says that the item is with the sink and the operation can go on.
pub fn settle<T, E>(slot: &mut Option<T>, answer: Result<StartSend<T>, E>) -> (r: Poll<
    Result<(), E>,
>)
    ensures
        match answer {
            Ok(StartSend::Accepted) => r == Poll::Ready(Ok::<(), E>(())) && *final(slot)
                == *old(slot),
            Ok(StartSend::Rejected(back)) => r is Pending && *final(slot) == Some(back),
            Err(e) => r == Poll::Ready(Err::<(), E>(e)) && *final(slot) == *old(slot),
        },
{
    match answer {
        Ok(StartSend::Accepted) => Poll::Ready(Ok(())),
        Ok(StartSend::Rejected(back)) => {
            *slot = Some(back);
            Poll::Pending
        },
        Err(e) => Poll::Ready(Err(e)),
    }
}

/// Whatever `before` keeps of an earlier state, `later` keeps too.  Every
/// operation of a sink leaves the sink so towards the state it started from.
pub open spec fn carries_on<S: Sink>(later: S, before: S) -> bool {
    forall|e: S| #[trigger] before.keeps(&e) ==> later.keeps(&e)
}

/// `sink` takes the next item that it is offered: it says so for this one
/// item, or it is always ready.
pub open spec fn will_take<S: Sink>(sink: S) -> bool {
    sink.takes_next() || sink.always_ready()
}

/// A destination that takes items one at a time, may push back, and has to be
/// flushed and closed explicitly.
///
/// The model functions describe a sink's state to proofs, and every sink that
/// is verified defines them.  They have bodies only so that a sink can be
/// written outside the verifier, where model functions cannot be: such a
/// sink keeps the bodies, its `inv` is `false`, and so no proof speaks of it
/// or of a stack on top of it.
///
/// A sink whose `failure` is `Some` has failed for good: it takes no item and
/// completes no flush or close, and since nothing will change that, it owes
/// nobody a wake-up.  A sink that cannot stay usable after an error leaves the
/// failed states out of its `inv`.
pub trait Sink: Sized {
    /// What the sink takes.
    type Item;

    /// What the sink fails with.
    type Error;

    /// The state is one that the operations can start from.
    open spec fn inv(&self) -> bool {
        false
    }

    /// Every item accepted so far, oldest first.
    open spec fn sent(&self) -> Seq<Self::Item> {
        Seq::empty()
    }

    /// The item that was turned away after the sink had begun to work on it.
    /// While this is `Some`, no other item may be offered.
    open spec fn awaiting(&self) -> Option<Self::Item> {
        None
    }

    /// Nothing that was accepted is still on its way to the destination.
    open spec fn flushed(&self) -> bool {
        false
    }

    /// The end of input has been signalled and acknowledged.
    open spec fn closed(&self) -> bool {
        false
    }

    /// The error that the sink has failed with, if it has failed.
    open spec fn failure(&self) -> Option<Self::Error> {
        None
    }

    /// The sink takes the next item that it is offered, whatever it is.
    open spec fn takes_next(&self) -> bool {
        false
    }

    /// What was fixed when `earlier` was made is still so of this sink: what an
    /// adapter was wrapped around, with what settings, and the like.  No
    /// operation undoes it.
    open spec fn keeps(&self, earlier: &Self) -> bool {
        true
    }

    /// The sink takes every item that it is offered and flushes and closes at
    /// once, now and after each of its operations.
    open spec fn always_ready(&self) -> bool {
        false
    }

    /// Offers one item.  `Rejected` returns the very item and leaves the
    /// history untouched; `Accepted` appends it.
    fn start_send(&mut self, cx: &mut Context<'_>, item: Self::Item) -> (r: Result<
        StartSend<Self::Item>,
        Self::Error,
    >)
        requires
            old(self).inv(),
            !old(self).closed(),
            old(self).awaiting() matches Some(x) ==> x == item,
        ensures
            r matches Ok(StartSend::Accepted) ==> {
                &&& final(self).inv()
                &&& !final(self).closed()
                &&& final(self).sent() == old(self).sent().push(item)
                &&& final(self).awaiting() is None
            },
            r matches Ok(StartSend::Rejected(back)) ==> {
                &&& back == item
                &&& final(self).inv()
                &&& !final(self).closed()
                &&& final(self).sent() == old(self).sent()
                &&& (final(self).awaiting() matches Some(x) ==> x == item)
            },
            r matches Err(e) ==> final(self).failure() == Some(e),
            old(self).failure() is Some ==> (r matches Ok(StartSend::Rejected(_)))
                && final(self).failure() == old(self).failure(),
            forall|e: Self| #[trigger] old(self).keeps(&e) ==> final(self).keeps(&e),
            old(self).takes_next() ==> r matches Ok(StartSend::Accepted),
            old(self).always_ready() ==> (r matches Ok(StartSend::Accepted))
                && final(self).always_ready(),
    ;

    /// Drives everything accepted so far to the destination.  A sink that is
    /// already flushed answers `Ready` at once.
    fn poll_flush(&mut self, cx: &mut Context<'_>) -> (r: Poll<Result<(), Self::Error>>)
        requires
            old(self).inv(),
        ensures
            !(r matches Poll::Ready(Err(_))) ==> {
                &&& final(self).inv()
                &&& final(self).sent() == old(self).sent()
                &&& final(self).awaiting() == old(self).awaiting()
                &&& final(self).closed() == old(self).closed()
            },
            r matches Poll::Ready(Ok(_)) ==> final(self).flushed(),
            r matches Poll::Ready(Err(e)) ==> final(self).failure() == Some(e),
            old(self).flushed() ==> r matches Poll::Ready(Ok(_)),
            old(self).failure() is Some ==> r is Pending && final(self).failure()
                == old(self).failure(),
            forall|e: Self| #[trigger] old(self).keeps(&e) ==> final(self).keeps(&e),
            old(self).always_ready() ==> (r matches Poll::Ready(Ok(_)))
                && final(self).always_ready(),
    ;

    /// Flushes, then signals the end of input.  A sink that is already closed
    /// answers `Ready` at once.
    fn poll_close(&mut self, cx: &mut Context<'_>) -> (r: Poll<Result<(), Self::Error>>)
        requires
            old(self).inv(),
        ensures
            !(r matches Poll::Ready(Err(_))) ==> {
                &&& final(self).inv()
                &&& final(self).sent() == old(self).sent()
                &&& final(self).awaiting() == old(self).awaiting()
            },
            r matches Poll::Ready(Ok(_)) ==> final(self).flushed() && final(self).closed(),
            r is Pending ==> final(self).closed() == old(self).closed(),
            r matches Poll::Ready(Err(e)) ==> final(self).failure() == Some(e),
            old(self).closed() ==> r matches Poll::Ready(Ok(_)),
            old(self).failure() is Some ==> r is Pending && final(self).failure()
                == old(self).failure(),
            forall|e: Self| #[trigger] old(self).keeps(&e) ==> final(self).keeps(&e),
            old(self).always_ready() ==> r matches Poll::Ready(Ok(_)),
    ;
}

} // verus!
