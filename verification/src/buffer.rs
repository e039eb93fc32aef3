//! A bounded queue in front of a sink.

use crate::sink::{carries_on, will_take, Sink, StartSend};
use std::collections::VecDeque;
use std::task::{Context, Poll};
use vstd::prelude::*;

verus! {

/// Takes up to `capacity` items on behalf of a sink that is not ready for them,
/// and forwards them in the order in which they came.
///
/// With capacity zero the buffer holds nothing and hands every call through.
/// Once the wrapped sink has reported an error, the buffer leaves it alone and
/// answers every call with "not ready".
pub struct Buffer<Si: Sink> {
    sink: Si,
    buf: VecDeque<Si::Item>,
    capacity: usize,
    failed: bool,
}

/// Puts `item` at the back of `queue` if fewer than `capacity` items wait there,
/// and hands it back otherwise.
pub fn enqueue<T>(queue: &mut VecDeque<T>, capacity: usize, item: T) -> (r: StartSend<T>)
    ensures
        old(queue)@.len() < capacity ==> r is Accepted && final(queue)@ == old(queue)@.push(item),
        old(queue)@.len() >= capacity ==> r == StartSend::Rejected(item) && final(queue)@
            == old(queue)@,
{
    if queue.len() >= capacity {
        StartSend::Rejected(item)
    } else {
        queue.push_back(item);
        StartSend::Accepted
    }
}

/// What becomes of the queue once the sink has answered the offer of the item
/// that was taken from the front: an item that was turned away goes back to the
/// front and forwarding has to wait, an error ends it, and `Ready(Ok(()))` says
/// that forwarding can go on.
pub fn requeue<T, E>(queue: &mut VecDeque<T>, answer: Result<StartSend<T>, E>) -> (r: Poll<
    Result<(), E>,
>)
    ensures
        match answer {
            Ok(StartSend::Accepted) => r == Poll::Ready(Ok::<(), E>(())) && final(queue)@
                == old(queue)@,
            Ok(StartSend::Rejected(back)) => r is Pending && final(queue)@
                == seq![back] + old(queue)@,
            Err(e) => r == Poll::Ready(Err::<(), E>(e)) && final(queue)@ == old(queue)@,
        },
{
    match answer {
        Ok(StartSend::Accepted) => Poll::Ready(Ok(())),
        Ok(StartSend::Rejected(back)) => {
            queue.push_front(back);
            Poll::Pending
        },
        Err(e) => Poll::Ready(Err(e)),
    }
}

impl<Si: Sink> Buffer<Si> {
    /// The wrapped sink.
    pub closed spec fn inner(&self) -> Si {
        self.sink
    }

    /// The items that wait for the wrapped sink, oldest first.
    pub closed spec fn queued(&self) -> Seq<Si::Item> {
        self.buf@
    }

    /// The most items that may wait at a time.
    pub closed spec fn limit(&self) -> nat {
        self.capacity as nat
    }

    /// The wrapped sink has reported an error through this buffer.
    pub closed spec fn has_failed(&self) -> bool {
        self.failed
    }

    /// The queue fits the capacity and starts with the item that the wrapped
    /// sink waits for, if it waits for one.
    pub open spec fn sound(&self) -> bool {
        &&& self.inner().inv()
        &&& self.queued().len() <= self.limit()
        &&& self.inner().closed() ==> self.queued().len() == 0
        &&& self.limit() > 0 ==> (self.inner().awaiting() matches Some(x) ==> {
            &&& self.queued().len() > 0
            &&& self.queued()[0] == x
        })
    }

    /// Puts an empty queue of the given capacity in front of `sink`.
    pub fn new(sink: Si, capacity: usize) -> (r: Self)
        ensures
            r.inner() == sink,
            r.queued() == Seq::<Si::Item>::empty(),
            r.limit() == capacity,
            !r.has_failed(),
    {
        Buffer { sink, buf: VecDeque::new(), capacity, failed: false }
    }

    /// The wrapped sink.
    pub fn get_ref(&self) -> (r: &Si)
        ensures
            *r == self.inner(),
    {
        &self.sink
    }

    /// Gives the wrapped sink back.  What waits in the queue is dropped.
    pub fn into_inner(self) -> (r: Si)
        ensures
            r == self.inner(),
    {
        self.sink
    }

    /// The number of items that wait for the wrapped sink.
    pub fn len(&self) -> (r: usize)
        ensures
            r == self.queued().len(),
    {
        self.buf.len()
    }

    /// The most items that may wait at a time.
    pub fn capacity(&self) -> (r: usize)
        ensures
            r == self.limit(),
    {
        self.capacity
    }

    /// Whatever the buffer has accepted is with the wrapped sink or waits in the
    /// queue, in the order of acceptance; once the buffer is flushed, all of it
    /// is with the wrapped sink, and the wrapped sink is flushed.
    pub proof fn lemma_order_kept(&self)
        requires
            self.inv(),
            !self.has_failed(),
        ensures
            self.inner().inv(),
            self.inner().sent() + self.queued() == self.sent(),
            self.queued().len() <= self.limit(),
            self.flushed() ==> self.inner().sent() == self.sent() && self.inner().flushed(),
    {
        if self.flushed() {
            assert(self.inner().sent() + self.queued() =~= self.inner().sent());
        }
    }

    /// Forwards queued items until the queue is empty or the wrapped sink turns
    /// one away.  The item that was turned away stays at the front.
    fn try_empty_buffer(&mut self, cx: &mut Context<'_>) -> (r: Poll<Result<(), Si::Error>>)
        requires
            old(self).sound(),
            !old(self).has_failed(),
        ensures
            final(self).limit() == old(self).limit(),
            carries_on(final(self).inner(), old(self).inner()),
            will_take(old(self).inner()) && old(self).queued().len() > 0 ==> (r matches Poll::Ready(
                Err(_),
            )) || final(self).queued().len() < old(self).queued().len(),
            !(r matches Poll::Ready(Err(_))) ==> {
                &&& final(self).sound()
                &&& !final(self).has_failed()
                &&& final(self).sent() == old(self).sent()
                &&& final(self).awaiting() == old(self).awaiting()
                &&& final(self).inner().closed() == old(self).inner().closed()
                &&& old(self).inner().sent().is_prefix_of(final(self).inner().sent())
            },
            r matches Poll::Ready(Ok(_)) ==> final(self).queued().len() == 0,
            r is Pending ==> final(self).queued().len() > 0,
            r matches Poll::Ready(Err(e)) ==> final(self).has_failed()
                && final(self).inner().failure() == Some(e),
            old(self).inner().always_ready() ==> (r matches Poll::Ready(Ok(_)))
                && final(self).inner().always_ready(),
            old(self).queued().len() == 0 ==> (r matches Poll::Ready(Ok(_))) && final(self).inner()
                == old(self).inner(),
    {
        loop
            invariant
                self.sound(),
                !self.has_failed(),
                carries_on(self.inner(), old(self).inner()),
                self.queued().len() < old(self).queued().len() || (self.inner() == old(self).inner()
                    && self.queued() == old(self).queued()),
                self.limit() == old(self).limit(),
                self.sent() == old(self).sent(),
                self.awaiting() == old(self).awaiting(),
                self.inner().closed() == old(self).inner().closed(),
                old(self).inner().sent().is_prefix_of(self.inner().sent()),
                old(self).inner().always_ready() ==> self.inner().always_ready(),
                old(self).queued().len() == 0 ==> self.queued().len() == 0 && self.inner()
                    == old(self).inner(),
            decreases self.queued().len(),
        {
            let ghost before = *self;
            match self.buf.pop_front() {
                None => {
                    assert(self.buf@ =~= before.buf@);
                    return Poll::Ready(Ok(()));
                },
                Some(item) => {
                    let answer = self.sink.start_send(cx, item);
                    match requeue(&mut self.buf, answer) {
                        Poll::Ready(Ok(())) => {
                            assert(self.sent() =~= before.sent());
                        },
                        Poll::Ready(Err(e)) => {
                            self.failed = true;
                            return Poll::Ready(Err(e));
                        },
                        Poll::Pending => {
                            assert(self.buf@ =~= before.buf@);
                            return Poll::Pending;
                        },
                    }
                },
            }
        }
    }
}

impl<Si: Sink> Sink for Buffer<Si> {
    type Item = Si::Item;

    type Error = Si::Error;

    open spec fn inv(&self) -> bool {
        self.has_failed() || self.sound()
    }

    open spec fn sent(&self) -> Seq<Si::Item> {
        self.inner().sent() + self.queued()
    }

    open spec fn awaiting(&self) -> Option<Si::Item> {
        if self.limit() == 0 && !self.has_failed() {
            self.inner().awaiting()
        } else {
            None
        }
    }

    open spec fn flushed(&self) -> bool {
        !self.has_failed() && self.queued().len() == 0 && self.inner().flushed()
    }

    open spec fn closed(&self) -> bool {
        !self.has_failed() && self.inner().closed()
    }

    open spec fn failure(&self) -> Option<Si::Error> {
        if self.has_failed() {
            self.inner().failure()
        } else {
            None
        }
    }

    open spec fn always_ready(&self) -> bool {
        !self.has_failed() && self.inner().always_ready()
    }

    open spec fn takes_next(&self) -> bool {
        &&& !self.has_failed()
        &&& if self.limit() == 0 {
            will_take(self.inner())
        } else {
            self.queued().len() == 0
        }
    }

    open spec fn keeps(&self, earlier: &Self) -> bool {
        self.limit() == earlier.limit() && self.inner().keeps(&earlier.inner())
    }

    /// Forwards what it can, then takes the item if the queue has room.
    fn start_send(&mut self, cx: &mut Context<'_>, item: Si::Item) -> (r: Result<
        StartSend<Si::Item>,
        Si::Error,
    >)
        ensures
            final(self).limit() == old(self).limit(),
            old(self).has_failed() ==> r == Ok::<StartSend<Si::Item>, Si::Error>(
                StartSend::Rejected(item),
            ) && *final(self) == *old(self),
            final(self).has_failed() == (old(self).has_failed() || r is Err),
            r is Ok && !old(self).has_failed() ==> old(self).inner().sent().is_prefix_of(
                final(self).inner().sent(),
            ),
            old(self).limit() > 0 && !old(self).has_failed() && will_take(old(self).inner()) ==> !(
            r matches Ok(StartSend::Rejected(_))),
            old(self).limit() > 0 && !old(self).has_failed() ==> {
                &&& r matches Ok(StartSend::Rejected(_)) ==> {
                    &&& final(self).queued() == old(self).queued()
                    &&& final(self).queued().len() == old(self).limit()
                    &&& final(self).inner().sent() == old(self).inner().sent()
                }
                &&& r matches Ok(StartSend::Accepted) ==> final(self).queued().len() > 0
                    && final(self).queued().last() == item
                &&& old(self).queued().len() < old(self).limit() ==> !(r matches Ok(
                    StartSend::Rejected(_),
                ))
            },
    {
        if self.failed {
            return Ok(StartSend::Rejected(item));
        }
        if self.capacity == 0 {
            let r = self.sink.start_send(cx, item);
            proof {
                if r is Ok {
                    assert(self.sent() =~= self.inner().sent());
                    assert(old(self).sent() =~= old(self).inner().sent());
                }
            }
            if r.is_err() {
                self.failed = true;
            }
            return r;
        }
        let ghost before = *self;
        match self.try_empty_buffer(cx) {
            Poll::Ready(Err(e)) => {
                return Err(e);
            },
            _ => {},
        }
        let ghost mid = *self;
        let r = enqueue(&mut self.buf, self.capacity, item);
        proof {
            if r is Accepted {
                assert(self.sent() =~= before.sent().push(item));
            } else {
                let a = before.inner().sent();
                let b = self.inner().sent();
                assert(self.buf@ == mid.buf@);
                assert(a.len() + before.queued().len() == b.len() + self.queued().len()) by {
                    assert((a + before.queued()).len() == (b + self.queued()).len());
                }
                assert(b =~= a);
                assert(self.queued() =~= (a + self.queued()).skip(a.len() as int));
                assert(before.queued() =~= (a + before.queued()).skip(a.len() as int));
            }
        }
        Ok(r)
    }

    /// Empties the queue into the wrapped sink, then flushes that sink.
    fn poll_flush(&mut self, cx: &mut Context<'_>) -> (r: Poll<Result<(), Si::Error>>)
        ensures
            final(self).limit() == old(self).limit(),
            old(self).has_failed() ==> r is Pending && *final(self) == *old(self),
            final(self).has_failed() == (old(self).has_failed() || r matches Poll::Ready(Err(_))),
            !(r matches Poll::Ready(Err(_))) ==> {
                &&& old(self).inner().sent().is_prefix_of(final(self).inner().sent())
                &&& final(self).inner().sent() + final(self).queued() == old(self).inner().sent()
                    + old(self).queued()
            },
    {
        if self.failed {
            return Poll::Pending;
        }
        match self.try_empty_buffer(cx) {
            Poll::Ready(Ok(())) => {},
            Poll::Ready(Err(e)) => {
                return Poll::Ready(Err(e));
            },
            Poll::Pending => {
                return Poll::Pending;
            },
        }
        let ghost mid = *self;
        let r = self.sink.poll_flush(cx);
        proof {
            if !(r matches Poll::Ready(Err(_))) {
                assert(self.sent() =~= mid.sent());
            }
        }
        match r {
            Poll::Ready(Err(e)) => {
                self.failed = true;
                Poll::Ready(Err(e))
            },
            other => other,
        }
    }

    /// Empties the queue into the wrapped sink, then closes that sink.
    fn poll_close(&mut self, cx: &mut Context<'_>) -> (r: Poll<Result<(), Si::Error>>)
        ensures
            final(self).limit() == old(self).limit(),
            old(self).has_failed() ==> r is Pending && *final(self) == *old(self),
            final(self).has_failed() == (old(self).has_failed() || r matches Poll::Ready(Err(_))),
            !(r matches Poll::Ready(Err(_))) ==> {
                &&& old(self).inner().sent().is_prefix_of(final(self).inner().sent())
                &&& final(self).inner().sent() + final(self).queued() == old(self).inner().sent()
                    + old(self).queued()
            },
    {
        if self.failed {
            return Poll::Pending;
        }
        match self.try_empty_buffer(cx) {
            Poll::Ready(Ok(())) => {},
            Poll::Ready(Err(e)) => {
                return Poll::Ready(Err(e));
            },
            Poll::Pending => {
                return Poll::Pending;
            },
        }
        let ghost mid = *self;
        let r = self.sink.poll_close(cx);
        proof {
            if !(r matches Poll::Ready(Err(_))) {
                assert(self.sent() =~= mid.sent());
            }
        }
        match r {
            Poll::Ready(Err(e)) => {
                self.failed = true;
                Poll::Ready(Err(e))
            },
            other => other,
        }
    }
}

} // verus!
