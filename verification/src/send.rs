//! Sending one item and flushing behind it.

use crate::future::Future;
use crate::sink::{carries_on, settle, will_take, Sink};
use std::task::{Context, Poll};
use vstd::prelude::*;

verus! {

/// Offers one item to a sink until the sink takes it, then flushes the sink.
pub struct Send<'a, Si: Sink> {
    sink: &'a mut Si,
    item: Option<Si::Item>,
}

impl<'a, Si: Sink> Send<'a, Si> {
    /// The sink as it is now.
    pub closed spec fn sink(&self) -> Si {
        *self.sink
    }

    /// The borrow of the sink that this operation works through.
    pub closed spec fn borrow(&self) -> &mut Si {
        self.sink
    }

    /// The item, as long as the sink has not taken it.
    pub closed spec fn unsent(&self) -> Option<Si::Item> {
        self.item
    }

    /// What the sink will have accepted once the item is in.
    pub open spec fn target(&self) -> Seq<Si::Item> {
        match self.unsent() {
            Some(item) => self.sink().sent().push(item),
            None => self.sink().sent(),
        }
    }

    /// Once the operation is let go of, the sink is as the operation left it.
    pub proof fn lemma_released(&self)
        requires
            has_resolved(*self),
        ensures
            *final(self.borrow()) == self.sink(),
    {
    }

    /// Starts to send `item` into `sink`.
    pub fn new(sink: &'a mut Si, item: Si::Item) -> (r: Self)
        ensures
            r.sink() == *old(sink),
            *final(r.borrow()) == *final(sink),
            r.unsent() == Some(item),
    {
        Send { sink, item: Some(item) }
    }
}

impl<'a, Si: Sink> Future for Send<'a, Si> {
    type Output = Result<(), Si::Error>;

    open spec fn inv(&self) -> bool {
        &&& self.sink().inv()
        &&& self.unsent() matches Some(item) ==> {
            &&& !self.sink().closed()
            &&& self.sink().awaiting() matches Some(x) ==> x == item
        }
    }

    open spec fn may_yield(&self, value: Result<(), Si::Error>) -> bool {
        true
    }

    open spec fn settled(&self) -> Option<Result<(), Si::Error>> {
        None
    }

    /// One step: offers the item if the sink has not taken it yet, then flushes.
    fn poll(&mut self, cx: &mut Context<'_>) -> (r: Poll<Result<(), Si::Error>>)
        ensures
            *final(final(self).borrow()) == *final(old(self).borrow()),
            carries_on(final(self).sink(), old(self).sink()),
            !(r matches Poll::Ready(Err(_))) ==> {
                &&& final(self).inv()
                &&& final(self).target() == old(self).target()
                &&& final(self).sink().closed() == old(self).sink().closed()
            },
            r matches Poll::Ready(Ok(_)) ==> {
                &&& final(self).unsent() is None
                &&& final(self).sink().flushed()
            },
            r is Pending && final(self).unsent() is Some ==> final(self).unsent()
                == old(self).unsent(),
            r matches Poll::Ready(Err(e)) ==> final(self).sink().failure() == Some(e),
            old(self).unsent() is Some && will_take(old(self).sink())
                ==> final(self).unsent() is None,
            old(self).unsent() is None && old(self).sink().flushed() ==> r matches Poll::Ready(
                Ok(_),
            ),
            old(self).sink().failure() is Some ==> r is Pending && final(self).sink().failure()
                == old(self).sink().failure(),
            old(self).sink().always_ready() ==> (r matches Poll::Ready(Ok(_)))
                && final(self).sink().always_ready(),
    {
        match self.item.take() {
            Some(item) => {
                let answer = self.sink.start_send(cx, item);
                match settle(&mut self.item, answer) {
                    Poll::Ready(Ok(())) => {},
                    other => {
                        return other;
                    },
                }
            },
            None => {},
        }
        self.sink.poll_flush(cx)
    }
}

} // verus!
