//! Draining a stream into a sink.

use crate::future::Future;
use crate::sink::{carries_on, settle, Sink};
use crate::stream::Stream;
use std::task::{Context, Poll};
use vstd::prelude::*;

verus! {

/// Pulls every item out of a stream and hands it to a sink, in order, then
/// flushes the sink.  The sink is left open.
pub struct SendAll<'a, Si: Sink, St: Stream<Item = Si::Item>> {
    sink: &'a mut Si,
    stream: &'a mut St,
    buffered: Option<Si::Item>,
    exhausted: bool,
}

impl<'a, Si: Sink, St: Stream<Item = Si::Item>> SendAll<'a, Si, St> {
    /// The sink as it is now.
    pub closed spec fn sink(&self) -> Si {
        *self.sink
    }

    /// The stream as it is now.
    pub closed spec fn stream(&self) -> St {
        *self.stream
    }

    /// The borrow of the sink that this operation works through.
    pub closed spec fn sink_borrow(&self) -> &mut Si {
        self.sink
    }

    /// The borrow of the stream that this operation works through.
    pub closed spec fn stream_borrow(&self) -> &mut St {
        self.stream
    }

    /// The item that was pulled from the stream and that the sink has not taken yet.
    pub closed spec fn unsent(&self) -> Option<Si::Item> {
        self.buffered
    }

    /// The stream has reported its end to this operation.
    pub closed spec fn exhausted(&self) -> bool {
        self.exhausted
    }

    /// What the sink will have accepted once the pulled item is in.
    pub open spec fn target(&self) -> Seq<Si::Item> {
        match self.unsent() {
            Some(item) => self.sink().sent().push(item),
            None => self.sink().sent(),
        }
    }

    /// Once the operation is let go of, sink and stream are as it left them.
    pub proof fn lemma_released(&self)
        requires
            has_resolved(*self),
        ensures
            *final(self.sink_borrow()) == self.sink(),
            *final(self.stream_borrow()) == self.stream(),
    {
    }

    /// Starts to drain `stream` into `sink`.
    pub fn new(sink: &'a mut Si, stream: &'a mut St) -> (r: Self)
        ensures
            r.sink() == *old(sink),
            r.stream() == *old(stream),
            *final(r.sink_borrow()) == *final(sink),
            *final(r.stream_borrow()) == *final(stream),
            r.unsent() is None,
            !r.exhausted(),
    {
        SendAll { sink, stream, buffered: None, exhausted: false }
    }
}

impl<'a, Si: Sink, St: Stream<Item = Si::Item>> Future for SendAll<'a, Si, St> {
    type Output = Result<(), Si::Error>;

    open spec fn inv(&self) -> bool {
        &&& self.sink().inv()
        &&& self.stream().inv()
        &&& self.exhausted() == self.stream().finished()
        &&& self.exhausted() ==> self.unsent() is None
        &&& !self.exhausted() ==> !self.sink().closed()
        &&& self.sink().awaiting() matches Some(x) ==> self.unsent() == Some(x)
    }

    open spec fn may_yield(&self, value: Result<(), Si::Error>) -> bool {
        true
    }

    open spec fn settled(&self) -> Option<Result<(), Si::Error>> {
        None
    }

    /// One step: hands over the item held back, if any, then pulls and hands
    /// over items until the stream waits or ends or the sink turns one away.
    /// At the end of the stream the sink is flushed.
    fn poll(&mut self, cx: &mut Context<'_>) -> (r: Poll<Result<(), Si::Error>>)
        ensures
            *final(final(self).sink_borrow()) == *final(old(self).sink_borrow()),
            carries_on(final(self).sink(), old(self).sink()),
            *final(final(self).stream_borrow()) == *final(old(self).stream_borrow()),
            !(r matches Poll::Ready(Err(_))) ==> {
                &&& final(self).inv()
                &&& old(self).stream().yielded().is_prefix_of(final(self).stream().yielded())
                &&& final(self).target()
                    == old(self).target() + final(self).stream().yielded().skip(
                    old(self).stream().yielded().len() as int,
                )
                &&& final(self).sink().closed() == old(self).sink().closed()
            },
            r matches Poll::Ready(Ok(_)) ==> {
                &&& final(self).stream().finished()
                &&& final(self).unsent() is None
                &&& final(self).sink().flushed()
            },
            r matches Poll::Ready(Err(e)) ==> final(self).sink().failure() == Some(e),
            old(self).sink().failure() is Some ==> r is Pending,
            old(self).sink().always_ready() && !old(self).exhausted()
                ==> (old(self).stream().planned() matches Some(rest) ==> {
                &&& r matches Poll::Ready(Ok(_))
                &&& final(self).sink().always_ready()
                &&& final(self).stream().yielded() == old(self).stream().yielded() + rest
            }),
    {
        let ghost start = self.stream().yielded();
        let ghost goal = self.target();
        match self.buffered.take() {
            Some(item) => {
                let answer = self.sink.start_send(cx, item);
                match settle(&mut self.buffered, answer) {
                    Poll::Ready(Ok(())) => {},
                    Poll::Pending => {
                        assert(self.target() =~= goal + start.skip(start.len() as int));
                        return Poll::Pending;
                    },
                    Poll::Ready(Err(e)) => {
                        return Poll::Ready(Err(e));
                    },
                }
            },
            None => {},
        }
        assert(self.target() =~= goal + start.skip(start.len() as int));
        proof {
            if let Some(rest) = old(self).stream().planned() {
                assert(rest.take(0) =~= Seq::<Si::Item>::empty());
                assert(start + rest.take(0) =~= start);
                assert(rest.skip(0) =~= rest);
            }
        }
        while !self.exhausted
            invariant
                *final(self.sink_borrow()) == *final(old(self).sink_borrow()),
                *final(self.stream_borrow()) == *final(old(self).stream_borrow()),
                self.inv(),
                self.unsent() is None,
                carries_on(self.sink(), old(self).sink()),
                start == old(self).stream().yielded(),
                goal == old(self).target(),
                start.is_prefix_of(self.stream().yielded()),
                self.target() == goal + self.stream().yielded().skip(start.len() as int),
                self.sink().closed() == old(self).sink().closed(),
                old(self).sink().always_ready() ==> self.sink().always_ready(),
                old(self).sink().failure() is Some ==> self.sink().failure() is Some,
                !old(self).exhausted() ==> (old(self).stream().planned() matches Some(rest) ==> {
                    let n = self.stream().yielded().len() - start.len();
                    &&& n <= rest.len()
                    &&& self.stream().yielded() == start + rest.take(n)
                    &&& !self.exhausted() ==> self.stream().planned() == Some(rest.skip(n))
                    &&& self.exhausted() ==> n == rest.len()
                }),
            decreases if self.exhausted() { 0 } else { 1 + self.stream().burst() },
        {
            let ghost seen = self.stream().yielded();
            match self.stream.poll_next(cx) {
                Poll::Ready(Some(item)) => {
                    proof {
                        if !old(self).exhausted() {
                            if let Some(rest) = old(self).stream().planned() {
                                let n = seen.len() - start.len();
                                assert(rest.skip(n)[0] == rest[n]);
                                assert(rest.take(n + 1) =~= rest.take(n).push(rest[n]));
                                assert(start + rest.take(n + 1) =~= (start + rest.take(n)).push(
                                    rest[n],
                                ));
                                assert(rest.skip(n).skip(1) =~= rest.skip(n + 1));
                            }
                        }
                    }
                    assert(self.stream().yielded().skip(start.len() as int) =~= seen.skip(
                        start.len() as int,
                    ).push(item));
                    let answer = self.sink.start_send(cx, item);
                    match settle(&mut self.buffered, answer) {
                        Poll::Ready(Ok(())) => {
                            assert(self.target() =~= goal + self.stream().yielded().skip(
                                start.len() as int,
                            ));
                        },
                        Poll::Pending => {
                            assert(self.target() =~= goal + self.stream().yielded().skip(
                                start.len() as int,
                            ));
                            return Poll::Pending;
                        },
                        Poll::Ready(Err(e)) => {
                            return Poll::Ready(Err(e));
                        },
                    }
                },
                Poll::Ready(None) => {
                    self.exhausted = true;
                },
                Poll::Pending => {
                    match self.sink.poll_flush(cx) {
                        Poll::Ready(Err(e)) => {
                            return Poll::Ready(Err(e));
                        },
                        _ => {
                            return Poll::Pending;
                        },
                    }
                },
            }
        }
        self.sink.poll_flush(cx)
    }
}

} // verus!
