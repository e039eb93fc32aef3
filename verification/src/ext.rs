//! The adapters and operations as methods of every sink.

use crate::buffer::Buffer;
use crate::close::Close;
use crate::err_into::SinkErrInto;
use crate::fanout::Fanout;
use crate::flush::Flush;
use crate::future::Future;
use crate::map_err::SinkMapErr;
use crate::send::Send;
use crate::send_all::SendAll;
use crate::sink::Sink;
use crate::step::Step;
use crate::stream::Stream;
use crate::with::With;
use crate::with_flat_map::WithFlatMap;
use either::Either;
use vstd::prelude::*;

verus! {

/// Builds adapter stacks and one-shot operations by method calls.  Every sink
/// has these methods.
pub trait SinkExt: Sink {
    /// Puts a step function in front of the sink: every item goes through `f`,
    /// the future that `f` returns is driven to its result, and the result goes
    /// to this sink.  An error of the future is the new sink's error.
    fn with<U, Fut, F, E>(self, f: F) -> (r: With<Self, U, Fut, F>) where
        F: Step<U, Output = Fut>,
        Fut: Future<Output = Result<Self::Item, E>>,
        E: From<Self::Error>,
        Self: Sized,

        ensures
            r.inner() == self,
            r.step() == f,
            r.idle(),
            r.sent() == Seq::<U>::empty(),
            r.converted() == Seq::<Self::Item>::empty(),
            r.wrapped_at() == self.sent(),
            r.calls_at_wrapping() == f.calls(),
            !r.has_failed(),
            self.inv() && self.awaiting() is None && With::<Self, U, Fut, F>::usable(f) ==> r.inv(),
    {
        With::new(self, f)
    }

    /// Puts an expanding function in front of the sink: every item goes through
    /// `f`, and each item of the stream that `f` returns goes to this sink.  No
    /// further item is taken until that stream is drained.
    fn with_flat_map<U, St, F>(self, f: F) -> (r: WithFlatMap<Self, U, St, F>) where
        F: Step<U, Output = St>,
        St: Stream<Item = Result<Self::Item, Self::Error>>,
        Self: Sized,

        ensures
            r.inner() == self,
            r.step() == f,
            r.idle(),
            r.sent() == Seq::<U>::empty(),
            r.emitted() == Seq::<Self::Item>::empty(),
            r.completed() == 0,
            r.wrapped_at() == self.sent(),
            r.calls_at_wrapping() == f.calls(),
            !r.has_failed(),
            self.inv() && self.awaiting() is None && WithFlatMap::<Self, U, St, F>::usable(f)
                ==> r.inv(),
    {
        WithFlatMap::new(self, f)
    }

    /// Passes the errors of the sink through `f`.
    fn sink_map_err<F>(self, f: F) -> (r: SinkMapErr<Self, F>) where
        F: Step<Self::Error>,
        Self: Sized,

        ensures
            r.inner() == self,
            r.step() == f,
            !r.has_failed(),
    {
        SinkMapErr::new(self, f)
    }

    /// Converts the errors of the sink into `E`.
    fn sink_err_into<E>(self) -> (r: SinkErrInto<Self, E>) where
        E: From<Self::Error>,
        Self: Sized,

        ensures
            r.inner() == self,
            !r.has_failed(),
    {
        SinkErrInto::new(self)
    }

    /// Puts a queue of up to `capacity` items in front of the sink.
    fn buffer(self, capacity: usize) -> (r: Buffer<Self>) where Self: Sized
        ensures
            r.inner() == self,
            r.queued() == Seq::<Self::Item>::empty(),
            r.limit() == capacity,
            !r.has_failed(),
    {
        Buffer::new(self, capacity)
    }

    /// An operation that closes the sink.
    fn close<'a>(&'a mut self) -> (r: Close<'a, Self>) where Self: Sized
        ensures
            r.sink() == *old(self),
            *final(r.borrow()) == *final(self),
    {
        Close::new(self)
    }

    /// A sink that hands a copy of every item to this sink and to `other`.
    fn fanout<Si>(self, other: Si) -> (r: Fanout<Self, Si>) where
        Self: Sized,
        Self::Item: Clone,
        Si: Sink<Item = Self::Item, Error = Self::Error>,

        ensures
            r.left() == self,
            r.right() == other,
            r.sent() == Seq::<Self::Item>::empty(),
            r.awaiting() is None,
            r.left_wrapped_at() == self.sent(),
            r.right_wrapped_at() == other.sent(),
            !r.closing(),
            !r.has_failed(),
            self.inv() && other.inv() && !self.closed() && !other.closed()
                && self.awaiting() is None && other.awaiting() is None ==> r.inv(),
    {
        Fanout::new(self, other)
    }

    /// An operation that flushes the sink.
    fn flush<'a>(&'a mut self) -> (r: Flush<'a, Self>) where Self: Sized
        ensures
            r.sink() == *old(self),
            *final(r.borrow()) == *final(self),
    {
        Flush::new(self)
    }

    /// An operation that sends `item` and then flushes the sink.
    fn send<'a>(&'a mut self, item: Self::Item) -> (r: Send<'a, Self>) where Self: Sized
        ensures
            r.sink() == *old(self),
            *final(r.borrow()) == *final(self),
            r.unsent() == Some(item),
    {
        Send::new(self, item)
    }

    /// An operation that sends every item of `stream`, in order, and then
    /// flushes the sink.  It does not close the sink.
    fn send_all<'a, St>(&'a mut self, stream: &'a mut St) -> (r: SendAll<'a, Self, St>) where
        St: Stream<Item = Self::Item>,
        Self: Sized,

        ensures
            r.sink() == *old(self),
            r.stream() == *old(stream),
            *final(r.sink_borrow()) == *final(self),
            *final(r.stream_borrow()) == *final(stream),
            r.unsent() is None,
            !r.exhausted(),
    {
        SendAll::new(self, stream)
    }

    /// This sink as the left one of two kinds of sink.
    fn left_sink<Si2>(self) -> (r: Either<Self, Si2>) where
        Si2: Sink<Item = Self::Item, Error = Self::Error>,
        Self: Sized,

        ensures
            r == Either::<Self, Si2>::Left(self),
    {
        Either::Left(self)
    }

    /// This sink as the right one of two kinds of sink.
    fn right_sink<Si1>(self) -> (r: Either<Si1, Self>) where
        Si1: Sink<Item = Self::Item, Error = Self::Error>,
        Self: Sized,

        ensures
            r == Either::<Si1, Self>::Right(self),
    {
        Either::Right(self)
    }
}

impl<T: Sink> SinkExt for T {

}

/// The drain operation as a method of every stream.
pub trait StreamExt: Stream {
    /// An operation that sends every item of this stream to `sink`, in order,
    /// and then flushes the sink.  It does not close the sink.  It is the
    /// operation that `sink.send_all(self)` gives.
    fn forward<'a, Si>(&'a mut self, sink: &'a mut Si) -> (r: SendAll<'a, Si, Self>) where
        Si: Sink<Item = Self::Item>,
        Self: Sized,

        ensures
            r.sink() == *old(sink),
            r.stream() == *old(self),
            *final(r.sink_borrow()) == *final(sink),
            *final(r.stream_borrow()) == *final(self),
            r.unsent() is None,
            !r.exhausted(),
    {
        SendAll::new(sink, self)
    }
}

impl<T: Stream> StreamExt for T {

}

} // verus!
