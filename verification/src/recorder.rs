//! An in-memory sink that is always ready.

use crate::sink::{Sink, StartSend};
use std::convert::Infallible;
use std::task::{Context, Poll};
use vstd::prelude::*;

verus! {

/// Keeps every item it is given, in order, and notes whether it was closed.
pub struct Recorder<T> {
    items: Vec<T>,
    closed: bool,
}

impl<T> Recorder<T> {
    /// An open recorder that holds nothing.
    pub fn new() -> (r: Self)
        ensures
            r.inv(),
            r.sent() == Seq::<T>::empty(),
            !r.closed(),
    {
        Recorder { items: Vec::new(), closed: false }
    }

    /// The items recorded so far, oldest first.
    pub fn items(&self) -> (r: &Vec<T>)
        ensures
            r@ == self.sent(),
    {
        &self.items
    }

    /// Whether the end of input has been signalled.
    pub fn is_closed(&self) -> (r: bool)
        ensures
            r == self.closed(),
    {
        self.closed
    }

    /// Gives up the recorder for what it has recorded.
    pub fn into_items(self) -> (r: Vec<T>)
        ensures
            r@ == self.sent(),
    {
        self.items
    }
}

impl<T> Sink for Recorder<T> {
    type Item = T;

    type Error = Infallible;

    open spec fn inv(&self) -> bool {
        true
    }

    closed spec fn sent(&self) -> Seq<T> {
        self.items@
    }

    open spec fn awaiting(&self) -> Option<T> {
        None
    }

    open spec fn flushed(&self) -> bool {
        true
    }

    closed spec fn closed(&self) -> bool {
        self.closed
    }

    open spec fn failure(&self) -> Option<Infallible> {
        None
    }

    open spec fn always_ready(&self) -> bool {
        true
    }

    open spec fn takes_next(&self) -> bool {
        true
    }

    open spec fn keeps(&self, earlier: &Self) -> bool {
        true
    }

    fn start_send(&mut self, cx: &mut Context<'_>, item: T) -> (r: Result<StartSend<T>, Infallible>)
        ensures
            r matches Ok(StartSend::Accepted),
    {
        self.items.push(item);
        Ok(StartSend::Accepted)
    }

    fn poll_flush(&mut self, cx: &mut Context<'_>) -> (r: Poll<Result<(), Infallible>>)
        ensures
            r matches Poll::Ready(Ok(_)),
    {
        Poll::Ready(Ok(()))
    }

    fn poll_close(&mut self, cx: &mut Context<'_>) -> (r: Poll<Result<(), Infallible>>)
        ensures
            r matches Poll::Ready(Ok(_)),
    {
        self.closed = true;
        Poll::Ready(Ok(()))
    }
}

} // verus!
