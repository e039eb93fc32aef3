//! One of two kinds of sink behind one type.

use crate::sink::{Sink, StartSend};
use either::Either;
use std::task::{Context, Poll};
use vstd::prelude::*;

verus! {

/// `either::Either`, taken as the enum that the crate defines: the variants
/// `Left(L)` and `Right(R)`, and nothing else.  Proofs match on them.
#[verifier::external_type_specification]
#[verifier::reject_recursive_types(L)]
#[verifier::reject_recursive_types(R)]
pub struct ExEither<L, R>(either::Either<L, R>);

/// An `Either` of two sinks is the sink that it holds: every call goes to that
/// sink, and the model is that sink's model.
impl<A: Sink, B: Sink<Item = A::Item, Error = A::Error>> Sink for Either<A, B> {
    type Item = A::Item;

    type Error = A::Error;

    open spec fn inv(&self) -> bool {
        match self {
            Either::Left(a) => a.inv(),
            Either::Right(b) => b.inv(),
        }
    }

    open spec fn sent(&self) -> Seq<A::Item> {
        match self {
            Either::Left(a) => a.sent(),
            Either::Right(b) => b.sent(),
        }
    }

    open spec fn awaiting(&self) -> Option<A::Item> {
        match self {
            Either::Left(a) => a.awaiting(),
            Either::Right(b) => b.awaiting(),
        }
    }

    open spec fn flushed(&self) -> bool {
        match self {
            Either::Left(a) => a.flushed(),
            Either::Right(b) => b.flushed(),
        }
    }

    open spec fn closed(&self) -> bool {
        match self {
            Either::Left(a) => a.closed(),
            Either::Right(b) => b.closed(),
        }
    }

    open spec fn failure(&self) -> Option<A::Error> {
        match self {
            Either::Left(a) => a.failure(),
            Either::Right(b) => b.failure(),
        }
    }

    open spec fn takes_next(&self) -> bool {
        match self {
            Either::Left(a) => a.takes_next(),
            Either::Right(b) => b.takes_next(),
        }
    }

    open spec fn keeps(&self, earlier: &Self) -> bool {
        match (self, earlier) {
            (Either::Left(a), Either::Left(b)) => a.keeps(b),
            (Either::Right(a), Either::Right(b)) => a.keeps(b),
            _ => false,
        }
    }

    open spec fn always_ready(&self) -> bool {
        match self {
            Either::Left(a) => a.always_ready(),
            Either::Right(b) => b.always_ready(),
        }
    }

    fn start_send(&mut self, cx: &mut Context<'_>, item: A::Item) -> (r: Result<
        StartSend<A::Item>,
        A::Error,
    >)
        ensures
            (*final(self) is Left) == (*old(self) is Left),
    {
        match self {
            Either::Left(a) => a.start_send(cx, item),
            Either::Right(b) => b.start_send(cx, item),
        }
    }

    fn poll_flush(&mut self, cx: &mut Context<'_>) -> (r: Poll<Result<(), A::Error>>)
        ensures
            (*final(self) is Left) == (*old(self) is Left),
    {
        match self {
            Either::Left(a) => a.poll_flush(cx),
            Either::Right(b) => b.poll_flush(cx),
        }
    }

    fn poll_close(&mut self, cx: &mut Context<'_>) -> (r: Poll<Result<(), A::Error>>)
        ensures
            (*final(self) is Left) == (*old(self) is Left),
    {
        match self {
            Either::Left(a) => a.poll_close(cx),
            Either::Right(b) => b.poll_close(cx),
        }
    }
}

} // verus!
