//! Duplication of every item to two sinks.

use crate::sink::{settle, will_take, Sink, StartSend};
use std::task::{Context, Poll};
use vstd::prelude::*;

verus! {

/// Hands a copy of every item to each of two sinks.
///
/// An item counts as accepted once both sinks have taken their copy.  While only
/// one of them has, the item goes back to the caller, who offers it again; the
/// sink that already has its copy is left alone then.
///
/// Once either sink has reported an error, the fan-out leaves both alone and
/// answers every call with "not ready".
pub struct Fanout<A: Sink, B: Sink<Item = A::Item, Error = A::Error>> {
    left: A,
    right: B,
    left_held: Option<A::Item>,
    right_held: Option<A::Item>,
    left_done: bool,
    right_done: bool,
    closing: bool,
    failed: bool,
    current: Ghost<Option<A::Item>>,
    history: Ghost<Seq<A::Item>>,
    left_start: Ghost<Seq<A::Item>>,
    right_start: Ghost<Seq<A::Item>>,
    error: Ghost<Option<A::Error>>,
}

/// `copies` holds one copy of each item of `items`, in the same order.
pub open spec fn copies_of<T: Clone>(items: Seq<T>, copies: Seq<T>) -> bool {
    &&& copies.len() == items.len()
    &&& forall|i: int| 0 <= i < items.len() ==> cloned(items[i], #[trigger] copies[i])
}

/// Whether the item on offer counts as accepted: it does once both sinks have
/// their copy, and the two marks are cleared for the next item then.  Otherwise
/// the item goes back to the caller and the marks stay.
pub fn verdict<T>(left_done: &mut bool, right_done: &mut bool, item: T) -> (r: StartSend<T>)
    ensures
        *old(left_done) && *old(right_done) ==> r is Accepted && !*final(left_done)
            && !*final(right_done),
        !(*old(left_done) && *old(right_done)) ==> r == StartSend::Rejected(item)
            && *final(left_done) == *old(left_done) && *final(right_done) == *old(right_done),
{
    if *left_done && *right_done {
        *left_done = false;
        *right_done = false;
        StartSend::Accepted
    } else {
        StartSend::Rejected(item)
    }
}

/// The answer of the fan-out to a flush or a close, from the answers of its two
/// sinks: an error comes first, the left one before the right one; without an
/// error the fan-out is ready when both sinks are.
pub fn conjunction<E>(left: Poll<Result<(), E>>, right: Poll<Result<(), E>>) -> (r: Poll<
    Result<(), E>,
>)
    ensures
        left matches Poll::Ready(Err(e)) ==> r == Poll::Ready(Err::<(), E>(e)),
        right matches Poll::Ready(Err(e)) ==> !(left matches Poll::Ready(Err(_))) ==> r
            == Poll::Ready(Err::<(), E>(e)),
        (left matches Poll::Ready(Ok(_))) && (right matches Poll::Ready(Ok(_)))
            ==> (r matches Poll::Ready(Ok(_))),
        !(left matches Poll::Ready(Err(_))) && !(right matches Poll::Ready(Err(_))) && (left
            is Pending || right is Pending) ==> r is Pending,
{
    match left {
        Poll::Ready(Err(e)) => Poll::Ready(Err(e)),
        Poll::Ready(Ok(())) => right,
        Poll::Pending => match right {
            Poll::Ready(Err(e)) => Poll::Ready(Err(e)),
            _ => Poll::Pending,
        },
    }
}

impl<A: Sink, B: Sink<Item = A::Item, Error = A::Error>> Fanout<A, B> where A::Item: Clone {
    /// The first of the two sinks.
    pub closed spec fn left(&self) -> A {
        self.left
    }

    /// The second of the two sinks.
    pub closed spec fn right(&self) -> B {
        self.right
    }

    /// What the first sink had accepted when it was wrapped.
    pub closed spec fn left_wrapped_at(&self) -> Seq<A::Item> {
        self.left_start@
    }

    /// What the second sink had accepted when it was wrapped.
    pub closed spec fn right_wrapped_at(&self) -> Seq<A::Item> {
        self.right_start@
    }

    /// The item that is half-way: one sink may have its copy, the other not.
    pub closed spec fn on_offer(&self) -> Option<A::Item> {
        self.current@
    }

    /// What the first sink has accepted since it was wrapped.
    pub closed spec fn left_copies(&self) -> Seq<A::Item> {
        self.left.sent().skip(self.left_start@.len() as int)
    }

    /// What the second sink has accepted since it was wrapped.
    pub closed spec fn right_copies(&self) -> Seq<A::Item> {
        self.right.sent().skip(self.right_start@.len() as int)
    }

    /// The first sink has its copy of the item that is being offered.
    pub closed spec fn left_taken(&self) -> bool {
        self.left_done
    }

    /// The second sink has its copy of the item that is being offered.
    pub closed spec fn right_taken(&self) -> bool {
        self.right_done
    }

    /// A close has been asked for.
    pub closed spec fn closing(&self) -> bool {
        self.closing
    }

    /// The first sink has its copy of the item on offer, or will take one.
    pub open spec fn left_sure(&self) -> bool {
        self.left_taken() || will_take(self.left())
    }

    /// The second sink has its copy of the item on offer, or will take one.
    pub open spec fn right_sure(&self) -> bool {
        self.right_taken() || will_take(self.right())
    }

    /// One of the sinks has reported an error through this fan-out.
    pub closed spec fn has_failed(&self) -> bool {
        self.failed
    }

    /// Wraps the two sinks.
    pub fn new(left: A, right: B) -> (r: Self)
        ensures
            r.left() == left,
            r.right() == right,
            r.sent() == Seq::<A::Item>::empty(),
            r.awaiting() is None,
            r.left_wrapped_at() == left.sent(),
            r.right_wrapped_at() == right.sent(),
            !r.closing(),
            !r.has_failed(),
            left.inv() && right.inv() && !left.closed() && !right.closed()
                && left.awaiting() is None && right.awaiting() is None ==> r.inv(),
    {
        let r = Fanout {
            left,
            right,
            left_held: None,
            right_held: None,
            left_done: false,
            right_done: false,
            closing: false,
            failed: false,
            current: Ghost(None),
            history: Ghost(Seq::empty()),
            left_start: Ghost(left.sent()),
            right_start: Ghost(right.sent()),
            error: Ghost(None),
        };
        assert(r.left_copies() =~= Seq::<A::Item>::empty());
        assert(r.right_copies() =~= Seq::<A::Item>::empty());
        r
    }

    /// The two wrapped sinks.
    pub fn get_ref(&self) -> (r: (&A, &B))
        ensures
            *r.0 == self.left(),
            *r.1 == self.right(),
    {
        (&self.left, &self.right)
    }

    /// Gives the two sinks back.
    pub fn into_inner(self) -> (r: (A, B))
        ensures
            r.0 == self.left(),
            r.1 == self.right(),
    {
        (self.left, self.right)
    }

    /// One side's share of the invariant: the copies it has taken match the
    /// accepted items, plus one for the item on offer if it already has that.
    pub open spec fn side_ok(
        offered: Option<A::Item>,
        accepted: Seq<A::Item>,
        copies: Seq<A::Item>,
        held: Option<A::Item>,
        taken: bool,
        waits_for: Option<A::Item>,
    ) -> bool {
        &&& waits_for matches Some(y) ==> held == Some(y)
        &&& held matches Some(c) ==> !taken && (offered matches Some(x) && cloned(x, c))
        &&& if taken {
            &&& copies.len() == accepted.len() + 1
            &&& copies_of(accepted, copies.drop_last())
            &&& offered matches Some(x) && cloned(x, copies.last())
        } else {
            copies_of(accepted, copies)
        }
    }

    /// What holds of a fan-out as long as neither sink has failed.
    pub closed spec fn sound(&self) -> bool {
        &&& self.left.inv()
        &&& self.right.inv()
        &&& self.left_start@.is_prefix_of(self.left.sent())
        &&& self.right_start@.is_prefix_of(self.right.sent())
        &&& !(self.left_done && self.right_done)
        &&& self.current@ is None ==> !self.left_done && !self.right_done
        &&& !self.closing ==> !self.left.closed() && !self.right.closed()
        &&& Self::side_ok(
            self.current@,
            self.history@,
            self.left_copies(),
            self.left_held,
            self.left_done,
            self.left.awaiting(),
        )
        &&& Self::side_ok(
            self.current@,
            self.history@,
            self.right_copies(),
            self.right_held,
            self.right_done,
            self.right.awaiting(),
        )
    }

    /// When no item is half-way, each sink has taken exactly one copy of every
    /// accepted item, in the order of acceptance, and nothing besides.
    pub proof fn lemma_both_sides_complete(&self)
        requires
            self.inv(),
            !self.has_failed(),
            !self.left_taken(),
            !self.right_taken(),
        ensures
            copies_of(self.sent(), self.left_copies()),
            copies_of(self.sent(), self.right_copies()),
            self.left().sent() == self.left_wrapped_at() + self.left_copies(),
            self.right().sent() == self.right_wrapped_at() + self.right_copies(),
            self.left().inv(),
            self.right().inv(),
    {
        self.lemma_one_side_ahead();
    }

    /// While an item is half-way, the sink that has its copy has exactly one
    /// item more than were accepted, and the other has exactly as many.
    pub proof fn lemma_one_side_ahead(&self)
        requires
            self.inv(),
            !self.has_failed(),
        ensures
            !(self.left_taken() && self.right_taken()),
            self.left().sent() == self.left_wrapped_at() + self.left_copies(),
            self.right().sent() == self.right_wrapped_at() + self.right_copies(),
            self.left().inv(),
            self.right().inv(),
            self.left_copies().len() == self.sent().len() + if self.left_taken() {
                1nat
            } else {
                0nat
            },
            self.right_copies().len() == self.sent().len() + if self.right_taken() {
                1nat
            } else {
                0nat
            },
            self.left_taken() || self.right_taken() ==> self.awaiting() is Some,
    {
        assert(self.left.sent() =~= self.left_start@ + self.left_copies());
        assert(self.right.sent() =~= self.right_start@ + self.right_copies());
    }

    /// A fan-out that is ready for a fresh item has no copy outstanding.
    pub proof fn lemma_idle_when_not_awaiting(&self)
        requires
            self.inv(),
            !self.has_failed(),
            self.awaiting() is None,
        ensures
            !self.left_taken(),
            !self.right_taken(),
    {
    }

    fn fail(&mut self, e: &A::Error)
        ensures
            final(self).failed,
            final(self).error@ == Some(*e),
            final(self).left == old(self).left,
            final(self).right == old(self).right,
            final(self).history == old(self).history,
            final(self).current == old(self).current,
            final(self).closing == old(self).closing,
            final(self).left_start == old(self).left_start,
            final(self).right_start == old(self).right_start,
            final(self).left_done == old(self).left_done,
            final(self).right_done == old(self).right_done,
    {
        self.failed = true;
        proof {
            self.error = Ghost(Some(*e));
        }
    }
}

impl<A: Sink, B: Sink<Item = A::Item, Error = A::Error>> Sink for Fanout<A, B> where
    A::Item: Clone,
 {
    type Item = A::Item;

    type Error = A::Error;

    open spec fn inv(&self) -> bool {
        self.has_failed() || self.sound()
    }

    closed spec fn sent(&self) -> Seq<A::Item> {
        self.history@
    }

    open spec fn awaiting(&self) -> Option<A::Item> {
        if self.has_failed() {
            None
        } else {
            self.on_offer()
        }
    }

    open spec fn flushed(&self) -> bool {
        !self.has_failed() && self.left().flushed() && self.right().flushed()
    }

    open spec fn closed(&self) -> bool {
        !self.has_failed() && self.left().closed() && self.right().closed()
    }

    closed spec fn failure(&self) -> Option<A::Error> {
        if self.failed {
            self.error@
        } else {
            None
        }
    }

    open spec fn takes_next(&self) -> bool {
        &&& !self.has_failed()
        &&& !self.closing()
        &&& self.left_sure()
        &&& self.right_sure()
    }

    open spec fn keeps(&self, earlier: &Self) -> bool {
        &&& self.left_wrapped_at() == earlier.left_wrapped_at()
        &&& self.right_wrapped_at() == earlier.right_wrapped_at()
        &&& self.left().keeps(&earlier.left())
        &&& self.right().keeps(&earlier.right())
    }

    open spec fn always_ready(&self) -> bool {
        !self.has_failed() && self.left().always_ready() && self.right().always_ready()
            && !self.closing()
    }

    /// Offers a copy to each sink that has none yet; accepts once both have one.
    fn start_send(&mut self, cx: &mut Context<'_>, item: A::Item) -> (r: Result<
        StartSend<A::Item>,
        A::Error,
    >)
        ensures
            old(self).has_failed() ==> r == Ok::<StartSend<A::Item>, A::Error>(
                StartSend::Rejected(item),
            ) && *final(self) == *old(self),
            final(self).has_failed() == (old(self).has_failed() || r is Err),
            final(self).left_wrapped_at() == old(self).left_wrapped_at(),
            final(self).right_wrapped_at() == old(self).right_wrapped_at(),
            r is Err ==> final(self).sent() == old(self).sent(),
            old(self).left_taken() ==> final(self).left() == old(self).left(),
            old(self).right_taken() ==> final(self).right() == old(self).right(),
            !old(self).has_failed() && !old(self).closing() && old(self).left_sure() ==> {
                ||| final(self).left_taken()
                ||| r matches Ok(StartSend::Accepted)
                ||| r is Err
            },
            !old(self).has_failed() && !old(self).closing() && old(self).right_sure() ==> {
                ||| final(self).right_taken()
                ||| r matches Ok(StartSend::Accepted)
                ||| final(self).left().failure() is Some
            },
            r matches Ok(StartSend::Accepted) ==> !final(self).left_taken()
                && !final(self).right_taken(),
            r matches Ok(StartSend::Rejected(_)) ==> {
                &&& old(self).left_taken() ==> final(self).left_taken()
                &&& old(self).right_taken() ==> final(self).right_taken()
                &&& final(self).closing() == old(self).closing()
            },
            r matches Err(e) ==> {
                ||| final(self).left().failure() == Some(e) && final(self).right()
                    == old(self).right()
                ||| {
                    &&& final(self).right().failure() == Some(e)
                    &&& final(self).left().inv()
                    &&& !final(self).left().closed()
                }
            },
    {
        if self.failed || self.closing {
            return Ok(StartSend::Rejected(item));
        }
        proof {
            self.current = Ghost(Some(item));
        }
        if !self.left_done {
            let ghost before = self.left_copies();
            let copy = match self.left_held.take() {
                Some(c) => c,
                None => item.clone(),
            };
            let answer = self.left.start_send(cx, copy);
            match settle(&mut self.left_held, answer) {
                Poll::Ready(Ok(())) => {
                    self.left_done = true;
                    assert(self.left_copies() =~= before.push(copy));
                    assert(self.left_copies().drop_last() =~= before);
                },
                Poll::Ready(Err(e)) => {
                    self.fail(&e);
                    return Err(e);
                },
                Poll::Pending => {},
            }
        }
        if !self.right_done {
            let ghost before = self.right_copies();
            let copy = match self.right_held.take() {
                Some(c) => c,
                None => item.clone(),
            };
            let answer = self.right.start_send(cx, copy);
            match settle(&mut self.right_held, answer) {
                Poll::Ready(Ok(())) => {
                    self.right_done = true;
                    assert(self.right_copies() =~= before.push(copy));
                    assert(self.right_copies().drop_last() =~= before);
                },
                Poll::Ready(Err(e)) => {
                    self.fail(&e);
                    return Err(e);
                },
                Poll::Pending => {},
            }
        }
        let ghost both = self.left_done && self.right_done;
        let r = verdict(&mut self.left_done, &mut self.right_done, item);
        proof {
            if both {
                let earlier = self.history@;
                self.history = Ghost(earlier.push(item));
                self.current = Ghost(None);
                assert(self.history@.drop_last() =~= earlier);
                let lefts = self.left_copies();
                let rights = self.right_copies();
                assert forall|i: int| 0 <= i < self.history@.len() implies cloned(
                    self.history@[i],
                    #[trigger] lefts[i],
                ) by {
                    if i < earlier.len() {
                        assert(lefts.drop_last()[i] == lefts[i]);
                    }
                }
                assert forall|i: int| 0 <= i < self.history@.len() implies cloned(
                    self.history@[i],
                    #[trigger] rights[i],
                ) by {
                    if i < earlier.len() {
                        assert(rights.drop_last()[i] == rights[i]);
                    }
                }
            }
        }
        Ok(r)
    }

    /// Flushes both sinks, each on every call.
    fn poll_flush(&mut self, cx: &mut Context<'_>) -> (r: Poll<Result<(), A::Error>>)
        ensures
            old(self).has_failed() ==> r is Pending && *final(self) == *old(self),
            final(self).has_failed() == (old(self).has_failed() || r matches Poll::Ready(Err(_))),
            final(self).left_wrapped_at() == old(self).left_wrapped_at(),
            final(self).right_wrapped_at() == old(self).right_wrapped_at(),
            final(self).sent() == old(self).sent(),
            !old(self).has_failed() && !(r matches Poll::Ready(Err(_))) ==> {
                &&& final(self).left().sent() == old(self).left().sent()
                &&& final(self).right().sent() == old(self).right().sent()
                &&& old(self).left().always_ready() ==> final(self).left().flushed()
                &&& old(self).right().always_ready() ==> final(self).right().flushed()
                &&& old(self).left().flushed() && r is Pending ==> !old(self).right().flushed()
            },
            r matches Poll::Ready(Err(e)) ==> {
                ||| final(self).left().failure() == Some(e) && final(self).right()
                    == old(self).right()
                ||| {
                    &&& final(self).right().failure() == Some(e)
                    &&& final(self).left().inv()
                    &&& final(self).left().sent() == old(self).left().sent()
                    &&& final(self).left().closed() == old(self).left().closed()
                }
            },
    {
        if self.failed {
            return Poll::Pending;
        }
        let left = self.left.poll_flush(cx);
        if let Poll::Ready(Err(e)) = left {
            self.fail(&e);
            return Poll::Ready(Err(e));
        }
        let right = self.right.poll_flush(cx);
        let r = conjunction(left, right);
        if let Poll::Ready(Err(e)) = &r {
            self.fail(e);
        }
        r
    }

    /// Closes both sinks, each on every call.
    fn poll_close(&mut self, cx: &mut Context<'_>) -> (r: Poll<Result<(), A::Error>>)
        ensures
            old(self).has_failed() ==> r is Pending && *final(self) == *old(self),
            final(self).has_failed() == (old(self).has_failed() || r matches Poll::Ready(Err(_))),
            final(self).left_wrapped_at() == old(self).left_wrapped_at(),
            final(self).right_wrapped_at() == old(self).right_wrapped_at(),
            final(self).sent() == old(self).sent(),
            !old(self).has_failed() ==> final(self).closing(),
            !old(self).has_failed() && !(r matches Poll::Ready(Err(_))) ==> {
                &&& final(self).left().sent() == old(self).left().sent()
                &&& final(self).right().sent() == old(self).right().sent()
                &&& old(self).left().always_ready() ==> final(self).left().closed()
                &&& old(self).right().always_ready() ==> final(self).right().closed()
                &&& old(self).left().closed() && r is Pending ==> !old(self).right().closed()
            },
            r matches Poll::Ready(Err(e)) ==> {
                ||| final(self).left().failure() == Some(e) && final(self).right()
                    == old(self).right()
                ||| {
                    &&& final(self).right().failure() == Some(e)
                    &&& final(self).left().inv()
                    &&& final(self).left().sent() == old(self).left().sent()
                }
            },
    {
        if self.failed {
            return Poll::Pending;
        }
        self.closing = true;
        let left = self.left.poll_close(cx);
        if let Poll::Ready(Err(e)) = left {
            self.fail(&e);
            return Poll::Ready(Err(e));
        }
        let right = self.right.poll_close(cx);
        let r = conjunction(left, right);
        if let Poll::Ready(Err(e)) = &r {
            self.fail(e);
        }
        r
    }
}

} // verus!
