//! Conversion of every item by an asynchronous step before it reaches the sink.

use crate::future::Future;
use crate::sink::{carries_on, will_take, Sink, StartSend};
use crate::step::{same_maps, Step};
use std::task::{Context, Poll};
use vstd::prelude::*;

verus! {

/// Where the conversion of the last accepted item stands.
pub enum State<Fut, T> {
    /// No conversion is under way.
    Empty,
    /// The conversion has been started and has not come to its result.
    Process(Fut),
    /// The conversion is done and the wrapped sink has not taken the result.
    Buffered(T),
}

/// Passes every item through a step function, waits for the future that the
/// function returns, and hands the result to the wrapped sink.  The next item
/// is taken only when that is done.
///
/// Once the conversion or the wrapped sink has reported an error, the adapter
/// leaves both alone and answers every call with "not ready".
#[verifier::reject_recursive_types(U)]
#[verifier::reject_recursive_types(Fut)]
pub struct With<Si: Sink, U, Fut: Future, F> {
    sink: Si,
    f: F,
    state: State<Fut, Si::Item>,
    failed: bool,
    history: Ghost<Seq<U>>,
    converted: Ghost<Seq<Si::Item>>,
    base: Ghost<Seq<Si::Item>>,
    calls_base: Ghost<Seq<U>>,
    origin: Ghost<Option<Fut>>,
    error: Ghost<Option<Fut::Output>>,
}

/// What becomes of a conversion that was polled: one that is not done goes back
/// into `state`, and there is nothing to offer; a result is to be offered to
/// the sink; an error ends the operation.
pub fn after_conversion<Fut, T, E>(
    state: &mut State<Fut, T>,
    fut: Fut,
    outcome: Poll<Result<T, E>>,
) -> (r: Result<Option<T>, E>)
    ensures
        match outcome {
            Poll::Pending => r == Ok::<Option<T>, E>(None) && *final(state) == State::<
                Fut,
                T,
            >::Process(fut),
            Poll::Ready(Ok(item)) => r == Ok::<Option<T>, E>(Some(item)) && *final(state)
                == *old(state),
            Poll::Ready(Err(e)) => r == Err::<Option<T>, E>(e) && *final(state) == *old(state),
        },
{
    match outcome {
        Poll::Pending => {
            *state = State::Process(fut);
            Ok(None)
        },
        Poll::Ready(Ok(item)) => Ok(Some(item)),
        Poll::Ready(Err(e)) => Err(e),
    }
}

/// What becomes of the result of a conversion once the sink has answered its
/// offer: a result that was turned away is kept in `state`, to be offered
/// again, and the operation has to wait; an error ends it; `Ready(Ok(()))` says
/// that the result is with the sink.
pub fn after_offer<Fut, T, E>(state: &mut State<Fut, T>, answer: Result<StartSend<T>, E>) -> (r:
    Poll<Result<(), E>>)
    ensures
        match answer {
            Ok(StartSend::Accepted) => r == Poll::Ready(Ok::<(), E>(())) && *final(state)
                == *old(state),
            Ok(StartSend::Rejected(back)) => r is Pending && *final(state) == State::<
                Fut,
                T,
            >::Buffered(back),
            Err(e) => r == Poll::Ready(Err::<(), E>(e)) && *final(state) == *old(state),
        },
{
    match answer {
        Ok(StartSend::Accepted) => Poll::Ready(Ok(())),
        Ok(StartSend::Rejected(back)) => {
            *state = State::Buffered(back);
            Poll::Pending
        },
        Err(e) => Poll::Ready(Err(e)),
    }
}

impl<
    Si: Sink,
    U,
    E: From<Si::Error>,
    Fut: Future<Output = Result<Si::Item, E>>,
    F: Step<U, Output = Fut>,
> With<
    Si,
    U,
    Fut,
    F,
> {
    /// The wrapped sink.
    pub closed spec fn inner(&self) -> Si {
        self.sink
    }

    /// The step function.
    pub closed spec fn step(&self) -> F {
        self.f
    }

    /// Where the conversion of the last accepted item stands.
    pub closed spec fn state(&self) -> State<Fut, Si::Item> {
        self.state
    }

    /// The conversion or the wrapped sink has reported an error through this adapter.
    pub closed spec fn has_failed(&self) -> bool {
        self.failed
    }

    /// The results of the conversions that are done, oldest first.
    pub closed spec fn converted(&self) -> Seq<Si::Item> {
        self.converted@
    }

    /// What the wrapped sink had accepted when it was wrapped.
    pub closed spec fn wrapped_at(&self) -> Seq<Si::Item> {
        self.base@
    }

    /// What the step function had been called on when the adapter was made.
    pub closed spec fn calls_at_wrapping(&self) -> Seq<U> {
        self.calls_base@
    }

    /// What the wrapped sink has accepted since it was wrapped.
    pub closed spec fn delivered(&self) -> Seq<Si::Item> {
        self.sink.sent().skip(self.base@.len() as int)
    }

    /// The result held back, as a sequence of one or none.
    pub open spec fn held(&self) -> Seq<Si::Item> {
        match self.state() {
            State::Buffered(x) => seq![x],
            _ => Seq::empty(),
        }
    }

    /// No conversion is under way and no result is held back.
    pub open spec fn idle(&self) -> bool {
        self.state() is Empty
    }

    /// `f` can be called, and what it returns can be polled.
    pub open spec fn usable(f: F) -> bool {
        &&& f.inv()
        &&& forall|u: U, fut: Fut| #[trigger] f.maps(u, fut) ==> fut.inv()
    }

    /// Every future that `f` makes hands over a converted item at its first poll.
    pub open spec fn prompt(f: F) -> bool {
        forall|u: U, fut: Fut| #[trigger] f.maps(u, fut) ==> fut.settled() matches Some(Ok(_))
    }

    /// The conversion under way, if there is one, hands over a converted item
    /// at its next poll.
    pub open spec fn about_to_finish(&self) -> bool {
        self.state() matches State::Process(fut) ==> fut.settled() matches Some(Ok(_))
    }

    /// What is under way will be with the wrapped sink after the next poll:
    /// nothing is under way, or the result is there or about to be and the
    /// wrapped sink will take it.
    pub open spec fn about_to_clear(&self) -> bool {
        match self.state() {
            State::Empty => true,
            State::Buffered(_) => will_take(self.inner()),
            State::Process(fut) => fut.settled() matches Some(Ok(_)) && will_take(self.inner()),
        }
    }

    /// `out` is a result that a future made by `f` out of `u` can come to.
    pub open spec fn converts(f: F, u: U, out: Si::Item) -> bool {
        exists|fut: Fut| #[trigger] f.maps(u, fut) && fut.may_yield(Ok(out))
    }

    /// Wraps `sink`; `f` will be called once on every accepted item.
    pub fn new(sink: Si, f: F) -> (r: Self)
        ensures
            r.inner() == sink,
            r.step() == f,
            r.idle(),
            r.sent() == Seq::<U>::empty(),
            r.converted() == Seq::<Si::Item>::empty(),
            r.wrapped_at() == sink.sent(),
            r.calls_at_wrapping() == f.calls(),
            !r.has_failed(),
            sink.inv() && sink.awaiting() is None && Self::usable(f) ==> r.inv(),
    {
        let r = With {
            sink,
            f,
            state: State::Empty,
            failed: false,
            history: Ghost(Seq::empty()),
            converted: Ghost(Seq::empty()),
            base: Ghost(sink.sent()),
            calls_base: Ghost(f.calls()),
            origin: Ghost(None),
            error: Ghost(None),
        };
        assert(r.delivered() + r.held() =~= r.converted@);
        assert(r.f.calls() =~= r.calls_base@ + r.history@);
        r
    }

    /// The wrapped sink.
    pub fn get_ref(&self) -> (r: &Si)
        ensures
            *r == self.inner(),
    {
        &self.sink
    }

    /// Gives the wrapped sink back.  A conversion under way is dropped.
    pub fn into_inner(self) -> (r: Si)
        ensures
            r == self.inner(),
    {
        self.sink
    }

    /// Every result of a conversion is with the wrapped sink, in the order of
    /// the items it came from, but for the one held back; and there is one
    /// result for every accepted item, but for the one still under way.
    pub proof fn lemma_one_for_one(&self)
        requires
            self.inv(),
            !self.has_failed(),
        ensures
            self.inner().inv(),
            self.inner().sent() == self.wrapped_at() + self.delivered(),
            self.step().calls() == self.calls_at_wrapping() + self.sent(),
            self.delivered() + self.held() == self.converted(),
            self.state() is Process ==> self.converted().len() + 1 == self.sent().len(),
            !(self.state() is Process) ==> self.converted().len() == self.sent().len(),
            forall|i: int|
                0 <= i < self.converted().len() ==> Self::converts(
                    self.step(),
                    self.sent()[i],
                    #[trigger] self.converted()[i],
                ),
    {
        assert(self.sink.sent() =~= self.base@ + self.delivered());
    }

    /// What holds of the adapter as long as nothing has failed.
    pub closed spec fn sound(&self) -> bool {
        &&& self.sink.inv()
        &&& Self::usable(self.f)
        &&& self.base@.is_prefix_of(self.sink.sent())
        &&& self.f.calls() == self.calls_base@ + self.history@
        &&& self.delivered() + self.held() == self.converted@
        &&& forall|i: int|
            0 <= i < self.converted@.len() ==> Self::converts(
                self.f,
                self.history@[i],
                #[trigger] self.converted@[i],
            )
        &&& match self.state {
            State::Process(fut) => {
                &&& self.converted@.len() + 1 == self.history@.len()
                &&& fut.inv()
                &&& self.origin@ matches Some(source) && self.f.maps(self.history@.last(), source)
                    && forall|v: Result<Si::Item, E>| #[trigger]
                    fut.may_yield(v) ==> source.may_yield(v)
            },
            _ => self.converted@.len() == self.history@.len(),
        }
        &&& self.sink.awaiting() matches Some(x) ==> self.state == State::<Fut, Si::Item>::Buffered(
            x,
        )
        &&& self.sink.closed() ==> self.state is Empty
    }

    /// The error `e` left the wrapped sink as `before`, untouched, unless it is
    /// what `From` made of that sink's own error.
    pub open spec fn spared(&self, before: Si, e: E) -> bool {
        ||| self.inner() == before
        ||| self.inner().failure() matches Some(cause) && call_ensures(E::from, (cause,), e)
    }

    /// `e` is an error that the conversion of the last accepted item can come
    /// to, or what `From` made of the error that the wrapped sink reported.
    pub open spec fn passed_on(&self, e: E) -> bool {
        ||| self.sent().len() > 0 && exists|fut: Fut| #[trigger]
            self.step().maps(self.sent().last(), fut) && fut.may_yield(Err(e))
        ||| self.inner().failure() matches Some(cause) && call_ensures(E::from, (cause,), e)
    }

    fn fail(&mut self, e: &E)
        ensures
            final(self).failed,
            final(self).error@ == Some(Err::<Si::Item, E>(*e)),
            final(self).sink == old(self).sink,
            final(self).f == old(self).f,
            final(self).history == old(self).history,
            final(self).base == old(self).base,
            final(self).calls_base == old(self).calls_base,
            final(self).converted == old(self).converted,
            final(self).state == old(self).state,
    {
        self.failed = true;
        proof {
            self.error = Ghost(Some(Err(*e)));
        }
    }

    /// Brings the conversion under way to its result if it can, and hands the
    /// result to the wrapped sink if the sink takes it.
    fn poll(&mut self, cx: &mut Context<'_>) -> (r: Poll<Result<(), E>>)
        requires
            old(self).sound(),
            !old(self).has_failed(),
        ensures
            final(self).sent() == old(self).sent(),
            final(self).step() == old(self).step(),
            final(self).wrapped_at() == old(self).wrapped_at(),
            final(self).calls_at_wrapping() == old(self).calls_at_wrapping(),
            carries_on(final(self).inner(), old(self).inner()),
            old(self).converted().is_prefix_of(final(self).converted()),
            old(self).about_to_clear() ==> r matches Poll::Ready(Ok(_)),
            old(self).state() matches State::Buffered(x) ==> (r is Pending ==> final(self).state()
                == State::<Fut, Si::Item>::Buffered(x)),
            old(self).state() matches State::Process(fut) ==> (fut.settled() matches Some(Err(e))
                ==> r == Poll::Ready(Err::<(), E>(e))),
            !(r matches Poll::Ready(Err(_))) ==> {
                &&& final(self).sound()
                &&& !final(self).has_failed()
                &&& final(self).inner().closed() == old(self).inner().closed()
            },
            r matches Poll::Ready(Ok(_)) ==> final(self).idle(),
            r is Pending ==> !final(self).idle(),
            r matches Poll::Ready(Err(e)) ==> final(self).has_failed() && final(self).failure()
                == Some(e) && final(self).passed_on(e) && final(self).spared(old(self).inner(), e),
            old(self).idle() ==> (r matches Poll::Ready(Ok(_))) && final(self).inner()
                == old(self).inner(),
            old(self).inner().always_ready() && old(self).about_to_finish()
                ==> (r matches Poll::Ready(Ok(_))) && final(self).inner().always_ready(),
    {
        let mut state = State::Empty;
        std::mem::swap(&mut self.state, &mut state);
        let item = match state {
            State::Empty => {
                return Poll::Ready(Ok(()));
            },
            State::Process(fut) => {
                let mut fut = fut;
                let ghost source = self.origin@.unwrap();
                let outcome = fut.poll(cx);
                match after_conversion(&mut self.state, fut, outcome) {
                    Ok(None) => {
                        return Poll::Pending;
                    },
                    Ok(Some(item)) => {
                        proof {
                            assert(self.f.maps(self.history@.last(), source));
                            assert(source.may_yield(Ok(item)));
                            self.converted = Ghost(self.converted@.push(item));
                            self.origin = Ghost(None);
                        }
                        item
                    },
                    Err(e) => {
                        self.fail(&e);
                        proof {
                            assert(self.step().maps(self.history@.last(), source));
                            assert(source.may_yield(Err(e)));
                        }
                        return Poll::Ready(Err(e));
                    },
                }
            },
            State::Buffered(item) => item,
        };
        let ghost before = self.delivered();
        let answer = self.sink.start_send(cx, item);
        match after_offer(&mut self.state, answer) {
            Poll::Ready(Ok(())) => {
                assert(self.delivered() =~= before.push(item));
                assert(self.delivered() + self.held() =~= self.converted@);
                Poll::Ready(Ok(()))
            },
            Poll::Pending => {
                assert(self.delivered() + self.held() =~= self.converted@);
                Poll::Pending
            },
            Poll::Ready(Err(cause)) => {
                let e = E::from(cause);
                self.fail(&e);
                Poll::Ready(Err(e))
            },
        }
    }

    /// Passes on what the wrapped sink answered to a flush or a close.
    fn pass_on(&mut self, answer: Poll<Result<(), Si::Error>>) -> (r: Poll<Result<(), E>>)
        requires
            !old(self).failed,
            answer matches Poll::Ready(Err(cause)) ==> old(self).sink.failure() == Some(cause),
        ensures
            final(self).sink == old(self).sink,
            final(self).f == old(self).f,
            final(self).history == old(self).history,
            final(self).base == old(self).base,
            final(self).calls_base == old(self).calls_base,
            final(self).converted == old(self).converted,
            final(self).state == old(self).state,
            !(answer matches Poll::Ready(Err(_))) ==> *final(self) == *old(self),
            answer matches Poll::Ready(Ok(_)) ==> r matches Poll::Ready(Ok(_)),
            answer is Pending ==> r is Pending,
            answer matches Poll::Ready(Err(_)) ==> (r matches Poll::Ready(Err(e)) && {
                &&& final(self).failed
                &&& final(self).failure() == Some(e)
                &&& final(self).passed_on(e)
                &&& forall|before: Si| final(self).spared(before, e)
            }),
    {
        match answer {
            Poll::Ready(Ok(())) => Poll::Ready(Ok(())),
            Poll::Pending => Poll::Pending,
            Poll::Ready(Err(cause)) => {
                let e = E::from(cause);
                self.fail(&e);
                Poll::Ready(Err(e))
            },
        }
    }
}

impl<
    Si: Sink,
    U,
    E: From<Si::Error>,
    Fut: Future<Output = Result<Si::Item, E>>,
    F: Step<U, Output = Fut>,
> Sink for With<Si, U, Fut, F> {
    type Item = U;

    type Error = E;

    open spec fn inv(&self) -> bool {
        self.has_failed() || self.sound()
    }

    closed spec fn sent(&self) -> Seq<U> {
        self.history@
    }

    open spec fn awaiting(&self) -> Option<U> {
        None
    }

    open spec fn flushed(&self) -> bool {
        !self.has_failed() && self.idle() && self.inner().flushed()
    }

    open spec fn closed(&self) -> bool {
        !self.has_failed() && self.inner().closed()
    }

    open spec fn takes_next(&self) -> bool {
        !self.has_failed() && self.about_to_clear()
    }

    open spec fn keeps(&self, earlier: &Self) -> bool {
        &&& self.wrapped_at() == earlier.wrapped_at()
        &&& self.calls_at_wrapping() == earlier.calls_at_wrapping()
        &&& same_maps::<U, F>(self.step(), earlier.step())
        &&& self.inner().keeps(&earlier.inner())
    }

    open spec fn always_ready(&self) -> bool {
        &&& !self.has_failed()
        &&& self.inner().always_ready()
        &&& Self::prompt(self.step())
        &&& self.about_to_finish()
    }

    closed spec fn failure(&self) -> Option<E> {
        match self.error@ {
            Some(Err(e)) if self.failed => Some(e),
            _ => None,
        }
    }

    /// Finishes the conversion under way if it can; if none is left, takes the
    /// item and starts its conversion.
    fn start_send(&mut self, cx: &mut Context<'_>, item: U) -> (r: Result<StartSend<U>, E>)
        ensures
            old(self).has_failed() ==> r == Ok::<StartSend<U>, E>(StartSend::Rejected(item))
                && *final(self) == *old(self),
            final(self).has_failed() == (old(self).has_failed() || r is Err),
            final(self).wrapped_at() == old(self).wrapped_at(),
            final(self).calls_at_wrapping() == old(self).calls_at_wrapping(),
            same_maps::<U, F>(final(self).step(), old(self).step()),
            !(r matches Ok(StartSend::Accepted)) ==> final(self).step() == old(self).step(),
            r is Err ==> final(self).sent() == old(self).sent(),
            old(self).converted().is_prefix_of(final(self).converted()),
            old(self).state() matches State::Buffered(x) ==> (r matches Ok(StartSend::Rejected(_))
                ==> final(self).state() == State::<Fut, Si::Item>::Buffered(x)),
            !old(self).has_failed() ==> (old(self).state() matches State::Process(fut) ==> (
            fut.settled() matches Some(Err(e)) ==> r == Err::<StartSend<U>, E>(e))),
            r matches Ok(StartSend::Accepted) ==> final(self).step().calls()
                == old(self).step().calls().push(item),
            !old(self).has_failed() && old(self).idle() ==> r matches Ok(StartSend::Accepted),
            !old(self).has_failed()
                ==> (r matches Ok(StartSend::Rejected(_)) ==> !final(self).idle()),
            r matches Ok(StartSend::Accepted) ==> final(self).state() is Process
                && final(self).converted().len() == old(self).sent().len(),
            r matches Err(e) ==> final(self).passed_on(e) && final(self).spared(
                old(self).inner(),
                e,
            ),
    {
        if self.failed {
            return Ok(StartSend::Rejected(item));
        }
        match self.poll(cx) {
            Poll::Pending => {
                return Ok(StartSend::Rejected(item));
            },
            Poll::Ready(Err(e)) => {
                return Err(e);
            },
            Poll::Ready(Ok(())) => {},
        }
        let ghost mid = *self;
        let fut = self.f.call(item);
        self.state = State::Process(fut);
        proof {
            self.history = Ghost(mid.history@.push(item));
            self.origin = Ghost(Some(fut));
            assert forall|i: int| 0 <= i < self.converted@.len() implies Self::converts(
                self.f,
                self.history@[i],
                #[trigger] self.converted@[i],
            ) by {
                assert(Self::converts(mid.f, mid.history@[i], mid.converted@[i]));
                let w = choose|w: Fut| #[trigger]
                    mid.f.maps(mid.history@[i], w) && w.may_yield(Ok(mid.converted@[i]));
                assert(self.f.maps(self.history@[i], w));
            }
            assert(self.delivered() + self.held() =~= self.converted@);
            assert(self.f.calls() =~= self.calls_base@ + self.history@);
        }
        Ok(StartSend::Accepted)
    }

    /// Finishes the conversion under way, then flushes the wrapped sink.
    fn poll_flush(&mut self, cx: &mut Context<'_>) -> (r: Poll<Result<(), E>>)
        ensures
            old(self).has_failed() ==> r is Pending && *final(self) == *old(self),
            final(self).has_failed() == (old(self).has_failed() || r matches Poll::Ready(Err(_))),
            final(self).wrapped_at() == old(self).wrapped_at(),
            final(self).calls_at_wrapping() == old(self).calls_at_wrapping(),
            final(self).step() == old(self).step(),
            final(self).sent() == old(self).sent(),
            old(self).converted().is_prefix_of(final(self).converted()),
            old(self).state() matches State::Buffered(x) ==> (r is Pending ==> final(self).idle()
                || final(self).state() == State::<Fut, Si::Item>::Buffered(x)),
            !old(self).has_failed() ==> (old(self).state() matches State::Process(fut) ==> (
            fut.settled() matches Some(Err(e)) ==> r == Poll::Ready(Err::<(), E>(e)))),
            r matches Poll::Ready(Err(e)) ==> final(self).passed_on(e) && final(self).spared(
                old(self).inner(),
                e,
            ),
    {
        if self.failed {
            return Poll::Pending;
        }
        match self.poll(cx) {
            Poll::Pending => {
                return Poll::Pending;
            },
            Poll::Ready(Err(e)) => {
                return Poll::Ready(Err(e));
            },
            Poll::Ready(Ok(())) => {},
        }
        let ghost mid = *self;
        let answer = self.sink.poll_flush(cx);
        proof {
            if !(answer matches Poll::Ready(Err(_))) {
                assert(self.delivered() =~= mid.delivered());
            }
        }
        self.pass_on(answer)
    }

    /// Finishes the conversion under way, then closes the wrapped sink.
    fn poll_close(&mut self, cx: &mut Context<'_>) -> (r: Poll<Result<(), E>>)
        ensures
            old(self).has_failed() ==> r is Pending && *final(self) == *old(self),
            final(self).has_failed() == (old(self).has_failed() || r matches Poll::Ready(Err(_))),
            final(self).wrapped_at() == old(self).wrapped_at(),
            final(self).calls_at_wrapping() == old(self).calls_at_wrapping(),
            final(self).step() == old(self).step(),
            final(self).sent() == old(self).sent(),
            old(self).converted().is_prefix_of(final(self).converted()),
            old(self).state() matches State::Buffered(x) ==> (r is Pending ==> final(self).idle()
                || final(self).state() == State::<Fut, Si::Item>::Buffered(x)),
            !old(self).has_failed() ==> (old(self).state() matches State::Process(fut) ==> (
            fut.settled() matches Some(Err(e)) ==> r == Poll::Ready(Err::<(), E>(e)))),
            r matches Poll::Ready(Err(e)) ==> final(self).passed_on(e) && final(self).spared(
                old(self).inner(),
                e,
            ),
    {
        if self.failed {
            return Poll::Pending;
        }
        match self.poll(cx) {
            Poll::Pending => {
                return Poll::Pending;
            },
            Poll::Ready(Err(e)) => {
                return Poll::Ready(Err(e));
            },
            Poll::Ready(Ok(())) => {},
        }
        let ghost mid = *self;
        let answer = self.sink.poll_close(cx);
        proof {
            if !(answer matches Poll::Ready(Err(_))) {
                assert(self.delivered() =~= mid.delivered());
            }
        }
        self.pass_on(answer)
    }
}

} // verus!
