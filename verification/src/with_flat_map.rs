//! Expansion of one item into a sequence of items for the wrapped sink.

use crate::sink::{carries_on, settle, Sink, StartSend};
use crate::step::{same_maps, Step};
use crate::stream::Stream;
use std::task::{Context, Poll};
use vstd::prelude::*;

verus! {

/// Turns every item into a stream of items for the wrapped sink, and drains
/// that stream to its end before it takes the next item.
///
/// Once a stream or the wrapped sink has reported an error, the adapter leaves
/// both alone and answers every call with "not ready".
#[verifier::reject_recursive_types(U)]
#[verifier::reject_recursive_types(St)]
pub struct WithFlatMap<
    Si: Sink,
    U,
    St: Stream<Item = Result<Si::Item, Si::Error>>,
    F: Step<U, Output = St>,
> {
    sink: Si,
    f: F,
    stream: Option<St>,
    buffer: Option<Si::Item>,
    failed: bool,
    history: Ghost<Seq<U>>,
    emitted: Ghost<Seq<Si::Item>>,
    cuts: Ghost<Seq<nat>>,
    made: Ghost<Seq<St>>,
    ended: Ghost<Seq<St>>,
    base: Ghost<Seq<Si::Item>>,
    calls_base: Ghost<Seq<U>>,
    error: Ghost<Option<Si::Error>>,
}

/// None of `items` is an error.
pub open spec fn all_ok<T, E>(items: Seq<Result<T, E>>) -> bool {
    forall|i: int| 0 <= i < items.len() ==> #[trigger] items[i] is Ok
}

/// The items of `items`, each as the success that a stream hands out.
pub open spec fn oks<T, E>(items: Seq<T>) -> Seq<Result<T, E>> {
    items.map_values(|x: T| Ok::<T, E>(x))
}

impl<
    Si: Sink,
    U,
    St: Stream<Item = Result<Si::Item, Si::Error>>,
    F: Step<U, Output = St>,
> WithFlatMap<Si, U, St, F> {
    /// The wrapped sink.
    pub closed spec fn inner(&self) -> Si {
        self.sink
    }

    /// The function that makes a stream out of an item.
    pub closed spec fn step(&self) -> F {
        self.f
    }

    /// The stream that is being drained, if there is one.
    pub closed spec fn draining(&self) -> Option<St> {
        self.stream
    }

    /// The item that came out of the stream and that the wrapped sink has not taken yet.
    pub closed spec fn unsent(&self) -> Option<Si::Item> {
        self.buffer
    }

    /// A stream or the wrapped sink has reported an error through this adapter.
    pub closed spec fn has_failed(&self) -> bool {
        self.failed
    }

    /// Every item that came out of any of the streams, oldest first.
    pub closed spec fn emitted(&self) -> Seq<Si::Item> {
        self.emitted@
    }

    /// What the wrapped sink had accepted when it was wrapped.
    pub closed spec fn wrapped_at(&self) -> Seq<Si::Item> {
        self.base@
    }

    /// What the step function had been called on when the adapter was made.
    pub closed spec fn calls_at_wrapping(&self) -> Seq<U> {
        self.calls_base@
    }

    /// What the wrapped sink has accepted since it was wrapped.
    pub closed spec fn delivered(&self) -> Seq<Si::Item> {
        self.sink.sent().skip(self.base@.len() as int)
    }

    /// The number of accepted items whose stream has come to its end.
    pub closed spec fn completed(&self) -> nat {
        self.ended@.len()
    }

    /// The part of `emitted` that came out of the stream of the `i`-th accepted item.
    pub closed spec fn segment(&self, i: int) -> Seq<Si::Item> {
        let end = if i + 1 < self.cuts@.len() {
            self.cuts@[i + 1] as int
        } else {
            self.emitted@.len() as int
        };
        self.emitted@.subrange(self.cuts@[i] as int, end)
    }

    /// The segments of the first `n` accepted items, one after the other.
    pub open spec fn joined(&self, n: nat) -> Seq<Si::Item>
        decreases n,
    {
        if n == 0 {
            Seq::empty()
        } else {
            self.joined((n - 1) as nat) + self.segment(n - 1)
        }
    }

    /// Nothing is half-way: no stream is open and no item is held back.
    pub open spec fn idle(&self) -> bool {
        self.draining() is None && self.unsent() is None
    }

    /// `f` can be called, and what it returns can be polled.
    pub open spec fn usable(f: F) -> bool {
        &&& f.inv()
        &&& forall|u: U, st: St| #[trigger] f.maps(u, st) ==> st.inv() && !st.finished()
    }

    /// The next thing that `st` hands out is settled, and it is the error `e`.
    pub open spec fn fails_next(st: St, e: Si::Error) -> bool {
        st.planned() matches Some(rest) && rest.len() > 0 && rest[0] == Err::<Si::Item, Si::Error>(
            e,
        )
    }

    /// `st` hands out its items without waiting, and no error among them.
    pub open spec fn runs_through(st: St) -> bool {
        st.planned() matches Some(rest) && all_ok(rest)
    }

    /// Every stream that `f` makes hands out its items without waiting, and no
    /// error among them.
    pub open spec fn eager(f: F) -> bool {
        forall|u: U, st: St| #[trigger] f.maps(u, st) ==> Self::runs_through(st)
    }

    /// Where the items of `first` were settled when it was made, they are
    /// `done` followed by what `now` has still to hand out.
    pub open spec fn on_plan(first: St, done: Seq<Si::Item>, now: Option<Seq<St::Item>>) -> bool {
        first.planned() matches Some(rest)
            ==> (now matches Some(left) && oks::<Si::Item, Si::Error>(
            done,
        ) + left == rest)
    }

    /// `items` is what a stream that `f` made out of `u` handed out from first
    /// to last, each as a success; and where the stream's items were settled
    /// when it was made, they were these.
    pub open spec fn expands_to(f: F, u: U, items: Seq<Si::Item>) -> bool {
        exists|first: St, last: St|
            {
                &&& f.maps(u, first)
                &&& last.finished()
                &&& last.yielded() == first.yielded() + oks::<Si::Item, Si::Error>(items)
                &&& first.planned() matches Some(rest) ==> rest == oks::<Si::Item, Si::Error>(items)
            }
    }

    /// Wraps `sink`; `f` will be called once on every accepted item.
    pub fn new(sink: Si, f: F) -> (r: Self)
        ensures
            r.inner() == sink,
            r.step() == f,
            r.idle(),
            r.sent() == Seq::<U>::empty(),
            r.emitted() == Seq::<Si::Item>::empty(),
            r.completed() == 0,
            r.wrapped_at() == sink.sent(),
            r.calls_at_wrapping() == f.calls(),
            !r.has_failed(),
            sink.inv() && sink.awaiting() is None && Self::usable(f) ==> r.inv(),
    {
        let r = WithFlatMap {
            sink,
            f,
            stream: None,
            buffer: None,
            failed: false,
            history: Ghost(Seq::empty()),
            emitted: Ghost(Seq::empty()),
            cuts: Ghost(Seq::empty()),
            made: Ghost(Seq::empty()),
            ended: Ghost(Seq::empty()),
            base: Ghost(sink.sent()),
            calls_base: Ghost(f.calls()),
            error: Ghost(None),
        };
        assert(r.delivered() =~= Seq::<Si::Item>::empty());
        assert(r.delivered() + Seq::<Si::Item>::empty() =~= r.emitted@);
        assert(r.f.calls() =~= r.calls_base@ + r.history@);
        r
    }

    /// The wrapped sink.
    pub fn get_ref(&self) -> (r: &Si)
        ensures
            *r == self.inner(),
    {
        &self.sink
    }

    /// Gives the wrapped sink back.  A stream that is open is dropped.
    pub fn into_inner(self) -> (r: Si)
        ensures
            r == self.inner(),
    {
        self.sink
    }

    /// The item held back, as a sequence of one or none.
    pub open spec fn held(&self) -> Seq<Si::Item> {
        match self.unsent() {
            Some(x) => seq![x],
            None => Seq::empty(),
        }
    }

    /// Every item that came out of a stream is with the wrapped sink, in the
    /// order in which it came out, but for the one held back.
    pub proof fn lemma_nothing_lost(&self)
        requires
            self.inv(),
            !self.has_failed(),
        ensures
            self.inner().sent() == self.wrapped_at() + self.delivered(),
            self.step().calls() == self.calls_at_wrapping() + self.sent(),
            self.delivered() + self.held() == self.emitted(),
            self.inner().inv(),
            self.completed() <= self.sent().len(),
            self.idle() ==> self.completed() == self.sent().len(),
            !self.idle() ==> self.completed() + 1 == self.sent().len(),
            self.unsent() matches Some(x) ==> {
                &&& self.draining() is Some
                &&& self.segment(self.sent().len() - 1).len() > 0
                &&& self.segment(self.sent().len() - 1).last() == x
            },
    {
        assert(self.sink.sent() =~= self.base@ + self.delivered());
        if let Some(x) = self.buffer {
            assert(self.emitted@.last() == x) by {
                assert((self.delivered() + self.held()).last() == x);
            }
        }
    }

    /// What came out of the streams is the segments of the accepted items, in
    /// the order in which the items were accepted, and nothing besides.
    pub proof fn lemma_segments_tile(&self)
        requires
            self.inv(),
            !self.has_failed(),
        ensures
            self.joined(self.sent().len()) == self.emitted(),
    {
        self.lemma_joined(self.history@.len());
        assert(self.emitted@.subrange(0, self.emitted@.len() as int) =~= self.emitted@);
    }

    /// The first `n` segments make up what was emitted before the segment after
    /// them starts.
    proof fn lemma_joined(&self, n: nat)
        requires
            self.cuts_ok(),
            n <= self.cuts@.len(),
            self.cuts@.len() > 0 ==> self.cuts@[0] == 0,
            self.cuts@.len() == 0 ==> self.emitted@.len() == 0,
        ensures
            self.joined(n) == self.emitted@.subrange(
                0,
                if n < self.cuts@.len() {
                    self.cuts@[n as int] as int
                } else {
                    self.emitted@.len() as int
                },
            ),
        decreases n,
    {
        if n == 0 {
            assert(self.joined(0) =~= self.emitted@.subrange(
                0,
                if 0 < self.cuts@.len() {
                    self.cuts@[0] as int
                } else {
                    self.emitted@.len() as int
                },
            ));
        } else {
            self.lemma_joined((n - 1) as nat);
            let lo = self.cuts@[n - 1] as int;
            let hi = if n < self.cuts@.len() {
                self.cuts@[n as int] as int
            } else {
                self.emitted@.len() as int
            };
            assert(self.emitted@.subrange(0, lo) + self.emitted@.subrange(lo, hi)
                =~= self.emitted@.subrange(0, hi));
        }
    }

    /// The stream of every accepted item whose stream has ended was made by the
    /// step function out of that item, and handed out that item's segment and
    /// nothing else.
    pub proof fn lemma_expansion_complete(&self, i: int)
        requires
            self.inv(),
            !self.has_failed(),
            0 <= i < self.completed(),
        ensures
            Self::expands_to(self.step(), self.sent()[i], self.segment(i)),
    {
        let first = self.made@[i];
        let last = self.ended@[i];
        assert(self.f.maps(self.history@[i], first));
        assert(last.finished());
        assert(last.yielded() == first.yielded() + oks::<Si::Item, Si::Error>(self.segment(i)));
        assert(Self::on_plan(first, self.segment(i), Some(Seq::<St::Item>::empty())));
        if let Some(rest) = first.planned() {
            assert(oks::<Si::Item, Si::Error>(self.segment(i)) + Seq::<St::Item>::empty()
                =~= oks::<Si::Item, Si::Error>(self.segment(i)));
        }
    }

    /// Unless `e` is the wrapped sink's own error, that sink is sound and holds
    /// everything that came out of the streams before the error.
    pub open spec fn kept(&self, e: Si::Error) -> bool {
        ||| self.inner().failure() == Some(e)
        ||| {
            &&& self.inner().inv()
            &&& self.inner().sent() == self.wrapped_at() + self.delivered()
            &&& self.delivered() == self.emitted()
            &&& self.joined(self.sent().len()) == self.emitted()
        }
    }

    /// `e` is the error that the wrapped sink reported, or an error that the
    /// stream made out of the last accepted item can hand out; and where that
    /// stream's items were settled when it was made, they begin with the last
    /// segment followed by `e`.
    pub open spec fn passed_on(&self, e: Si::Error) -> bool {
        ||| self.inner().failure() == Some(e)
        ||| self.sent().len() > 0 && exists|first: St|
            {
                &&& #[trigger] self.step().maps(self.sent().last(), first)
                &&& first.may_yield(Err(e))
                &&& first.planned() matches Some(rest) ==> oks::<Si::Item, Si::Error>(
                    self.segment(self.sent().len() - 1),
                ).push(Err(e)).is_prefix_of(rest)
            }
    }

    fn fail(&mut self, e: &Si::Error)
        ensures
            final(self).failed,
            final(self).error@ == Some(*e),
            final(self).sink == old(self).sink,
            final(self).f == old(self).f,
            final(self).history == old(self).history,
            final(self).made == old(self).made,
            final(self).cuts == old(self).cuts,
            final(self).base == old(self).base,
            final(self).calls_base == old(self).calls_base,
            final(self).emitted == old(self).emitted,
    {
        self.failed = true;
        proof {
            self.error = Ghost(Some(*e));
        }
    }

    /// Passes on what the wrapped sink answered to a flush or a close.
    fn pass_on(&mut self, answer: Poll<Result<(), Si::Error>>) -> (r: Poll<Result<(), Si::Error>>)
        requires
            !old(self).failed,
            answer matches Poll::Ready(Err(cause)) ==> old(self).sink.failure() == Some(cause),
        ensures
            r == answer,
            final(self).sink == old(self).sink,
            final(self).f == old(self).f,
            final(self).history == old(self).history,
            final(self).base == old(self).base,
            final(self).calls_base == old(self).calls_base,
            final(self).emitted == old(self).emitted,
            !(answer matches Poll::Ready(Err(_))) ==> *final(self) == *old(self),
            answer matches Poll::Ready(Err(e)) ==> final(self).failed && final(self).failure()
                == Some(e) && final(self).passed_on(e) && final(self).kept(e),
    {
        if let Poll::Ready(Err(e)) = &answer {
            self.fail(e);
        }
        answer
    }

    /// What holds of the adapter as long as nothing has failed.
    pub closed spec fn sound(&self) -> bool {
        &&& self.sink.inv()
        &&& Self::usable(self.f)
        &&& self.base@.is_prefix_of(self.sink.sent())
        &&& self.f.calls() == self.calls_base@ + self.history@
        &&& self.delivered() + self.held() == self.emitted@
        &&& self.history@.len() == self.cuts@.len()
        &&& self.history@.len() == self.made@.len()
        &&& self.cuts_ok()
        &&& self.cuts@.len() > 0 ==> self.cuts@[0] == 0
        &&& self.cuts@.len() == 0 ==> self.emitted@.len() == 0
        &&& forall|i: int|
            0 <= i < self.history@.len() ==> self.f.maps(
                self.history@[i],
                #[trigger] self.made@[i],
            )
        &&& forall|i: int|
            0 <= i < self.ended@.len() ==> (#[trigger] self.ended@[i]).finished()
                && self.ended@[i].yielded() == self.made@[i].yielded() + oks::<Si::Item, Si::Error>(
                self.segment(i),
            ) && Self::on_plan(self.made@[i], self.segment(i), Some(Seq::<St::Item>::empty()))
        &&& match self.stream {
            Some(st) => {
                &&& st.inv()
                &&& !st.finished()
                &&& self.ended@.len() + 1 == self.history@.len()
                &&& st.yielded() == self.made@[self.history@.len() - 1].yielded() + oks::<
                    Si::Item,
                    Si::Error,
                >(self.emitted@.skip(self.cuts@[self.history@.len() - 1] as int))
                &&& Self::on_plan(
                    self.made@[self.history@.len() - 1],
                    self.emitted@.skip(self.cuts@[self.history@.len() - 1] as int),
                    st.planned(),
                )
                &&& forall|v: St::Item| #[trigger]
                    st.may_yield(v) ==> self.made@[self.history@.len() - 1].may_yield(v)
            },
            None => self.ended@.len() == self.history@.len() && self.buffer is None,
        }
        &&& self.sink.awaiting() matches Some(x) ==> self.buffer == Some(x)
        &&& self.sink.closed() ==> self.stream is None && self.buffer is None
        &&& self.buffer is Some ==> self.cuts@.len() > 0 && self.emitted@.len()
            > self.cuts@[self.cuts@.len() - 1]
    }

    /// Hands over the item held back, then pulls from the open stream and hands
    /// over until the stream waits or ends or the wrapped sink turns an item away.
    #[verifier::rlimit(60)]
    fn try_empty_stream(&mut self, cx: &mut Context<'_>) -> (r: Poll<Result<(), Si::Error>>)
        requires
            old(self).sound(),
            !old(self).has_failed(),
        ensures
            final(self).sent() == old(self).sent(),
            final(self).step() == old(self).step(),
            final(self).wrapped_at() == old(self).wrapped_at(),
            final(self).calls_at_wrapping() == old(self).calls_at_wrapping(),
            carries_on(final(self).inner(), old(self).inner()),
            old(self).emitted().is_prefix_of(final(self).emitted()),
            old(self).unsent() is None ==> (old(self).draining() matches Some(st) ==> forall|
                e: Si::Error,
            | #[trigger] Self::fails_next(st, e) ==> r == Poll::Ready(Err::<(), Si::Error>(e))),
            !(r matches Poll::Ready(Err(_))) ==> {
                &&& final(self).sound()
                &&& !final(self).has_failed()
                &&& final(self).inner().closed() == old(self).inner().closed()
            },
            r matches Poll::Ready(Ok(_)) ==> final(self).idle(),
            r is Pending ==> !final(self).idle(),
            r matches Poll::Ready(Err(e)) ==> final(self).has_failed() && final(self).failure()
                == Some(e) && final(self).passed_on(e) && final(self).kept(e),
            old(self).idle() ==> (r matches Poll::Ready(Ok(_))) && final(self).inner()
                == old(self).inner() && final(self).emitted() == old(self).emitted(),
            old(self).inner().always_ready() && old(self).unsent() is None
                && (old(self).draining() matches Some(st) ==> Self::runs_through(st))
                ==> (r matches Poll::Ready(Ok(_))) && final(self).inner().always_ready(),
    {
        match self.buffer.take() {
            Some(x) => {
                let answer = self.sink.start_send(cx, x);
                match settle(&mut self.buffer, answer) {
                    Poll::Ready(Ok(())) => {
                        assert(self.delivered() =~= old(self).delivered().push(x));
                        assert(self.delivered() + Seq::<Si::Item>::empty() =~= self.emitted@);
                    },
                    Poll::Pending => {
                        return Poll::Pending;
                    },
                    Poll::Ready(Err(e)) => {
                        self.fail(&e);
                        return Poll::Ready(Err(e));
                    },
                }
            },
            None => {},
        }
        match self.stream.take() {
            Some(st) => {
                let mut stream = st;
                let ghost last = self.history@.len() - 1;
                loop
                    invariant
                        self.sink.inv(),
                        carries_on(self.sink, old(self).sink),
                        stream == old(self).stream.unwrap() || forall|e: Si::Error|
                            !Self::fails_next(old(self).stream.unwrap(), e),
                        self.stream is None,
                        self.buffer is None,
                        self.history == old(self).history,
                        self.cuts == old(self).cuts,
                        self.made == old(self).made,
                        self.ended == old(self).ended,
                        self.base == old(self).base,
                        self.calls_base == old(self).calls_base,
                        self.f == old(self).f,
                        self.sink.closed() == old(self).sink.closed(),
                        !self.sink.closed(),
                        self.sink.awaiting() is None,
                        last == self.history@.len() - 1,
                        old(self).sound(),
                        !self.failed,
                        old(self).stream is Some,
                        self.ended@.len() == last,
                        stream.inv(),
                        !stream.finished(),
                        self.base@.is_prefix_of(self.sink.sent()),
                        self.delivered() == self.emitted@,
                        old(self).emitted@.is_prefix_of(self.emitted@),
                        stream.yielded() == self.made@[last].yielded() + oks::<Si::Item, Si::Error>(
                            self.emitted@.skip(self.cuts@[last] as int),
                        ),
                        Self::on_plan(
                            self.made@[last],
                            self.emitted@.skip(self.cuts@[last] as int),
                            stream.planned(),
                        ),
                        forall|v: St::Item| #[trigger]
                            stream.may_yield(v) ==> self.made@[last].may_yield(v),
                        old(self).sink.always_ready() && old(self).buffer is None
                            && Self::runs_through(old(self).stream.unwrap())
                            ==> self.sink.always_ready() && Self::runs_through(stream),
                    decreases stream.burst(),
                {
                    let ghost out = self.emitted@;
                    let ghost plan = stream.planned();
                    match stream.poll_next(cx) {
                        Poll::Pending => {
                            self.stream = Some(stream);
                            assert(self.delivered() + Seq::<Si::Item>::empty() =~= self.emitted@);
                            assert(self.sound()) by {
                                self.lemma_segments_kept(*old(self));
                            }
                            return Poll::Pending;
                        },
                        Poll::Ready(None) => {
                            proof {
                                self.ended = Ghost(self.ended@.push(stream));
                                assert(self.delivered() + Seq::<Si::Item>::empty()
                                    =~= self.emitted@);
                                self.lemma_segments_kept(*old(self));
                                assert(self.segment(last) =~= self.emitted@.skip(
                                    self.cuts@[last] as int,
                                ));
                                if let Some(rest) = self.made@[last].planned() {
                                    let left = plan.unwrap();
                                    assert(left.len() == 0);
                                    assert(oks::<Si::Item, Si::Error>(self.segment(last)) + left
                                        == rest);
                                    assert(left =~= Seq::<St::Item>::empty());
                                }
                                assert(Self::on_plan(
                                    self.made@[last],
                                    self.segment(last),
                                    Some(Seq::<St::Item>::empty()),
                                ));
                                assert forall|i: int| 0 <= i < self.ended@.len() implies (
                                #[trigger] self.ended@[i]).finished() && self.ended@[i].yielded()
                                    == self.made@[i].yielded() + oks::<Si::Item, Si::Error>(
                                    self.segment(i),
                                ) && Self::on_plan(
                                    self.made@[i],
                                    self.segment(i),
                                    Some(Seq::<St::Item>::empty()),
                                ) by {
                                    if i < last {
                                        assert(self.ended@[i] == old(self).ended@[i]);
                                        assert(self.segment(i) == old(self).segment(i));
                                    }
                                }
                                assert(self.sound());
                            }
                            return Poll::Ready(Ok(()));
                        },
                        Poll::Ready(Some(Err(e))) => {
                            proof {
                                if let Some(rest) = plan {
                                    if all_ok(rest) {
                                        assert(rest[0] is Ok);
                                    }
                                }
                            }
                            self.fail(&e);
                            proof {
                                assert(self.made@[last].may_yield(Err(e)));
                                self.lemma_segments_kept(*old(self));
                                self.lemma_joined(self.history@.len());
                                assert(self.emitted@.subrange(0, self.emitted@.len() as int)
                                    =~= self.emitted@);
                                let cut = self.cuts@[last] as int;
                                assert(self.segment(last) =~= out.skip(cut));
                                if let Some(rest) = self.made@[last].planned() {
                                    let left = plan.unwrap();
                                    let done = oks::<Si::Item, Si::Error>(out.skip(cut));
                                    assert(left[0] == Err::<Si::Item, Si::Error>(e));
                                    assert(done + left == rest);
                                    assert(done.push(Err(e)).is_prefix_of(rest)) by {
                                        let whole = done.push(Err(e));
                                        assert forall|i: int| 0 <= i < whole.len() implies whole[i]
                                            == rest[i] by {
                                            if i < done.len() {
                                                assert((done + left)[i] == done[i]);
                                            } else {
                                                assert((done + left)[i] == left[0]);
                                            }
                                        }
                                    }
                                }
                                assert(self.sink.sent() =~= self.base@ + self.delivered());
                                assert(self.step().maps(self.sent().last(), self.made@[last]));
                            }
                            return Poll::Ready(Err(e));
                        },
                        Poll::Ready(Some(Ok(x))) => {
                            proof {
                                if let Some(rest) = plan {
                                    if all_ok(rest) {
                                        assert forall|i: int| 0 <= i < rest.skip(1).len() implies (
                                        #[trigger] rest.skip(1)[i]) is Ok by {
                                            assert(rest[i + 1] is Ok);
                                        }
                                    }
                                }
                            }
                            proof {
                                self.emitted = Ghost(out.push(x));
                                if let Some(rest) = self.made@[last].planned() {
                                    let left = plan.unwrap();
                                    let cut = self.cuts@[last] as int;
                                    assert(left[0] == Ok::<Si::Item, Si::Error>(x));
                                    assert(oks::<Si::Item, Si::Error>(out.push(x).skip(cut))
                                        + left.skip(1) =~= oks::<Si::Item, Si::Error>(
                                        out.skip(cut),
                                    ) + left);
                                }
                                assert(oks::<Si::Item, Si::Error>(
                                    out.push(x).skip(self.cuts@[last] as int),
                                ) =~= oks::<Si::Item, Si::Error>(
                                    out.skip(self.cuts@[last] as int),
                                ).push(Ok(x)));
                            }
                            let answer = self.sink.start_send(cx, x);
                            match settle(&mut self.buffer, answer) {
                                Poll::Ready(Ok(())) => {
                                    assert(self.delivered() =~= out.push(x));
                                },
                                Poll::Pending => {
                                    self.stream = Some(stream);
                                    assert(self.delivered() + seq![x] =~= self.emitted@);
                                    assert(self.sound()) by {
                                        self.lemma_segments_kept(*old(self));
                                    }
                                    return Poll::Pending;
                                },
                                Poll::Ready(Err(e)) => {
                                    self.fail(&e);
                                    return Poll::Ready(Err(e));
                                },
                            }
                        },
                    }
                }
            },
            None => {
                assert(self.delivered() + Seq::<Si::Item>::empty() =~= self.emitted@);
                Poll::Ready(Ok(()))
            },
        }
    }

    /// Segments of streams that have ended stay what they were while more items
    /// come out of a later stream.
    proof fn lemma_segments_kept(&self, before: Self)
        requires
            before.cuts_ok(),
            self.cuts == before.cuts,
            before.emitted@.is_prefix_of(self.emitted@),
            before.ended@.len() < before.cuts@.len(),
        ensures
            self.cuts_ok(),
            forall|i: int| 0 <= i < before.ended@.len() ==> #[trigger] self.segment(i)
                == before.segment(i),
    {
        assert forall|i: int| 0 <= i < before.ended@.len() implies #[trigger] self.segment(i)
            == before.segment(i) by {
            assert(self.segment(i) =~= before.segment(i));
        }
    }

    /// The starts of the segments are in order and within what was emitted.
    closed spec fn cuts_ok(&self) -> bool {
        &&& forall|i: int, j: int| 0 <= i <= j < self.cuts@.len() ==> self.cuts@[i] <= self.cuts@[j]
        &&& forall|i: int| 0 <= i < self.cuts@.len() ==> #[trigger] self.cuts@[i]
            <= self.emitted@.len()
    }
}

impl<
    Si: Sink,
    U,
    St: Stream<Item = Result<Si::Item, Si::Error>>,
    F: Step<U, Output = St>,
> Sink for WithFlatMap<Si, U, St, F> {
    type Item = U;

    type Error = Si::Error;

    open spec fn inv(&self) -> bool {
        self.has_failed() || self.sound()
    }

    closed spec fn sent(&self) -> Seq<U> {
        self.history@
    }

    open spec fn awaiting(&self) -> Option<U> {
        None
    }

    open spec fn flushed(&self) -> bool {
        !self.has_failed() && self.idle() && self.inner().flushed()
    }

    open spec fn closed(&self) -> bool {
        !self.has_failed() && self.inner().closed()
    }

    open spec fn takes_next(&self) -> bool {
        self.always_ready()
    }

    open spec fn keeps(&self, earlier: &Self) -> bool {
        &&& self.wrapped_at() == earlier.wrapped_at()
        &&& self.calls_at_wrapping() == earlier.calls_at_wrapping()
        &&& same_maps::<U, F>(self.step(), earlier.step())
        &&& self.inner().keeps(&earlier.inner())
    }

    open spec fn always_ready(&self) -> bool {
        &&& !self.has_failed()
        &&& self.inner().always_ready()
        &&& Self::eager(self.step())
        &&& self.idle()
    }

    closed spec fn failure(&self) -> Option<Si::Error> {
        if self.failed {
            self.error@
        } else {
            None
        }
    }

    /// Drains what is open; if nothing is left open, takes the item and opens
    /// its stream.
    fn start_send(&mut self, cx: &mut Context<'_>, item: U) -> (r: Result<StartSend<U>, Si::Error>)
        ensures
            old(self).has_failed() ==> r == Ok::<StartSend<U>, Si::Error>(StartSend::Rejected(item))
                && *final(self) == *old(self),
            final(self).has_failed() == (old(self).has_failed() || r is Err),
            final(self).wrapped_at() == old(self).wrapped_at(),
            final(self).calls_at_wrapping() == old(self).calls_at_wrapping(),
            same_maps::<U, F>(final(self).step(), old(self).step()),
            r matches Ok(StartSend::Rejected(_)) ==> final(self).step() == old(self).step(),
            r matches Ok(StartSend::Accepted) ==> final(self).step().calls()
                == old(self).step().calls().push(item),
            r is Err ==> {
                ||| final(self).step() == old(self).step() && final(self).sent() == old(self).sent()
                ||| final(self).step().calls() == old(self).step().calls().push(item)
                    && final(self).sent() == old(self).sent().push(item)
            },
            !old(self).has_failed() && old(self).idle() && r is Err ==> final(self).sent()
                == old(self).sent().push(item),
            old(self).emitted().is_prefix_of(final(self).emitted()),
            !old(self).has_failed() && old(self).unsent() is None
                ==> (old(self).draining() matches Some(st) ==> forall|e: Si::Error| #[trigger]
                Self::fails_next(st, e) ==> r == Err::<StartSend<U>, Si::Error>(e)),
            !old(self).has_failed() && old(self).idle() ==> !(r matches Ok(StartSend::Rejected(_))),
            !old(self).has_failed()
                ==> (r matches Ok(StartSend::Rejected(_)) ==> !final(self).idle()),
            r matches Ok(StartSend::Accepted) ==> final(self).completed() >= old(self).sent().len(),
            r matches Err(e) ==> final(self).passed_on(e) && final(self).kept(e),
    {
        if self.failed {
            return Ok(StartSend::Rejected(item));
        }
        match self.try_empty_stream(cx) {
            Poll::Pending => {
                return Ok(StartSend::Rejected(item));
            },
            Poll::Ready(Err(e)) => {
                return Err(e);
            },
            Poll::Ready(Ok(())) => {},
        }
        let ghost mid = *self;
        let stream = self.f.call(item);
        self.stream = Some(stream);
        proof {
            self.history = Ghost(mid.history@.push(item));
            self.cuts = Ghost(mid.cuts@.push(mid.emitted@.len()));
            self.made = Ghost(mid.made@.push(stream));
            assert(self.emitted@.skip(self.emitted@.len() as int) =~= Seq::<Si::Item>::empty());
            assert(stream.yielded() =~= stream.yielded() + oks::<Si::Item, Si::Error>(
                Seq::<Si::Item>::empty(),
            ));
            if let Some(rest) = stream.planned() {
                assert(oks::<Si::Item, Si::Error>(Seq::<Si::Item>::empty()) + rest =~= rest);
            }
            assert forall|i: int| 0 <= i < self.ended@.len() implies self.segment(i)
                == mid.segment(i) by {
                assert(self.segment(i) =~= mid.segment(i));
            }
            assert(self.f.calls() =~= self.calls_base@ + self.history@);
            assert(self.sound());
        }
        match self.try_empty_stream(cx) {
            Poll::Ready(Err(e)) => {
                return Err(e);
            },
            _ => {},
        }
        Ok(StartSend::Accepted)
    }

    /// Drains what is open, then flushes the wrapped sink.
    fn poll_flush(&mut self, cx: &mut Context<'_>) -> (r: Poll<Result<(), Si::Error>>)
        ensures
            old(self).has_failed() ==> r is Pending && *final(self) == *old(self),
            final(self).has_failed() == (old(self).has_failed() || r matches Poll::Ready(Err(_))),
            final(self).wrapped_at() == old(self).wrapped_at(),
            final(self).calls_at_wrapping() == old(self).calls_at_wrapping(),
            final(self).step() == old(self).step(),
            final(self).sent() == old(self).sent(),
            old(self).emitted().is_prefix_of(final(self).emitted()),
            !old(self).has_failed() && old(self).unsent() is None
                ==> (old(self).draining() matches Some(st) ==> forall|e: Si::Error| #[trigger]
                Self::fails_next(st, e) ==> r == Poll::Ready(Err::<(), Si::Error>(e))),
            r matches Poll::Ready(Err(e)) ==> final(self).passed_on(e) && final(self).kept(e),
    {
        if self.failed {
            return Poll::Pending;
        }
        match self.try_empty_stream(cx) {
            Poll::Pending => {
                return Poll::Pending;
            },
            Poll::Ready(Err(e)) => {
                return Poll::Ready(Err(e));
            },
            Poll::Ready(Ok(())) => {},
        }
        let ghost mid = *self;
        let answer = self.sink.poll_flush(cx);
        proof {
            if !(answer matches Poll::Ready(Err(_))) {
                assert(self.delivered() =~= mid.delivered());
                assert forall|i: int| 0 <= i < self.ended@.len() implies self.segment(i)
                    == mid.segment(i) by {
                    assert(self.segment(i) =~= mid.segment(i));
                }
            }
        }
        self.pass_on(answer)
    }

    /// Drains what is open, then closes the wrapped sink.
    fn poll_close(&mut self, cx: &mut Context<'_>) -> (r: Poll<Result<(), Si::Error>>)
        ensures
            old(self).has_failed() ==> r is Pending && *final(self) == *old(self),
            final(self).has_failed() == (old(self).has_failed() || r matches Poll::Ready(Err(_))),
            final(self).wrapped_at() == old(self).wrapped_at(),
            final(self).calls_at_wrapping() == old(self).calls_at_wrapping(),
            final(self).step() == old(self).step(),
            final(self).sent() == old(self).sent(),
            old(self).emitted().is_prefix_of(final(self).emitted()),
            !old(self).has_failed() && old(self).unsent() is None
                ==> (old(self).draining() matches Some(st) ==> forall|e: Si::Error| #[trigger]
                Self::fails_next(st, e) ==> r == Poll::Ready(Err::<(), Si::Error>(e))),
            r matches Poll::Ready(Err(e)) ==> final(self).passed_on(e) && final(self).kept(e),
    {
        if self.failed {
            return Poll::Pending;
        }
        match self.try_empty_stream(cx) {
            Poll::Pending => {
                return Poll::Pending;
            },
            Poll::Ready(Err(e)) => {
                return Poll::Ready(Err(e));
            },
            Poll::Ready(Ok(())) => {},
        }
        let ghost mid = *self;
        let answer = self.sink.poll_close(cx);
        proof {
            if !(answer matches Poll::Ready(Err(_))) {
                assert(self.delivered() =~= mid.delivered());
                assert forall|i: int| 0 <= i < self.ended@.len() implies self.segment(i)
                    == mid.segment(i) by {
                    assert(self.segment(i) =~= mid.segment(i));
                }
            }
        }
        self.pass_on(answer)
    }
}

} // verus!
