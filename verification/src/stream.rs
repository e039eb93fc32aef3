//! Lazy sequences that are pulled one item at a time.

use std::collections::VecDeque;
use std::task::{Context, Poll};
use vstd::prelude::*;

verus! {

/// A producer of items that may have to wait between two of them, and that
/// ends at most once.
///
/// As with sinks, the model functions have bodies only so that a stream can be
/// written outside the verifier; such a stream keeps them, its `inv` is `false`,
/// and no proof speaks of it.
pub trait Stream {
    /// What the stream hands out.
    type Item;

    /// The state is one that `poll_next` can start from.
    open spec fn inv(&self) -> bool {
        false
    }

    /// Every item handed out so far, oldest first.
    open spec fn yielded(&self) -> Seq<Self::Item> {
        Seq::empty()
    }

    /// The stream has reported its end.
    open spec fn finished(&self) -> bool {
        false
    }

    /// A bound on the number of items that the stream hands out before it next
    /// waits or ends.
    open spec fn burst(&self) -> nat {
        0
    }

    /// The items that the stream will hand out from here on, one at every
    /// poll and then its end, where that is settled.
    open spec fn planned(&self) -> Option<Seq<Self::Item>> {
        None
    }

    /// `item` is something that the stream can still hand out.
    open spec fn may_yield(&self, item: Self::Item) -> bool {
        true
    }

    /// Pulls the next item: `Ready(Some(_))` hands one out, `Ready(None)` is the
    /// end, `Pending` asks to be polled again later.
    fn poll_next(&mut self, cx: &mut Context<'_>) -> (r: Poll<Option<Self::Item>>)
        requires
            old(self).inv(),
            !old(self).finished(),
        ensures
            final(self).inv(),
            forall|v: Self::Item| #[trigger] final(self).may_yield(v) ==> old(self).may_yield(v),
            r matches Poll::Ready(Some(x)) ==> {
                &&& old(self).may_yield(x)
                &&& final(self).yielded() == old(self).yielded().push(x)
                &&& !final(self).finished()
                &&& final(self).burst() < old(self).burst()
            },
            r matches Poll::Ready(None) ==> {
                &&& final(self).yielded() == old(self).yielded()
                &&& final(self).finished()
            },
            r is Pending ==> {
                &&& final(self).yielded() == old(self).yielded()
                &&& !final(self).finished()
            },
            old(self).planned() matches Some(rest) ==> if rest.len() == 0 {
                r == Poll::Ready(None::<Self::Item>)
            } else {
                r == Poll::Ready(Some(rest[0])) && final(self).planned() == Some(rest.skip(1))
            },
    ;
}

/// A stream over items that are all there from the start.  It never waits.
pub struct Iter<T> {
    items: VecDeque<T>,
    done: bool,
    given: Ghost<Seq<T>>,
}

impl<T> Iter<T> {
    /// The items still to come, next one first.
    pub closed spec fn remaining(&self) -> Seq<T> {
        self.items@
    }

    /// A stream that hands out `items` front to back and then ends.
    pub fn new(items: VecDeque<T>) -> (r: Self)
        ensures
            r.inv(),
            r.remaining() == items@,
            r.yielded() == Seq::<T>::empty(),
            !r.finished(),
    {
        Iter { items, done: false, given: Ghost(Seq::empty()) }
    }
}

impl<T> Stream for Iter<T> {
    type Item = T;

    closed spec fn inv(&self) -> bool {
        self.done ==> self.items@.len() == 0
    }

    closed spec fn yielded(&self) -> Seq<T> {
        self.given@
    }

    closed spec fn finished(&self) -> bool {
        self.done
    }

    open spec fn burst(&self) -> nat {
        self.remaining().len()
    }

    open spec fn planned(&self) -> Option<Seq<T>> {
        Some(self.remaining())
    }

    open spec fn may_yield(&self, item: T) -> bool {
        self.remaining().contains(item)
    }

    fn poll_next(&mut self, cx: &mut Context<'_>) -> (r: Poll<Option<T>>)
        ensures
            !(r is Pending),
            r matches Poll::Ready(Some(x)) ==> old(self).remaining().len() > 0 && x
                == old(self).remaining()[0] && final(self).remaining()
                == old(self).remaining().skip(1),
            r matches Poll::Ready(None) ==> old(self).remaining().len() == 0,
            final(self).yielded() + final(self).remaining()
                == old(self).yielded() + old(self).remaining(),
    {
        let ghost before = self.items@;
        match self.items.pop_front() {
            Some(x) => {
                proof {
                    self.given = Ghost(self.given@.push(x));
                    assert(self.items@ =~= before.skip(1));
                    assert(before.contains(x)) by {
                        assert(before[0] == x);
                    }
                    assert forall|v: T| self.items@.contains(v) implies before.contains(v) by {
                        let i = choose|i: int| 0 <= i < self.items@.len() && self.items@[i] == v;
                        assert(before[i + 1] == v);
                    }
                    assert(self.given@ + self.items@ =~= old(self).given@ + before);
                }
                Poll::Ready(Some(x))
            },
            None => {
                self.done = true;
                assert(self.items@ =~= before);
                Poll::Ready(None)
            },
        }
    }
}

} // verus!
