//! The functions that an adapter applies to every item it takes.

use vstd::prelude::*;

verus! {

/// A function object that an adapter calls once on every item it accepts.
///
/// The model functions have bodies only so that an implementation can be
/// written outside the verifier; such an implementation keeps them, its `inv`
/// is `false`, and no proof speaks of it.
pub trait Step<U> {
    /// What the function returns.
    type Output;

    /// The state is one that `call` can start from.
    open spec fn inv(&self) -> bool {
        false
    }

    /// `out` is something that the function can return for `item`.
    open spec fn maps(&self, item: U, out: Self::Output) -> bool {
        true
    }

    /// The items that the function has been called on, oldest first.
    open spec fn calls(&self) -> Seq<U> {
        Seq::empty()
    }

    /// Applies the function.  What it can return for an item does not change
    /// from one call to the next.
    fn call(&mut self, item: U) -> (out: Self::Output)
        requires
            old(self).inv(),
        ensures
            final(self).inv(),
            final(self).calls() == old(self).calls().push(item),
            old(self).maps(item, out),
            forall|u: U, o: Self::Output| #[trigger] final(self).maps(u, o) == old(self).maps(u, o),
    ;
}

/// `a` and `b` can return the same for every item: `b` is `a` as it was, or `a`
/// after any number of calls.
pub open spec fn same_maps<U, F: Step<U>>(a: F, b: F) -> bool {
    forall|u: U, o: F::Output| #[trigger] a.maps(u, o) == b.maps(u, o)
}

/// A closure, or a function, as a `Step`.
#[verifier::reject_recursive_types(U)]
pub struct FnStep<F, U> {
    f: F,
    called: Ghost<Seq<U>>,
}

impl<F, U> FnStep<F, U> {
    /// The function inside.
    pub closed spec fn get(&self) -> F {
        self.f
    }

    /// The items that the function has been called on through this wrapper.
    pub closed spec fn called(&self) -> Seq<U> {
        self.called@
    }

    /// Wraps `f`.
    pub fn new(f: F) -> (r: Self)
        ensures
            r.get() == f,
            r.called() == Seq::<U>::empty(),
    {
        FnStep { f, called: Ghost(Seq::empty()) }
    }
}

impl<U, O, F: FnMut(U) -> O> Step<U> for FnStep<F, U> {
    type Output = O;

    open spec fn inv(&self) -> bool {
        forall|u: U| call_requires(self.get(), (u,))
    }

    open spec fn maps(&self, item: U, out: O) -> bool {
        call_ensures(self.get(), (item,), out)
    }

    open spec fn calls(&self) -> Seq<U> {
        self.called()
    }

    fn call(&mut self, item: U) -> (out: O)
        ensures
            final(self).get() == old(self).get(),
    {
        assert(call_requires(self.get(), (item,)));
        proof {
            self.called = Ghost(self.called@.push(item));
        }
        (self.f)(item)
    }
}

} // verus!
