//! The two types of `std::task` that every operation of this crate speaks of.

use vstd::prelude::*;

verus! {

/// `std::task::Poll`, taken as the enum that its documentation shows: the
/// variants `Ready(T)` and `Pending`, and nothing else.  Proofs match on them.
#[verifier::external_type_specification]
#[verifier::reject_recursive_types(T)]
pub struct ExPoll<T>(std::task::Poll<T>);

/// `std::task::Context`, which every operation hands on unread to the sink,
/// stream or future below it, where a wake-up is registered.  Nothing is claimed
/// of what it holds.
#[verifier::external_type_specification]
#[verifier::external_body]
pub struct ExContext<'a>(std::task::Context<'a>);

} // verus!
