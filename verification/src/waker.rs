//! What the reactor does with a task's waker: it compares two of them, keeps
//! a copy of one, and wakes one.

use vstd::prelude::*;
use core::task::Waker;

verus! {

/// `core::task::Waker`, a handle that wakes one task. Nothing is known of
/// what it holds.
#[verifier::external_type_specification]
#[verifier::external_body]
pub struct ExWaker(Waker);

/// What `Waker::will_wake` answers for two wakers: `true` only if both wake
/// the same task.
pub uninterp spec fn same_task(a: Waker, b: Waker) -> bool;

/// `Waker::will_wake` compares the two wakers and changes neither. Its
/// answer depends on the two wakers alone, and goes by the name `same_task`.
pub assume_specification[ Waker::will_wake ](this: &Waker, other: &Waker) -> (same: bool)
    ensures
        same == same_task(*this, *other),
;

/// `Waker::wake` wakes the task and uses the waker up. It returns nothing,
/// so nothing is claimed of it.
pub assume_specification[ Waker::wake ](waker: Waker);

/// `Waker::clone` makes another waker for the same task. How the copy
/// compares with the waker it was made from is left open, so nothing is
/// claimed of it.
pub assume_specification[ <Waker as Clone>::clone ](waker: &Waker) -> (copy: Waker);

} // verus!
