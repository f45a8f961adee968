//! The storage of the registration table: a `heapless::Vec`, whose capacity
//! is fixed when the program is compiled and which never allocates.

use vstd::prelude::*;
use crate::fds::FD_SETSIZE;
use crate::registration::Registration;

verus! {

/// `heapless::Vec`, a vector that lives in an array of `N` places.
#[verifier::external_type_specification]
#[verifier::external_body]
#[verifier::reject_recursive_types(T)]
pub struct ExHeaplessVec<T, const N: usize>(heapless::Vec<T, N>);

/// What a vector of registrations holds, first to last.
pub uninterp spec fn held(slots: heapless::Vec<Registration, FD_SETSIZE>) -> Seq<Registration>;

/// `heapless::Vec::new` returns a vector that holds nothing.
#[verifier::external_body]
pub(crate) fn empty() -> (slots: heapless::Vec<Registration, FD_SETSIZE>)
    ensures
        held(slots) == Seq::<Registration>::empty(),
{
    heapless::Vec::new()
}

/// `heapless::Vec::push` appends the item if fewer than `FD_SETSIZE` are
/// held. Otherwise it changes nothing and hands the item back.
#[verifier::external_body]
pub(crate) fn push(slots: &mut heapless::Vec<Registration, FD_SETSIZE>, item: Registration) -> (pushed:
    Result<(), Registration>)
    ensures
        match pushed {
            Ok(_) => held(*old(slots)).len() < FD_SETSIZE && held(*final(slots)) == held(*old(slots)).push(
                item,
            ),
            Err(back) => held(*old(slots)).len() >= FD_SETSIZE && back == item && held(*final(slots))
                == held(*old(slots)),
        },
{
    slots.push(item)
}

/// `heapless::Vec::swap_remove` takes the item at `index` out and returns
/// it; the last item takes its place, and the vector is one shorter. It
/// panics if nothing is held at `index`.
#[verifier::external_body]
pub(crate) fn swap_remove(slots: &mut heapless::Vec<Registration, FD_SETSIZE>, index: usize) -> (removed:
    Registration)
    requires
        index < held(*old(slots)).len(),
    ensures
        removed == held(*old(slots))[index as int],
        held(*final(slots)) == held(*old(slots)).update(index as int, held(*old(slots)).last()).drop_last(),
{
    slots.swap_remove(index)
}

/// `heapless::Vec::as_slice` lends out what the vector holds, as a slice.
#[verifier::external_body]
pub(crate) fn as_slice(slots: &heapless::Vec<Registration, FD_SETSIZE>) -> (slice: &[Registration])
    ensures
        slice@ == held(*slots),
{
    slots.as_slice()
}

/// `heapless::Vec::as_mut_slice` lends out what the vector holds, to be
/// changed in place; the slice's own indexing picks the item at `index`,
/// and panics if there is none. Whatever the borrower leaves in the item is
/// what the vector holds there afterwards; nothing else changes.
#[verifier::external_body]
pub(crate) fn slot_mut(slots: &mut heapless::Vec<Registration, FD_SETSIZE>, index: usize) -> (slot:
    &mut Registration)
    requires
        index < held(*old(slots)).len(),
    ensures
        *slot == held(*old(slots))[index as int],
        held(*final(slots)) == held(*old(slots)).update(index as int, *final(slot)),
{
    &mut slots.as_mut_slice()[index]
}

} // verus!
