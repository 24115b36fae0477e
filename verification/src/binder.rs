//! Handing a finished texture to everything that displays it.
//!
//! A consumer slot is a field of a scene object that holds a texture handle:
//! a skybox, or one side of an environment map. The controller owns the
//! handle that counts; a slot holds a copy, which goes stale the moment the
//! controller asks for another encoding and is put right by the next
//! binding. Updates flow one way, from the controller to the slots.

use vstd::prelude::*;

verus! {

/// `count` slots that all hold `handle`.
pub open spec fn all_bound<H>(count: nat, handle: H) -> Seq<H> {
    Seq::new(count, |i: int| handle)
}

/// Puts a copy of `handle` in every slot. There may be any number of slots,
/// none included.
pub fn bind<H: Copy>(slots: &mut Vec<H>, handle: H)
    ensures
        final(slots)@ == all_bound(old(slots)@.len(), handle),
{
    let count = slots.len();
    let mut i: usize = 0;
    while i < count
        invariant
            i <= count,
            slots@.len() == count,
            forall|j: int| 0 <= j < i ==> slots@[j] == handle,
        decreases count - i,
    {
        slots[i] = handle;
        i += 1;
    }
    assert(slots@ =~= all_bound(count as nat, handle));
}

} // verus!
