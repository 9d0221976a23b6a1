//! Epochs: sequence numbers that tell the work of the moment from work
//! that was started earlier and has been superseded since. A worker keeps
//! the epoch it was started under and acts only while that epoch is still
//! the current one.

use vstd::prelude::*;

verus! {

/// The epoch after `e`. Epochs go up by one and wrap around after
/// `u64::MAX`, so two of them can only coincide when 2^64 or more were
/// allocated between them.
pub open spec fn next_epoch(e: u64) -> u64 {
    if e == u64::MAX {
        0
    } else {
        (e + 1) as u64
    }
}

/// Allocates the epoch after `e`.
pub fn advance(e: u64) -> (next: u64)
    ensures
        next == next_epoch(e),
{
    e.wrapping_add(1)
}

/// How many epochs were allocated since `e` was the current one, where
/// `current` is the current one now: 0 for the current epoch itself. This
/// is the distance from `e` up to `current` around the circle of epochs.
pub open spec fn behind(e: u64, current: u64) -> nat {
    ((current - e) % 0x1_0000_0000_0000_0000) as nat
}

/// Only the current epoch is 0 behind, and each allocation puts every
/// epoch one further behind, until it has gone once around.
pub proof fn lemma_behind(e: u64, current: u64)
    ensures
        behind(e, current) == 0 <==> e == current,
        behind(e, current) <= u64::MAX,
        behind(e, current) < u64::MAX ==> behind(e, next_epoch(current)) == behind(e, current) + 1,
{
}

} // verus!
