//! Strategy selection: whether one batch of jobs runs concurrently or
//! serially.
//!
//! The rule is all-or-nothing: a batch runs in parallel exactly when the
//! codec of every job's target format is safe to invoke from several
//! threads at once; one serial-only target makes the whole batch serial.

use vstd::prelude::*;

use crate::format_meta::{strategy_of, ImageFormat, ProcessStrategy};

verus! {

/// Every format in `targets` has a parallel-safe codec.
pub open spec fn all_parallel(targets: Seq<ImageFormat>) -> bool {
    forall|i: int|
        0 <= i < targets.len() ==> strategy_of(#[trigger] targets[i]) == ProcessStrategy::Parallel
}

/// Picks the strategy for one batch from the target format of each of its
/// jobs: parallel exactly when every target's codec is parallel-safe.
pub fn select_strategy(targets: &Vec<ImageFormat>) -> (r: ProcessStrategy)
    ensures
        r == (if all_parallel(targets@) {
            ProcessStrategy::Parallel
        } else {
            ProcessStrategy::Serial
        }),
{
    let mut i: usize = 0;
    while i < targets.len()
        invariant
            i <= targets@.len(),
            forall|j: int|
                0 <= j < i ==> strategy_of(#[trigger] targets@[j]) == ProcessStrategy::Parallel,
        decreases targets@.len() - i,
    {
        let s = targets[i].process_strategy();
        if s == ProcessStrategy::Serial {
            return ProcessStrategy::Serial;
        }
        i = i + 1;
    }
    ProcessStrategy::Parallel
}

} // verus!
