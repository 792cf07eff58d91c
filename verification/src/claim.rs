//! The work-distribution step of the worker pool.
//!
//! Workers share one claim cursor and advance it by a fetch-and-increment
//! to claim the next block index. The contract that matters is captured
//! here on the cursor value itself: a claim hands out exactly the current
//! cursor value and advances it by one, so successive claims hand out
//! `0, 1, 2, ...` and no block index is ever handed out twice.

use vstd::prelude::*;

verus! {

/// Claim the next unit of work: hand out the current cursor value and
/// advance the cursor, or report that every block index has already been
/// claimed and leave the cursor alone.
pub fn claim_next(cursor: &mut usize, num_blocks: usize) -> (r: Option<usize>)
    ensures
        *old(cursor) < num_blocks ==> r == Some(*old(cursor)) && *final(cursor) == *old(cursor)
            + 1,
        *old(cursor) >= num_blocks ==> r is None && *final(cursor) == *old(cursor),
{
    if *cursor < num_blocks {
        let v = *cursor;
        *cursor = *cursor + 1;
        Some(v)
    } else {
        None
    }
}
} // verus!
