//! Order-preserving reassembly of per-block decode results.
//!
//! Workers claim block indices exclusively and finish in no particular
//! order; the merge stage emits payloads strictly in block-index order, so
//! the output stream is the same whatever the completion order was.

use vstd::prelude::*;

use crate::decode::block_span;
use crate::decode::gunzip_of;
use crate::errors::FormatError;
use crate::index::spec_index_blocks;
use crate::index::BlockPos;
use crate::pipeline::spec_concat_payloads;
use crate::pipeline::spec_decompress;

verus! {

/// One finished unit of work: the payload decoded from the block at index
/// `idx` of the block list.
pub struct WorkerOutput {
    pub idx: usize,
    pub data: Vec<u8>,
}

/// No two outputs carry the same block index: each index was claimed by
/// exactly one worker, exactly once.
pub open spec fn outputs_unique(outs: Seq<WorkerOutput>) -> bool {
    forall|j: int, k: int|
        0 <= j < k < outs.len() ==> (#[trigger] outs[j]).idx != (#[trigger] outs[k]).idx
}

/// Some output carries block index `i`.
pub open spec fn has_idx(outs: Seq<WorkerOutput>, i: int) -> bool {
    exists|j: int| 0 <= j < outs.len() && (#[trigger] outs[j]).idx == i
}

/// Every block index in `[0, n)` is carried by some output: all claimed
/// work was completed.
pub open spec fn outputs_cover(outs: Seq<WorkerOutput>, n: int) -> bool {
    forall|i: int| 0 <= i < n ==> #[trigger] has_idx(outs, i)
}

/// The payload of the output carrying block index `i`.
pub open spec fn payload_at(outs: Seq<WorkerOutput>, i: int) -> Seq<u8> {
    let j = choose|j: int| 0 <= j < outs.len() && (#[trigger] outs[j]).idx == i;
    outs[j].data@
}

/// The payloads of block indices `[0, n)`, concatenated in index order —
/// what an order-preserving merge of the outputs emits.
pub open spec fn merged_payloads(outs: Seq<WorkerOutput>, n: int) -> Seq<u8>
    decreases n,
{
    if n <= 0 {
        Seq::empty()
    } else {
        merged_payloads(outs, n - 1) + payload_at(outs, n - 1)
    }
}

/// Every output's payload is exactly what the gzip primitive yields on
/// its block's span of buffer `s`.
pub open spec fn outputs_decode(s: Seq<u8>, blks: Seq<BlockPos>, outs: Seq<WorkerOutput>) -> bool {
    forall|j: int|
        0 <= j < outs.len() ==> (#[trigger] outs[j]).idx < blks.len() && gunzip_of(
            block_span(s, blks[outs[j].idx as int]),
        ) == Some(outs[j].data@)
}

/// The position of the output carrying block index `want`, if any.
fn find_output(outs: &Vec<WorkerOutput>, want: usize) -> (r: Option<usize>)
    ensures
        match r {
            Some(j) => j < outs@.len() && outs@[j as int].idx == want,
            None => forall|k: int| 0 <= k < outs@.len() ==> (#[trigger] outs@[k]).idx != want,
        },
{
    let mut j: usize = 0;
    while j < outs.len()
        invariant
            0 <= j <= outs@.len(),
            forall|k: int| 0 <= k < j ==> (#[trigger] outs@[k]).idx != want,
        decreases outs@.len() - j,
    {
        if outs[j].idx == want {
            return Some(j);
        }
        j = j + 1;
    }
    None
}

/// Merge a complete set of worker outputs into the output stream, strictly
/// in block-index order, whatever order the outputs arrived in. Yields
/// `None` exactly where some block index below `num_blocks` has no output.
pub fn merge_outputs(outs: &Vec<WorkerOutput>, num_blocks: usize) -> (r: Option<Vec<u8>>)
    ensures
        r is Some <==> outputs_cover(outs@, num_blocks as int),
        outputs_unique(outs@) && r is Some ==> r->Some_0@ == merged_payloads(
            outs@,
            num_blocks as int,
        ),
{
    let mut out: Vec<u8> = Vec::new();
    let mut i: usize = 0;
    while i < num_blocks
        invariant
            0 <= i <= num_blocks,
            forall|i2: int| 0 <= i2 < i ==> #[trigger] has_idx(outs@, i2),
            outputs_unique(outs@) ==> out@ == merged_payloads(outs@, i as int),
        decreases num_blocks - i,
    {
        let j = match find_output(outs, i) {
            Some(j) => j,
            None => {
                proof {
                    assert(!has_idx(outs@, i as int));
                }
                return None;
            },
        };
        out.extend_from_slice(outs[j].data.as_slice());
        proof {
            assert(has_idx(outs@, i as int));
            if outputs_unique(outs@) {
                let j2 = choose|j2: int|
                    0 <= j2 < outs@.len() && (#[trigger] outs@[j2]).idx == i as int;
                assert(outs@[j2].idx == outs@[j as int].idx);
                assert(j2 == j as int);
                assert(payload_at(outs@, i as int) == outs@[j as int].data@);
                assert(out@ == merged_payloads(outs@, i + 1));
            }
        }
        i = i + 1;
    }
    Some(out)
}

/// A complete, exclusively-claimed, correctly-decoded set of outputs
/// merges to exactly the in-order concatenation of the block payloads.
pub proof fn lemma_merged_matches_concat(
    s: Seq<u8>,
    blks: Seq<BlockPos>,
    outs: Seq<WorkerOutput>,
    n: int,
)
    requires
        outputs_unique(outs),
        outputs_cover(outs, n),
        outputs_decode(s, blks, outs),
        n <= blks.len(),
    ensures
        spec_concat_payloads(s, blks, n) == Some(merged_payloads(outs, n)),
    decreases n,
{
    if n > 0 {
        lemma_merged_matches_concat(s, blks, outs, n - 1);
        assert(has_idx(outs, n - 1));
        let j = choose|j: int| 0 <= j < outs.len() && (#[trigger] outs[j]).idx == n - 1;
        assert(gunzip_of(block_span(s, blks[n - 1])) == Some(outs[j].data@));
        assert(payload_at(outs, n - 1) == outs[j].data@);
    }
}

/// Determinism across schedules: two complete output sets decoded from
/// the same buffer and block list merge to the same byte stream, however
/// differently their workers were scheduled.
pub proof fn lemma_merge_deterministic(
    s: Seq<u8>,
    blks: Seq<BlockPos>,
    outs1: Seq<WorkerOutput>,
    outs2: Seq<WorkerOutput>,
    n: int,
)
    requires
        outputs_unique(outs1),
        outputs_cover(outs1, n),
        outputs_decode(s, blks, outs1),
        outputs_unique(outs2),
        outputs_cover(outs2, n),
        outputs_decode(s, blks, outs2),
        n <= blks.len(),
    ensures
        merged_payloads(outs1, n) == merged_payloads(outs2, n),
{
    lemma_merged_matches_concat(s, blks, outs1, n);
    lemma_merged_matches_concat(s, blks, outs2, n);
}

/// The order-preserving merge of any complete multi-worker run equals the
/// sequential single-worker result on the same well-formed buffer.
pub proof fn lemma_merge_matches_sequential(
    s: Seq<u8>,
    blks: Seq<BlockPos>,
    outs: Seq<WorkerOutput>,
)
    requires
        spec_index_blocks(s, 0) == Ok::<Seq<BlockPos>, FormatError>(blks),
        spec_decompress(s) is Ok,
        outputs_unique(outs),
        outputs_cover(outs, blks.len() as int),
        outputs_decode(s, blks, outs),
    ensures
        spec_decompress(s)->Ok_0 == merged_payloads(outs, blks.len() as int),
{
    lemma_merged_matches_concat(s, blks, outs, blks.len() as int);
}

} // verus!
