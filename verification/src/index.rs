//! Tiling an input buffer into its ordered list of BGZF block positions.

use vstd::prelude::*;
use vstd::slice::slice_subrange;

use crate::errors::FormatError;
use crate::header::parse_bgzf_header;
use crate::header::spec_parse_bgzf_header;

verus! {

/// The location of one BGZF member inside the input buffer: its starting
/// offset and its total on-disk size in bytes (the header's BSIZE field
/// plus one, so at least 1 and at most 65536).
#[derive(Clone, Copy, Debug, PartialEq, Eq, Structural)]
pub struct BlockPos {
    pub offset: usize,
    pub size: u32,
}

/// The block list recovered by repeatedly parsing a member header at `off`
/// and advancing by that member's declared size, until `off` reaches the
/// end of the buffer. Fails with the parser's error where a header is
/// malformed, and with `BlockOverrun` where a declared span would run past
/// the end of the buffer.
pub open spec fn spec_index_blocks(s: Seq<u8>, off: int) -> Result<Seq<BlockPos>, FormatError>
    decreases s.len() - off,
    when 0 <= off <= s.len()
{
    if off == s.len() {
        Ok(Seq::empty())
    } else {
        match spec_parse_bgzf_header(s.subrange(off, s.len() as int)) {
            Err(e) => Err(e),
            Ok(h) => {
                if off + h.bsize + 1 > s.len() {
                    Err(FormatError::BlockOverrun)
                } else {
                    match spec_index_blocks(s, off + h.bsize + 1) {
                        Err(e) => Err(e),
                        Ok(rest) => Ok(
                            seq![
                                BlockPos { offset: off as usize, size: (h.bsize + 1) as u32 },
                            ] + rest,
                        ),
                    }
                }
            },
        }
    }
}

/// The block list `blks` exactly tiles the byte range `[from, len)`: the
/// first block starts at `from`, every block is non-empty and starts where
/// its predecessor ends, and the last block ends exactly at `len`.
pub open spec fn tiles_from(blks: Seq<BlockPos>, from: int, len: int) -> bool {
    &&& (blks.len() == 0 ==> from == len)
    &&& (blks.len() > 0 ==> blks[0].offset == from)
    &&& (blks.len() > 0 ==> blks[blks.len() - 1].offset + blks[blks.len() - 1].size == len)
    &&& (forall|i: int| 0 <= i < blks.len() ==> (#[trigger] blks[i]).size >= 1)
    &&& (forall|i: int|
        0 <= i < blks.len() - 1 ==> (#[trigger] blks[i + 1]).offset == blks[i].offset
            + blks[i].size)
}

/// The block list `blks` exactly tiles a buffer of length `len` from its
/// start.
pub open spec fn tiles(blks: Seq<BlockPos>, len: int) -> bool {
    tiles_from(blks, 0, len)
}

/// Whatever block list the indexer recovers tiles the rest of the buffer:
/// blocks are contiguous, non-empty, and the last ends exactly at the end
/// of the buffer.
pub proof fn lemma_index_blocks_tiles(s: Seq<u8>, off: int, blks: Seq<BlockPos>)
    requires
        0 <= off <= s.len(),
        s.len() <= usize::MAX,
        spec_index_blocks(s, off) == Ok::<Seq<BlockPos>, FormatError>(blks),
    ensures
        tiles_from(blks, off, s.len() as int),
    decreases s.len() - off,
{
    if off == s.len() {
        assert(blks =~= Seq::<BlockPos>::empty());
    } else {
        match spec_parse_bgzf_header(s.subrange(off, s.len() as int)) {
            Err(e) => {
                assert(false);
            },
            Ok(h) => {
                let next = off + h.bsize + 1;
                assert(next <= s.len());
                match spec_index_blocks(s, next) {
                    Err(e) => {
                        assert(false);
                    },
                    Ok(rest) => {
                        lemma_index_blocks_tiles(s, next, rest);
                        let b0 = BlockPos { offset: off as usize, size: (h.bsize + 1) as u32 };
                        assert(blks == seq![b0] + rest);
                        assert(blks[0] == b0);
                        assert(b0.offset == off);
                        assert forall|i: int| 0 <= i < blks.len() implies (
                        #[trigger] blks[i]).size >= 1 by {
                            if i > 0 {
                                assert(blks[i] == rest[i - 1]);
                            }
                        }
                        assert forall|i: int| 0 <= i < blks.len() - 1 implies (
                        #[trigger] blks[i + 1]).offset == blks[i].offset + blks[i].size by {
                            assert(blks[i + 1] == rest[i]);
                            if i == 0 {
                                assert(rest[0].offset == next);
                            } else {
                                assert(blks[i] == rest[i - 1]);
                                let k = i - 1;
                                assert(rest[k + 1].offset == rest[k].offset + rest[k].size);
                            }
                        }
                        if rest.len() == 0 {
                            assert(blks[blks.len() - 1] == b0);
                            assert(next == s.len());
                        } else {
                            assert(blks[blks.len() - 1] == rest[rest.len() - 1]);
                        }
                    },
                }
            },
        }
    }
}

/// Strict monotonicity follows from tiling: block offsets strictly
/// increase, so distinct blocks never overlap and never repeat an offset.
pub proof fn lemma_tiles_strictly_increasing(blks: Seq<BlockPos>, from: int, len: int)
    requires
        tiles_from(blks, from, len),
    ensures
        forall|i: int, j: int|
            0 <= i < j < blks.len() ==> (#[trigger] blks[i]).offset + blks[i].size <= (
            #[trigger] blks[j]).offset,
        forall|i: int, j: int|
            0 <= i < j < blks.len() ==> (#[trigger] blks[i]).offset < (#[trigger] blks[j]).offset,
{
    assert forall|i: int, j: int| 0 <= i < j < blks.len() implies (#[trigger] blks[i]).offset
        + blks[i].size <= (#[trigger] blks[j]).offset by {
        lemma_offset_end_le(blks, from, len, i, j);
    }
}

/// The end of block `i` never lies past the start of a later block `j`.
proof fn lemma_offset_end_le(blks: Seq<BlockPos>, from: int, len: int, i: int, j: int)
    requires
        tiles_from(blks, from, len),
        0 <= i < j < blks.len(),
    ensures
        blks[i].offset + blks[i].size <= blks[j].offset,
    decreases j - i,
{
    if j == i + 1 {
        assert(blks[i + 1].offset == blks[i].offset + blks[i].size);
    } else {
        lemma_offset_end_le(blks, from, len, i, j - 1);
        assert(blks[(j - 1) + 1].offset == blks[j - 1].offset + blks[j - 1].size);
        assert(blks[j - 1].size >= 1);
    }
}

/// Tile the whole buffer into its ordered block list, or report the first
/// structural violation. On success the returned positions exactly tile
/// the buffer: contiguous, strictly increasing, non-overlapping, ending at
/// the buffer's length.
pub fn index_blocks(buf: &[u8]) -> (r: Result<Vec<BlockPos>, FormatError>)
    ensures
        match r {
            Ok(blks) => spec_index_blocks(buf@, 0) == Ok::<Seq<BlockPos>, FormatError>(blks@)
                && tiles(blks@, buf@.len() as int),
            Err(e) => spec_index_blocks(buf@, 0) == Err::<Seq<BlockPos>, FormatError>(e),
        },
{
    let ghost s = buf@;
    let mut blks: Vec<BlockPos> = Vec::new();
    let mut off: usize = 0;
    while off < buf.len()
        invariant
            0 <= off <= s.len(),
            s == buf@,
            match spec_index_blocks(s, off as int) {
                Ok(rest) => spec_index_blocks(s, 0) == Ok::<Seq<BlockPos>, FormatError>(
                    blks@ + rest,
                ),
                Err(e) => spec_index_blocks(s, 0) == Err::<Seq<BlockPos>, FormatError>(e),
            },
        decreases s.len() - off,
    {
        let tail = slice_subrange(buf, off, buf.len());
        let h = match parse_bgzf_header(tail) {
            Ok(h) => h,
            Err(e) => {
                return Err(e);
            },
        };
        let size: u32 = h.bsize as u32 + 1;
        if size as usize > buf.len() - off {
            return Err(FormatError::BlockOverrun);
        }
        let b0 = BlockPos { offset: off, size };
        proof {
            let next = off + h.bsize + 1;
            match spec_index_blocks(s, next) {
                Ok(rest) => {
                    assert(spec_index_blocks(s, off as int) == Ok::<Seq<BlockPos>, FormatError>(
                        seq![b0] + rest,
                    ));
                    assert((blks@ + (seq![b0] + rest)) =~= (blks@.push(b0) + rest));
                },
                Err(e) => {
                    assert(spec_index_blocks(s, off as int) == Err::<Seq<BlockPos>, FormatError>(
                        e,
                    ));
                },
            }
        }
        blks.push(b0);
        off = off + size as usize;
    }
    proof {
        assert(s.len() <= usize::MAX);
        assert(spec_index_blocks(s, off as int) == Ok::<Seq<BlockPos>, FormatError>(
            Seq::<BlockPos>::empty(),
        ));
        assert(blks@ + Seq::<BlockPos>::empty() =~= blks@);
        lemma_index_blocks_tiles(s, 0, blks@);
    }
    Ok(blks)
}

} // verus!
