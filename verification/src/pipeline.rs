//! The whole decompression run on one buffer: validate the end-of-file
//! marker, tile the buffer into blocks, decode every block, and emit the
//! payloads in block order.

use vstd::prelude::*;

use crate::decode::block_span;
use crate::decode::decode_block;
use crate::decode::gunzip_of;
use crate::errors::BgzfError;
use crate::errors::FormatError;
use crate::index::index_blocks;
use crate::index::lemma_tiles_strictly_increasing;
use crate::index::spec_index_blocks;
use crate::index::tiles;
use crate::index::tiles_from;
use crate::index::BlockPos;
use crate::marker::bgzf_eof_marker;
use crate::marker::has_bgzf_eof_marker;

verus! {

/// The payloads of the first `n` blocks of `blks`, concatenated in block
/// order; `None` where the gzip primitive rejects any of those blocks.
pub open spec fn spec_concat_payloads(s: Seq<u8>, blks: Seq<BlockPos>, n: int) -> Option<Seq<u8>>
    decreases n,
{
    if n <= 0 {
        Some(Seq::empty())
    } else {
        match spec_concat_payloads(s, blks, n - 1) {
            None => None,
            Some(acc) => match gunzip_of(block_span(s, blks[n - 1])) {
                None => None,
                Some(p) => Some(acc + p),
            },
        }
    }
}

/// What a whole decompression run yields on buffer `s`: the in-order
/// concatenation of every block's decompressed payload, or the first
/// failure — a buffer shorter than the end-of-file marker, a buffer whose
/// final 28 bytes are not that marker, a structural violation while
/// tiling, or a block the gzip primitive rejects.
pub open spec fn spec_decompress(s: Seq<u8>) -> Result<Seq<u8>, BgzfError> {
    if s.len() < 28 {
        Err(BgzfError::Format(FormatError::InputTooSmallForMarker))
    } else if s.subrange(s.len() - 28, s.len() as int) != bgzf_eof_marker() {
        Err(BgzfError::Format(FormatError::MissingEofMarker))
    } else {
        match spec_index_blocks(s, 0) {
            Err(e) => Err(BgzfError::Format(e)),
            Ok(blks) => match spec_concat_payloads(s, blks, blks.len() as int) {
                None => Err(BgzfError::Decode),
                Some(out) => Ok(out),
            },
        }
    }
}

/// Every block of a tiling lies inside the buffer.
pub proof fn lemma_tiles_block_in_bounds(blks: Seq<BlockPos>, from: int, len: int, i: int)
    requires
        tiles_from(blks, from, len),
        0 <= i < blks.len(),
    ensures
        blks[i].offset + blks[i].size <= len,
{
    if i < blks.len() - 1 {
        lemma_tiles_strictly_increasing(blks, from, len);
        let last = blks.len() - 1;
        assert(blks[i].offset + blks[i].size <= blks[last].offset);
    }
}

/// One rejected block poisons the whole concatenation.
proof fn lemma_concat_payloads_none(s: Seq<u8>, blks: Seq<BlockPos>, i: int, n: int)
    requires
        0 <= i < n,
        gunzip_of(block_span(s, blks[i])) is None,
    ensures
        spec_concat_payloads(s, blks, n) is None,
    decreases n,
{
    if i < n - 1 {
        lemma_concat_payloads_none(s, blks, i, n - 1);
    }
}

/// Decompress a whole BGZF buffer sequentially, block by block in file
/// order: the reference pipeline, equal to a run with a single worker.
pub fn decompress_buffer(buf: &[u8]) -> (r: Result<Vec<u8>, BgzfError>)
    ensures
        match r {
            Ok(out) => spec_decompress(buf@) == Ok::<Seq<u8>, BgzfError>(out@),
            Err(e) => spec_decompress(buf@) == Err::<Seq<u8>, BgzfError>(e),
        },
{
    if buf.len() < 28 {
        return Err(BgzfError::Format(FormatError::InputTooSmallForMarker));
    }
    if !has_bgzf_eof_marker(buf) {
        return Err(BgzfError::Format(FormatError::MissingEofMarker));
    }
    let blks = match index_blocks(buf) {
        Ok(blks) => blks,
        Err(e) => {
            return Err(BgzfError::Format(e));
        },
    };
    let ghost s = buf@;
    let mut out: Vec<u8> = Vec::new();
    let mut i: usize = 0;
    while i < blks.len()
        invariant
            0 <= i <= blks@.len(),
            s == buf@,
            s.len() >= 28,
            s.subrange(s.len() - 28, s.len() as int) == bgzf_eof_marker(),
            spec_index_blocks(s, 0) == Ok::<Seq<BlockPos>, FormatError>(blks@),
            tiles(blks@, s.len() as int),
            spec_concat_payloads(s, blks@, i as int) == Some(out@),
        decreases blks@.len() - i,
    {
        let b = blks[i];
        proof {
            lemma_tiles_block_in_bounds(blks@, 0, s.len() as int, i as int);
        }
        let mut data = match decode_block(buf, &b) {
            Ok(data) => data,
            Err(e) => {
                proof {
                    lemma_concat_payloads_none(s, blks@, i as int, blks@.len() as int);
                }
                return Err(BgzfError::Decode);
            },
        };
        out.append(&mut data);
        proof {
            assert(spec_concat_payloads(s, blks@, i + 1) == Some(out@));
        }
        i = i + 1;
    }
    Ok(out)
}

} // verus!
