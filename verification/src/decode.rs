//! Decoding one BGZF block through the external gzip primitive.

use vstd::prelude::*;
use vstd::slice::slice_subrange;

use crate::errors::BgzfError;
use crate::index::BlockPos;

verus! {

/// What the gzip primitive yields on the bytes `s`: `Some` of the
/// decompressed payload of the single gzip member that `s` consists of,
/// or `None` where `s` is not a well-formed gzip member. Decoding is a
/// pure function of the bytes alone.
pub uninterp spec fn gunzip_of(s: Seq<u8>) -> Option<Seq<u8>>;

/// Relies on `flate2::bufread::GzDecoder`: reading it to the end yields
/// the decompressed payload of the single gzip member at the start of the
/// input, a function of the input bytes alone; a malformed member makes
/// the read fail.
#[verifier::external_body]
fn decompress_gz(buf: &[u8]) -> (r: Result<Vec<u8>, BgzfError>)
    ensures
        r is Ok <==> gunzip_of(buf@) is Some,
        r is Ok ==> r->Ok_0@ == gunzip_of(buf@)->Some_0,
        r is Err ==> r->Err_0 == BgzfError::Decode,
{
    let mut gz = flate2::bufread::GzDecoder::new(buf);
    let mut out: Vec<u8> = Vec::new();
    match std::io::Read::read_to_end(&mut gz, &mut out) {
        Ok(_) => Ok(out),
        Err(_) => Err(BgzfError::Decode),
    }
}

/// The exact byte span of one block inside the buffer `s`.
pub open spec fn block_span(s: Seq<u8>, b: BlockPos) -> Seq<u8> {
    s.subrange(b.offset as int, b.offset + b.size)
}

/// Decompress the single block at position `b` of `buf`: its payload on
/// success, `Decode` where the gzip primitive rejects the span.
pub fn decode_block(buf: &[u8], b: &BlockPos) -> (r: Result<Vec<u8>, BgzfError>)
    requires
        b.offset + b.size <= buf@.len(),
    ensures
        r is Ok <==> gunzip_of(block_span(buf@, *b)) is Some,
        r is Ok ==> r->Ok_0@ == gunzip_of(block_span(buf@, *b))->Some_0,
        r is Err ==> r->Err_0 == BgzfError::Decode,
{
    let tail = slice_subrange(buf, b.offset, buf.len());
    let span = slice_subrange(tail, 0, b.size as usize);
    proof {
        assert(span@ =~= block_span(buf@, *b));
    }
    decompress_gz(span)
}

} // verus!
