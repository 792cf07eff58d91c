//! Parsing of one BGZF member header.
//!
//! A BGZF member is a gzip member (RFC 1952) whose FEXTRA flag is set and
//! whose extra field carries a `BC` subfield holding the member's total
//! on-disk size minus one (the BSIZE field).

use vstd::prelude::*;
use vstd::slice::slice_index_get;

use crate::errors::FormatError;

verus! {

/// A parsed BGZF member header: just the BSIZE field. The member's total
/// on-disk size is `bsize + 1` bytes.
#[derive(Clone, Copy, Debug, PartialEq, Eq, Structural)]
pub struct BgzfHeader {
    pub bsize: u16,
}

/// The 16-bit value stored little-endian as the byte pair `(lo, hi)`.
pub open spec fn le16(lo: u8, hi: u8) -> u16 {
    (lo + hi * 256) as u16
}

/// Walk the extra-field region `s[off..end]` as a sequence of subfields
/// `{SI1, SI2, SLEN(LE16), SLEN bytes}` looking for the BGZF `BC` subfield
/// (SI1 = 66, SI2 = 67, SLEN = 2), whose payload is BSIZE.
pub open spec fn spec_find_bc_subfield(s: Seq<u8>, off: int, end: int) -> Result<
    BgzfHeader,
    FormatError,
>
    decreases end - off,
{
    if off >= end {
        Err(FormatError::MarkerNotFound)
    } else if end - off < 4 {
        Err(FormatError::TruncatedSubfield)
    } else if off + 4 + le16(s[off + 2], s[off + 3]) > end {
        Err(FormatError::SubfieldOverflow)
    } else if s[off] == 66 && s[off + 1] == 67 && le16(s[off + 2], s[off + 3]) == 2 {
        Ok(BgzfHeader { bsize: le16(s[off + 4], s[off + 5]) })
    } else {
        spec_find_bc_subfield(s, off + 4 + le16(s[off + 2], s[off + 3]), end)
    }
}

/// What parsing a BGZF member header from the start of `s` yields: either
/// the BSIZE field of the `BC` subfield, or the first structural violation
/// encountered, checking in order the minimum length, the gzip magic pair,
/// the compression method, the flags byte, and the extra-field bounds.
pub open spec fn spec_parse_bgzf_header(s: Seq<u8>) -> Result<BgzfHeader, FormatError> {
    if s.len() < 16 {
        Err(FormatError::InputTooSmall)
    } else if s[0] != 31 || s[1] != 139 {
        Err(FormatError::BadMagic)
    } else if s[2] != 8 {
        Err(FormatError::BadMethod)
    } else if s[3] != 4 {
        Err(FormatError::BadFlags)
    } else if 12 + le16(s[10], s[11]) > s.len() {
        Err(FormatError::ExtraFieldOverflow)
    } else {
        spec_find_bc_subfield(s, 12, 12 + le16(s[10], s[11]))
    }
}

/// Decode one BGZF member header from the start of `buf`, recovering the
/// BSIZE field or the first structural violation.
pub fn parse_bgzf_header(buf: &[u8]) -> (r: Result<BgzfHeader, FormatError>)
    ensures
        r == spec_parse_bgzf_header(buf@),
{
    if buf.len() < 16 {
        return Err(FormatError::InputTooSmall);
    }
    if *slice_index_get(buf, 0) != 31 || *slice_index_get(buf, 1) != 139 {
        return Err(FormatError::BadMagic);
    }
    if *slice_index_get(buf, 2) != 8 {
        return Err(FormatError::BadMethod);
    }
    if *slice_index_get(buf, 3) != 4 {
        return Err(FormatError::BadFlags);
    }
    let xlen: u16 = (*slice_index_get(buf, 10) as u16) + (*slice_index_get(buf, 11) as u16) * 256;
    if xlen as usize > buf.len() - 12 {
        return Err(FormatError::ExtraFieldOverflow);
    }
    let end: usize = 12 + xlen as usize;
    let mut off: usize = 12;
    while off < end
        invariant
            12 <= off <= end,
            end <= buf@.len(),
            end == 12 + le16(buf@[10], buf@[11]),
            spec_parse_bgzf_header(buf@) == spec_find_bc_subfield(buf@, off as int, end as int),
        decreases end - off,
    {
        if end - off < 4 {
            return Err(FormatError::TruncatedSubfield);
        }
        let si1: u8 = *slice_index_get(buf, off);
        let si2: u8 = *slice_index_get(buf, off + 1);
        let slen: u16 = (*slice_index_get(buf, off + 2) as u16) + (*slice_index_get(
            buf,
            off + 3,
        ) as u16) * 256;
        if slen as usize > end - (off + 4) {
            return Err(FormatError::SubfieldOverflow);
        }
        if si1 == 66 && si2 == 67 && slen == 2 {
            let bsize: u16 = (*slice_index_get(buf, off + 4) as u16) + (*slice_index_get(
                buf,
                off + 5,
            ) as u16) * 256;
            return Ok(BgzfHeader { bsize });
        }
        off = off + 4 + slen as usize;
    }
    Err(FormatError::MarkerNotFound)
}

/// Parsing is a pure function of the header bytes: two parses of the same
/// bytes recover the same result, in particular the same BSIZE.
pub proof fn lemma_parse_idempotent(
    s: Seq<u8>,
    r1: Result<BgzfHeader, FormatError>,
    r2: Result<BgzfHeader, FormatError>,
)
    requires
        r1 == spec_parse_bgzf_header(s),
        r2 == spec_parse_bgzf_header(s),
    ensures
        r1 == r2,
{
}

} // verus!
