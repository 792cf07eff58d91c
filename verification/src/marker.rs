//! The fixed BGZF end-of-file marker: an empty gzip member, 28 bytes long,
//! that every well-formed BGZF file carries as its final block.

use vstd::prelude::*;
use vstd::slice::slice_index_get;

verus! {

/// The 28 bytes of the BGZF end-of-file marker: a complete, empty BGZF
/// member (its BSIZE field is 27, so its declared span is exactly itself).
pub open spec fn bgzf_eof_marker() -> Seq<u8> {
    seq![
        0x1fu8,
        0x8bu8,
        0x08u8,
        0x04u8,
        0x00u8,
        0x00u8,
        0x00u8,
        0x00u8,
        0x00u8,
        0xffu8,
        0x06u8,
        0x00u8,
        0x42u8,
        0x43u8,
        0x02u8,
        0x00u8,
        0x1bu8,
        0x00u8,
        0x03u8,
        0x00u8,
        0x00u8,
        0x00u8,
        0x00u8,
        0x00u8,
        0x00u8,
        0x00u8,
        0x00u8,
        0x00u8,
    ]
}

/// The end-of-file marker as runtime bytes.
pub fn bgzf_eof_marker_bytes() -> (v: Vec<u8>)
    ensures
        v@ == bgzf_eof_marker(),
{
    let mut v: Vec<u8> = Vec::new();
    v.push(0x1f);
    v.push(0x8b);
    v.push(0x08);
    v.push(0x04);
    v.push(0x00);
    v.push(0x00);
    v.push(0x00);
    v.push(0x00);
    v.push(0x00);
    v.push(0xff);
    v.push(0x06);
    v.push(0x00);
    v.push(0x42);
    v.push(0x43);
    v.push(0x02);
    v.push(0x00);
    v.push(0x1b);
    v.push(0x00);
    v.push(0x03);
    v.push(0x00);
    v.push(0x00);
    v.push(0x00);
    v.push(0x00);
    v.push(0x00);
    v.push(0x00);
    v.push(0x00);
    v.push(0x00);
    v.push(0x00);
    proof {
        assert(v@ =~= bgzf_eof_marker());
    }
    v
}

/// Whether the final 28 bytes of `buf` are exactly the BGZF end-of-file
/// marker.
pub fn has_bgzf_eof_marker(buf: &[u8]) -> (r: bool)
    requires
        buf@.len() >= 28,
    ensures
        r <==> buf@.subrange(buf@.len() - 28, buf@.len() as int) == bgzf_eof_marker(),
{
    let m = bgzf_eof_marker_bytes();
    let start: usize = buf.len() - 28;
    let mut i: usize = 0;
    while i < 28
        invariant
            0 <= i <= 28,
            start + 28 == buf@.len(),
            buf@.len() <= usize::MAX,
            m@ == bgzf_eof_marker(),
            forall|k: int| 0 <= k < i ==> buf@[start + k] == bgzf_eof_marker()[k],
        decreases 28 - i,
    {
        if *slice_index_get(buf, start + i) != m[i] {
            proof {
                let tail = buf@.subrange(buf@.len() - 28, buf@.len() as int);
                assert(tail[i as int] == buf@[start + i]);
            }
            return false;
        }
        i = i + 1;
    }
    proof {
        let tail = buf@.subrange(buf@.len() - 28, buf@.len() as int);
        assert(tail =~= bgzf_eof_marker()) by {
            assert(forall|k: int| 0 <= k < 28 ==> tail[k] == buf@[start + k]);
        }
    }
    true
}

} // verus!
