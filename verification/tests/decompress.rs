//! Whole-run tests: tiling, end-of-file-marker validation, decoding, and
//! the order-preserving merge.

use std::io::Write;

use bam2sam::claim_next;
use bam2sam::decode_block;
use bam2sam::decompress_buffer;
use bam2sam::has_bgzf_eof_marker;
use bam2sam::index_blocks;
use bam2sam::merge_outputs;
use bam2sam::parse_bgzf_header;
use bam2sam::BgzfError;
use bam2sam::BlockPos;
use bam2sam::FormatError;
use bam2sam::WorkerOutput;

/// Build one well-formed BGZF member holding `payload`.
fn make_block(payload: &[u8]) -> Vec<u8> {
    let mut enc = flate2::write::DeflateEncoder::new(Vec::new(), flate2::Compression::default());
    enc.write_all(payload).unwrap();
    let deflated = enc.finish().unwrap();
    let mut crc = flate2::Crc::new();
    crc.update(payload);
    let total = 12 + 6 + deflated.len() + 8;
    let bsize = (total - 1) as u16;
    let mut block = vec![0x1f, 0x8b, 0x08, 0x04, 0, 0, 0, 0, 0, 0xff];
    block.extend_from_slice(&[0x06, 0x00]);
    block.extend_from_slice(&[b'B', b'C', 0x02, 0x00]);
    block.push((bsize & 0xff) as u8);
    block.push((bsize >> 8) as u8);
    block.extend_from_slice(&deflated);
    block.extend_from_slice(&crc.sum().to_le_bytes());
    block.extend_from_slice(&(payload.len() as u32).to_le_bytes());
    block
}

fn eof_marker() -> Vec<u8> {
    bam2sam::bgzf_eof_marker_bytes()
}

#[test]
fn marker_only_input_decompresses_to_empty() {
    let buf = eof_marker();
    assert_eq!(buf.len(), 28);
    let blks = index_blocks(&buf).unwrap();
    assert_eq!(blks.len(), 1);
    assert_eq!(blks[0], BlockPos { offset: 0, size: 28 });
    let out = decompress_buffer(&buf).unwrap();
    assert!(out.is_empty());
}

#[test]
fn single_block_input_yields_its_payload() {
    let payload = b"hello, bgzf world";
    let mut buf = make_block(payload);
    buf.extend_from_slice(&eof_marker());
    let out = decompress_buffer(&buf).unwrap();
    assert_eq!(out, payload);
}

#[test]
fn two_blocks_concatenate_in_file_order() {
    let mut buf = make_block(b"AB");
    buf.extend_from_slice(&make_block(b"CD"));
    buf.extend_from_slice(&eof_marker());
    let out = decompress_buffer(&buf).unwrap();
    assert_eq!(out, b"ABCD");
}

#[test]
fn merge_enforces_order_despite_out_of_order_completion() {
    // Block B finished before block A: the merge must still emit
    // "AB" then "CD" then the marker's empty payload.
    let block_a = make_block(b"AB");
    let block_b = make_block(b"CD");
    let mut buf = block_a.clone();
    buf.extend_from_slice(&block_b);
    buf.extend_from_slice(&eof_marker());

    let pos_a = BlockPos { offset: 0, size: block_a.len() as u32 };
    let pos_b = BlockPos { offset: block_a.len(), size: block_b.len() as u32 };
    let pos_m = BlockPos { offset: block_a.len() + block_b.len(), size: 28 };
    let outs = vec![
        WorkerOutput { idx: 1, data: decode_block(&buf, &pos_b).unwrap() },
        WorkerOutput { idx: 2, data: decode_block(&buf, &pos_m).unwrap() },
        WorkerOutput { idx: 0, data: decode_block(&buf, &pos_a).unwrap() },
    ];
    let merged = merge_outputs(&outs, 3).unwrap();
    assert_eq!(merged, b"ABCD");

    // The single-worker run gives the identical byte stream.
    assert_eq!(decompress_buffer(&buf).unwrap(), merged);
}

#[test]
fn merge_with_a_missing_index_reports_incomplete() {
    let outs = vec![
        WorkerOutput { idx: 0, data: vec![1, 2] },
        WorkerOutput { idx: 2, data: vec![3] },
    ];
    assert_eq!(merge_outputs(&outs, 3), None);
    assert_eq!(merge_outputs(&outs, 1), Some(vec![1, 2]));
}

#[test]
fn block_list_tiles_the_buffer() {
    let b0 = make_block(b"first block");
    let b1 = make_block(b"");
    let b2 = make_block(b"third");
    let mut buf = b0.clone();
    buf.extend_from_slice(&b1);
    buf.extend_from_slice(&b2);
    buf.extend_from_slice(&eof_marker());

    let blks = index_blocks(&buf).unwrap();
    assert_eq!(blks.len(), 4);
    assert_eq!(blks[0].offset, 0);
    for w in blks.windows(2) {
        assert!(w[0].offset < w[1].offset);
        assert_eq!(w[0].offset + w[0].size as usize, w[1].offset);
    }
    let last = blks.last().unwrap();
    assert_eq!(last.offset + last.size as usize, buf.len());
}

#[test]
fn input_shorter_than_marker_is_rejected() {
    let buf = vec![0x1f, 0x8b, 0x08, 0x04];
    assert_eq!(
        decompress_buffer(&buf),
        Err(BgzfError::Format(FormatError::InputTooSmallForMarker))
    );
}

#[test]
fn missing_eof_marker_is_rejected() {
    // A single well-formed block with no marker after it.
    let mut buf = make_block(b"payload without a marker");
    while buf.len() < 28 {
        buf.extend_from_slice(&make_block(b"pad"));
    }
    assert_eq!(
        decompress_buffer(&buf),
        Err(BgzfError::Format(FormatError::MissingEofMarker))
    );

    // A marker with its last byte altered.
    let mut buf = eof_marker();
    let n = buf.len();
    buf[n - 1] = 1;
    assert!(!has_bgzf_eof_marker(&buf));
    assert_eq!(
        decompress_buffer(&buf),
        Err(BgzfError::Format(FormatError::MissingEofMarker))
    );
}

#[test]
fn block_span_past_buffer_is_rejected() {
    // A header declaring a 60001-byte block inside a 46-byte buffer whose
    // final 28 bytes are a valid marker.
    let mut buf = vec![0x1f, 0x8b, 0x08, 0x04, 0, 0, 0, 0, 0, 0xff];
    buf.extend_from_slice(&[0x06, 0x00]);
    buf.extend_from_slice(&[b'B', b'C', 0x02, 0x00]);
    buf.extend_from_slice(&60000u16.to_le_bytes());
    buf.extend_from_slice(&eof_marker());
    assert_eq!(
        decompress_buffer(&buf),
        Err(BgzfError::Format(FormatError::BlockOverrun))
    );
    assert_eq!(index_blocks(&buf), Err(FormatError::BlockOverrun));
}

#[test]
fn header_errors_surface_through_the_whole_run() {
    // 46 bytes whose tail is a valid marker but whose first block has a
    // corrupt magic pair.
    let mut buf = vec![0xde, 0xad, 0x08, 0x04, 0, 0, 0, 0, 0, 0xff];
    buf.extend_from_slice(&[0x06, 0x00]);
    buf.extend_from_slice(&[b'B', b'C', 0x02, 0x00, 0x11, 0x00]);
    buf.extend_from_slice(&eof_marker());
    assert_eq!(
        decompress_buffer(&buf),
        Err(BgzfError::Format(FormatError::BadMagic))
    );
}

#[test]
fn corrupt_deflate_stream_is_a_decode_error() {
    // A structurally valid block whose compressed body is garbage.
    let garbage = [0x55u8; 16];
    let total = 12 + 6 + garbage.len();
    let bsize = (total - 1) as u16;
    let mut block = vec![0x1f, 0x8b, 0x08, 0x04, 0, 0, 0, 0, 0, 0xff];
    block.extend_from_slice(&[0x06, 0x00]);
    block.extend_from_slice(&[b'B', b'C', 0x02, 0x00]);
    block.extend_from_slice(&bsize.to_le_bytes());
    block.extend_from_slice(&garbage);
    let mut buf = block;
    buf.extend_from_slice(&eof_marker());
    assert_eq!(decompress_buffer(&buf), Err(BgzfError::Decode));
}

#[test]
fn decode_block_recovers_the_payload() {
    let payload = b"some uncompressed bytes";
    let block = make_block(payload);
    let pos = BlockPos { offset: 0, size: block.len() as u32 };
    let out = decode_block(&block, &pos).unwrap();
    assert_eq!(out, payload);
    // The decoder really decompressed: the payload is not the raw span.
    assert_ne!(out, block);
}

#[test]
fn claim_cursor_hands_out_each_index_once() {
    let mut cursor: usize = 0;
    let mut seen = Vec::new();
    loop {
        match claim_next(&mut cursor, 3) {
            Some(v) => seen.push(v),
            None => break,
        }
    }
    assert_eq!(seen, vec![0, 1, 2]);
    assert_eq!(claim_next(&mut cursor, 3), None);
}

#[test]
fn eof_marker_detection_checks_the_tail() {
    let mut buf = make_block(b"body");
    buf.extend_from_slice(&eof_marker());
    assert!(has_bgzf_eof_marker(&buf));
    buf.push(0);
    assert!(!has_bgzf_eof_marker(&buf));
}

#[test]
fn largest_bsize_value_is_handled() {
    // BSIZE = 0xFFFF declares a 65536-byte block; in a small buffer that
    // is an overrun, not an arithmetic wrap.
    let mut buf = vec![0x1f, 0x8b, 0x08, 0x04, 0, 0, 0, 0, 0, 0xff];
    buf.extend_from_slice(&[0x06, 0x00]);
    buf.extend_from_slice(&[b'B', b'C', 0x02, 0x00, 0xff, 0xff]);
    assert_eq!(parse_bgzf_header(&buf).unwrap().bsize, 0xffff);
    buf.extend_from_slice(&eof_marker());
    assert_eq!(index_blocks(&buf), Err(FormatError::BlockOverrun));
}
