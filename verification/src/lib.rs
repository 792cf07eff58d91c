//! Verified BGZF decompression library.
//!
//! BGZF (blocked gzip format) stores data as a sequence of independently
//! compressed gzip members, each carrying its own on-disk size in a private
//! extra-field subfield. This crate parses that container, tiles an input
//! buffer into its ordered block list, decodes each block through a gzip
//! primitive, and reassembles the payloads in block order.

mod claim;
mod decode;
mod errors;
mod header;
mod index;
mod marker;
mod merge;
mod pipeline;

pub use claim::claim_next;
pub use decode::block_span;
pub use decode::decode_block;
pub use decode::gunzip_of;
pub use errors::spec_error_message;
pub use errors::spec_format_error_message;
pub use errors::BgzfError;
pub use errors::FormatError;
pub use header::le16;
pub use header::lemma_parse_idempotent;
pub use header::parse_bgzf_header;
pub use header::spec_find_bc_subfield;
pub use header::spec_parse_bgzf_header;
pub use header::BgzfHeader;
pub use index::index_blocks;
pub use index::lemma_index_blocks_tiles;
pub use index::lemma_tiles_strictly_increasing;
pub use index::spec_index_blocks;
pub use index::tiles;
pub use index::tiles_from;
pub use index::BlockPos;
pub use marker::bgzf_eof_marker;
pub use marker::bgzf_eof_marker_bytes;
pub use marker::has_bgzf_eof_marker;
pub use merge::has_idx;
pub use merge::lemma_merge_deterministic;
pub use merge::lemma_merge_matches_sequential;
pub use merge::lemma_merged_matches_concat;
pub use merge::merge_outputs;
pub use merge::merged_payloads;
pub use merge::outputs_cover;
pub use merge::outputs_decode;
pub use merge::outputs_unique;
pub use merge::payload_at;
pub use merge::WorkerOutput;
pub use pipeline::decompress_buffer;
pub use pipeline::lemma_tiles_block_in_bounds;
pub use pipeline::spec_concat_payloads;
pub use pipeline::spec_decompress;
