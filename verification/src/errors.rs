use vstd::prelude::*;

verus! {

/// A structural violation of the BGZF container, detected while parsing a
/// member header or while tiling the buffer into blocks.
#[derive(Clone, Copy, Debug, PartialEq, Eq, Structural)]
pub enum FormatError {
    /// The candidate header slice is shorter than the 16 bytes a BGZF
    /// member header needs before its extra field can be read.
    InputTooSmall,
    /// The first two bytes are not the gzip magic pair `0x1F 0x8B`.
    BadMagic,
    /// The compression-method byte is not 8 (deflate).
    BadMethod,
    /// The flags byte is not exactly 4 (FEXTRA set and nothing else).
    BadFlags,
    /// The declared extra-field length `XLEN` extends past the buffer.
    ExtraFieldOverflow,
    /// Fewer than 4 bytes remain in the extra field where a subfield
    /// header (SI1, SI2, SLEN) was expected.
    TruncatedSubfield,
    /// A subfield's declared length runs past the extra-field boundary.
    SubfieldOverflow,
    /// The extra field holds no `BC` subfield with SLEN equal to 2.
    MarkerNotFound,
    /// The buffer is shorter than the 28-byte end-of-file marker, so it
    /// cannot be a BGZF file at all.
    InputTooSmallForMarker,
    /// The final 28 bytes of the buffer are not the BGZF end-of-file marker.
    MissingEofMarker,
    /// A block's declared span (BSIZE + 1 bytes from its offset) would
    /// run past the end of the buffer.
    BlockOverrun,
}

/// Any failure of a whole decompression run.
#[derive(Clone, Copy, Debug, PartialEq, Eq, Structural)]
pub enum BgzfError {
    /// The container is not well-formed BGZF.
    Format(FormatError),
    /// The gzip primitive rejected a block whose header had validated.
    Decode,
}

/// The descriptive message each structural violation is reported with.
pub open spec fn spec_format_error_message(e: FormatError) -> Seq<char> {
    match e {
        FormatError::InputTooSmall => "input too small"@,
        FormatError::BadMagic => "input does not start with gzip magic nums"@,
        FormatError::BadMethod => "CM field in gzip header is invalid for a BGZF file"@,
        FormatError::BadFlags => "FLGs field in gzip header invalid for a BGZF (BAM) file"@,
        FormatError::ExtraFieldOverflow => "not enough room left in data to accommodate FEXTRA fields"@,
        FormatError::TruncatedSubfield => "ran out of data when reading FEXTRA field"@,
        FormatError::SubfieldOverflow => "ran out of data when reading FEXTRA field: out of bounds slen field"@,
        FormatError::MarkerNotFound => "BC BGZF header not found in gzip Xtra flags"@,
        FormatError::InputTooSmallForMarker => "input data is too small for a BGZF file: it is at least 28 bytes long (an EOF marker)"@,
        FormatError::MissingEofMarker => "input missing bgzf EOF marker"@,
        FormatError::BlockOverrun => "block would exceed buffer bounds"@,
    }
}

/// The descriptive message each run failure is reported with.
pub open spec fn spec_error_message(e: BgzfError) -> Seq<char> {
    match e {
        BgzfError::Format(f) => spec_format_error_message(f),
        BgzfError::Decode => "gzip primitive rejected a block"@,
    }
}

impl FormatError {
    /// The descriptive message for this structural violation.
    pub fn message(&self) -> (m: &'static str)
        ensures
            m@ == spec_format_error_message(*self),
    {
        match self {
            FormatError::InputTooSmall => "input too small",
            FormatError::BadMagic => "input does not start with gzip magic nums",
            FormatError::BadMethod => "CM field in gzip header is invalid for a BGZF file",
            FormatError::BadFlags => "FLGs field in gzip header invalid for a BGZF (BAM) file",
            FormatError::ExtraFieldOverflow => "not enough room left in data to accommodate FEXTRA fields",
            FormatError::TruncatedSubfield => "ran out of data when reading FEXTRA field",
            FormatError::SubfieldOverflow => "ran out of data when reading FEXTRA field: out of bounds slen field",
            FormatError::MarkerNotFound => "BC BGZF header not found in gzip Xtra flags",
            FormatError::InputTooSmallForMarker => "input data is too small for a BGZF file: it is at least 28 bytes long (an EOF marker)",
            FormatError::MissingEofMarker => "input missing bgzf EOF marker",
            FormatError::BlockOverrun => "block would exceed buffer bounds",
        }
    }
}

impl BgzfError {
    /// The descriptive message for this run failure.
    pub fn message(&self) -> (m: &'static str)
        ensures
            m@ == spec_error_message(*self),
    {
        match self {
            BgzfError::Format(f) => f.message(),
            BgzfError::Decode => "gzip primitive rejected a block",
        }
    }
}

} // verus!
