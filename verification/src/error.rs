//! The error of the byte- and bit-level readers and of the H.264 parsers.
use vstd::prelude::*;

verus! {

/// What went wrong while reading a stream.
#[derive(Debug, Clone, Copy, PartialEq, Eq, Structural)]
pub enum IoError {
    /// The input ended before the value was complete.
    UnexpectedEof,
    /// An Exp-Golomb code has more than 63 leading zero bits, so its value does not fit in 64 bits.
    ExpGolombOverflow,
    /// An SPS shorter than four bytes.
    SpsTooShort,
    /// The forbidden zero bit of a NAL unit header is set.
    ForbiddenZeroBit,
    /// The NAL unit is not a sequence parameter set.
    NotSps,
    /// `chroma_loc_info_present_flag` is set while `chroma_format_idc` is not 1.
    ChromaLocInfoNotAllowed,
    /// `num_units_in_tick` is zero.
    ZeroNumUnitsInTick,
    /// `time_scale` is zero.
    ZeroTimeScale,
}

/// The two kinds of [`IoError`]: the input ran out, or it holds a value that is not allowed.
#[derive(Debug, Clone, Copy, PartialEq, Eq, Structural)]
pub enum IoErrorKind {
    /// The input ended early.
    UnexpectedEof,
    /// The input is malformed.
    InvalidData,
}

impl IoError {
    /// The kind of the error.
    pub fn kind(&self) -> (r: IoErrorKind)
        ensures
            (r == IoErrorKind::UnexpectedEof) == (*self == IoError::UnexpectedEof),
    {
        match self {
            IoError::UnexpectedEof => IoErrorKind::UnexpectedEof,
            _ => IoErrorKind::InvalidData,
        }
    }

    /// The human-readable message of the error.
    pub fn message(&self) -> (r: &'static str)
        ensures
            r@ == match self {
                IoError::UnexpectedEof => "failed to fill whole buffer"@,
                IoError::ExpGolombOverflow => "exp-golomb code is too long"@,
                IoError::SpsTooShort => "Insufficient data: SPS must be at least 4 bytes long"@,
                IoError::ForbiddenZeroBit => "Forbidden zero bit is set"@,
                IoError::NotSps => "NAL unit type is not SPS"@,
                IoError::ChromaLocInfoNotAllowed =>
                    "chroma_loc_info_present_flag cannot be set to 1 when chroma_format_idc is not 1"@,
                IoError::ZeroNumUnitsInTick => "num_units_in_tick cannot be 0"@,
                IoError::ZeroTimeScale => "time_scale cannot be 0"@,
            },
    {
        match self {
            IoError::UnexpectedEof => "failed to fill whole buffer",
            IoError::ExpGolombOverflow => "exp-golomb code is too long",
            IoError::SpsTooShort => "Insufficient data: SPS must be at least 4 bytes long",
            IoError::ForbiddenZeroBit => "Forbidden zero bit is set",
            IoError::NotSps => "NAL unit type is not SPS",
            IoError::ChromaLocInfoNotAllowed =>
                "chroma_loc_info_present_flag cannot be set to 1 when chroma_format_idc is not 1",
            IoError::ZeroNumUnitsInTick => "num_units_in_tick cannot be 0",
            IoError::ZeroTimeScale => "time_scale cannot be 0",
        }
    }
}

} // verus!
