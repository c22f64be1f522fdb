//! The error of FLV demuxing.
use vstd::prelude::*;

use crate::amf0::error::Amf0Error;
use crate::error::IoError;

verus! {

/// What went wrong while demuxing FLV data.
#[derive(Debug, Clone, Copy, PartialEq, Eq, Structural)]
pub enum FlvError {
    /// Reading failed.
    Io(IoError),
    /// The first three bytes of the header are not `FLV`; holds them as a 24-bit number.
    InvalidSignature(u32),
    /// The data offset of the header is smaller than the header.
    InvalidDataOffset(u32),
    /// A multitrack packet inside a multitrack packet.
    NestedMultitracks,
    /// A modifier extension with too few data bytes for its type.
    InvalidModExData {
        /// The number of bytes that the type needs.
        expected_bytes: usize,
    },
    /// Reading AMF0 data failed.
    Amf0Read(Amf0Error),
}

} // verus!
