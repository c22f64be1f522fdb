//! The errors of AMF0 encoding and decoding.
use vstd::prelude::*;

use crate::amf0::marker::{Amf0Marker, Amf0MarkerSet};
use crate::error::IoError;

verus! {

/// What went wrong while encoding or decoding AMF0.
#[derive(Debug, Clone, Copy, PartialEq, Eq, Structural)]
pub enum Amf0Error {
    /// Reading failed: the input ended early.
    Io(IoError),
    /// A string, key or array is longer than its length field can hold.
    TooLong,
    /// A sequence of unknown length cannot be encoded.
    UnknownLength,
    /// A map key is not a string.
    MapKeyNotString,
    /// A byte that is no marker.
    UnknownMarker(u8),
    /// A marker that cannot be decoded.
    UnsupportedMarker(Amf0Marker),
    /// A string that is not UTF-8.
    StringParseError,
    /// A marker other than those expected.
    UnexpectedType {
        /// The markers that were expected.
        expected: Amf0MarkerSet,
        /// The marker that was read.
        got: Amf0Marker,
    },
    /// An array of another length than expected.
    WrongArrayLength {
        /// The expected length.
        expected: usize,
        /// The length that was read.
        got: usize,
    },
    /// A char cannot be decoded.
    CharNotSupported,
}

} // verus!
