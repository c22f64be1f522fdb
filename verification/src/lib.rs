//! Verified parsers and writers for media container and codec headers: bit and byte readers,
//! Exp-Golomb codes, H.264 sequence parameter sets and decoder configuration records,
//! FLV tags and AMF0 values.
use vstd::prelude::*;

pub mod bits;
pub mod bytes_be;
pub mod cursor;
pub mod error;
pub mod expgolomb;
pub mod flv;
pub mod fmt;
pub mod h264;
pub mod amf0;
pub mod ffmpeg;

verus! {

} // verus!
