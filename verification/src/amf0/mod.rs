//! AMF0 (Action Message Format 0) values: their markers, a decoder and an encoder.
pub mod marker;
pub mod error;
pub mod value;
pub mod encoder;
pub mod decoder;
pub mod de;
pub mod roundtrip;
pub mod keys;
pub mod wire;
