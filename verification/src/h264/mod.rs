//! H.264 headers: sequence parameter sets, decoder configuration records and the
//! emulation prevention of NAL unit payloads.
pub mod enums;
pub mod sps_parts;
pub mod emulation;
pub mod sps_ext;
pub mod sps;
pub mod config;
pub mod sps_roundtrip;
pub mod dimensions;
