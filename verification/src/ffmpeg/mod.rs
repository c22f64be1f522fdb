//! FFmpeg's log levels.
pub mod log;
