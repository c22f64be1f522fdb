//! The log levels of FFmpeg (`AV_LOG_*` in `libavutil/log.h`), their numbers and names.
use vstd::prelude::*;

verus! {

/// A log level of FFmpeg.
#[derive(Debug, Copy, Clone, PartialEq, Eq, Hash, Structural)]
pub enum LogLevel {
    /// `AV_LOG_QUIET` (-8): print nothing.
    Quiet,
    /// `AV_LOG_PANIC` (0): something went wrong and the process will crash.
    Panic,
    /// `AV_LOG_FATAL` (8): something went wrong and recovery is not possible.
    Fatal,
    /// `AV_LOG_ERROR` (16): something went wrong and cannot be recovered from losslessly.
    Error,
    /// `AV_LOG_WARNING` (24): something might be wrong.
    Warning,
    /// `AV_LOG_INFO` (32): standard information.
    Info,
    /// `AV_LOG_VERBOSE` (40): detailed information.
    Verbose,
    /// `AV_LOG_DEBUG` (48): information for libav* developers.
    Debug,
    /// `AV_LOG_TRACE` (56): extremely verbose debugging.
    Trace,
}

impl LogLevel {
    /// The level that FFmpeg's number stands for; numbers without a level give `Info`.
    pub open spec fn spec_from_i32(value: i32) -> LogLevel {
        match value {
            -8 => LogLevel::Quiet,
            0 => LogLevel::Panic,
            8 => LogLevel::Fatal,
            16 => LogLevel::Error,
            24 => LogLevel::Warning,
            32 => LogLevel::Info,
            40 => LogLevel::Verbose,
            48 => LogLevel::Debug,
            56 => LogLevel::Trace,
            _ => LogLevel::Info,
        }
    }

    /// FFmpeg's number of the level.
    pub open spec fn spec_value(self) -> i32 {
        match self {
            LogLevel::Quiet => -8i32,
            LogLevel::Panic => 0,
            LogLevel::Fatal => 8,
            LogLevel::Error => 16,
            LogLevel::Warning => 24,
            LogLevel::Info => 32,
            LogLevel::Verbose => 40,
            LogLevel::Debug => 48,
            LogLevel::Trace => 56,
        }
    }

    /// The lower-case name of the level.
    pub open spec fn spec_name(self) -> Seq<char> {
        match self {
            LogLevel::Quiet => "quiet"@,
            LogLevel::Panic => "panic"@,
            LogLevel::Fatal => "fatal"@,
            LogLevel::Error => "error"@,
            LogLevel::Warning => "warning"@,
            LogLevel::Info => "info"@,
            LogLevel::Verbose => "verbose"@,
            LogLevel::Debug => "debug"@,
            LogLevel::Trace => "trace"@,
        }
    }

    /// The level that FFmpeg's number stands for; numbers without a level give `Info`.
    pub fn from_i32(value: i32) -> (r: Self)
        ensures
            r == Self::spec_from_i32(value),
    {
        match value {
            -8 => LogLevel::Quiet,
            0 => LogLevel::Panic,
            8 => LogLevel::Fatal,
            16 => LogLevel::Error,
            24 => LogLevel::Warning,
            32 => LogLevel::Info,
            40 => LogLevel::Verbose,
            48 => LogLevel::Debug,
            56 => LogLevel::Trace,
            _ => LogLevel::Info,
        }
    }

    /// FFmpeg's number of the level.
    pub fn value(self) -> (r: i32)
        ensures
            r == self.spec_value(),
    {
        match self {
            LogLevel::Quiet => -8,
            LogLevel::Panic => 0,
            LogLevel::Fatal => 8,
            LogLevel::Error => 16,
            LogLevel::Warning => 24,
            LogLevel::Info => 32,
            LogLevel::Verbose => 40,
            LogLevel::Debug => 48,
            LogLevel::Trace => 56,
        }
    }

    /// The lower-case name of the level.
    pub fn as_str(self) -> (r: &'static str)
        ensures
            r@ == self.spec_name(),
    {
        match self {
            LogLevel::Quiet => "quiet",
            LogLevel::Panic => "panic",
            LogLevel::Fatal => "fatal",
            LogLevel::Error => "error",
            LogLevel::Warning => "warning",
            LogLevel::Info => "info",
            LogLevel::Verbose => "verbose",
            LogLevel::Debug => "debug",
            LogLevel::Trace => "trace",
        }
    }
}

/// Reading back the number of a level gives the level.
pub proof fn lemma_log_level_roundtrip(level: LogLevel)
    ensures
        LogLevel::spec_from_i32(level.spec_value()) == level,
{
}

} // verus!
