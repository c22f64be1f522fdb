//! Code points of the FLV video tags (legacy FLV spec, Annex E.4.3.1; Enhanced RTMP, Enhanced Video).
use vstd::prelude::*;

use crate::fmt::{byte_list, decimal, push_byte_list, push_decimal};

verus! {

/// The frame type of a video tag.
#[derive(Debug, Clone, Copy, PartialEq, Eq, Structural)]
pub enum VideoFrameType {
    /// A key frame.
    KeyFrame,
    /// An inter frame.
    InterFrame,
    /// A disposable inter frame (H.263 only).
    DisposableInterFrame,
    /// A generated key frame (server use only).
    GeneratedKeyFrame,
    /// A video info or command frame.
    Command,
    /// A value without a name.
    Unknown(u8),
}

impl VideoFrameType {
    /// The value that stands for `v`: its name, where it has one.
    pub open spec fn spec_from(v: u8) -> VideoFrameType {
        match v {
            1 => VideoFrameType::KeyFrame,
            2 => VideoFrameType::InterFrame,
            3 => VideoFrameType::DisposableInterFrame,
            4 => VideoFrameType::GeneratedKeyFrame,
            5 => VideoFrameType::Command,
            _ => VideoFrameType::Unknown(v),
        }
    }

    /// The number that the value stands for.
    pub open spec fn spec_value(self) -> u8 {
        match self {
            VideoFrameType::KeyFrame => 1,
            VideoFrameType::InterFrame => 2,
            VideoFrameType::DisposableInterFrame => 3,
            VideoFrameType::GeneratedKeyFrame => 4,
            VideoFrameType::Command => 5,
            VideoFrameType::Unknown(v) => v,
        }
    }

    /// Converts a number to its value.
    pub fn from(v: u8) -> (r: VideoFrameType)
        ensures
            r == VideoFrameType::spec_from(v),
    {
        match v {
            1 => VideoFrameType::KeyFrame,
            2 => VideoFrameType::InterFrame,
            3 => VideoFrameType::DisposableInterFrame,
            4 => VideoFrameType::GeneratedKeyFrame,
            5 => VideoFrameType::Command,
            _ => VideoFrameType::Unknown(v),
        }
    }

    /// The number that the value stands for.
    pub fn value(&self) -> (r: u8)
        ensures
            r == self.spec_value(),
    {
        match self {
            VideoFrameType::KeyFrame => 1,
            VideoFrameType::InterFrame => 2,
            VideoFrameType::DisposableInterFrame => 3,
            VideoFrameType::GeneratedKeyFrame => 4,
            VideoFrameType::Command => 5,
            VideoFrameType::Unknown(v) => *v,
        }
    }

    /// The text that names the value: `Type::Name`, or `Type(number)` for a value without a name.
    pub open spec fn spec_debug_name(self) -> Seq<char> {
        match self {
            VideoFrameType::KeyFrame => "FrameType::KeyFrame"@,
            VideoFrameType::InterFrame => "VideoFrameType::InterFrame"@,
            VideoFrameType::DisposableInterFrame => "VideoFrameType::DisposableInterFrame"@,
            VideoFrameType::GeneratedKeyFrame => "VideoFrameType::GeneratedKeyFrame"@,
            VideoFrameType::Command => "VideoFrameType::Command"@,
            VideoFrameType::Unknown(v) => "VideoFrameType("@ + decimal(v as nat) + ")"@,
        }
    }

    /// The text that names the value: `Type::Name`, or `Type(number)` for a value without a name.
    pub fn debug_name(&self) -> (r: String)
        ensures
            r@ == self.spec_debug_name(),
    {
        match self {
            VideoFrameType::KeyFrame => String::from_str("FrameType::KeyFrame"),
            VideoFrameType::InterFrame => String::from_str("VideoFrameType::InterFrame"),
            VideoFrameType::DisposableInterFrame => String::from_str("VideoFrameType::DisposableInterFrame"),
            VideoFrameType::GeneratedKeyFrame => String::from_str("VideoFrameType::GeneratedKeyFrame"),
            VideoFrameType::Command => String::from_str("VideoFrameType::Command"),
            VideoFrameType::Unknown(v) => {
                let mut s = String::from_str("VideoFrameType(");
                push_decimal(&mut s, *v as u64);
                s.append(")");
                s
            },
        }
    }
}

/// A video command, numbered as the legacy FLV spec (Annex E.4.3.1) and the Enhanced RTMP
/// spec number it: 0 starts client-side seeking and 1 ends it. Numbering start and end 1 and 2
/// instead disagrees with both.
#[derive(Debug, Clone, Copy, PartialEq, Eq, Structural)]
pub enum VideoCommand {
    /// Start of client-side seeking.
    StartSeek,
    /// End of client-side seeking.
    EndSeek,
    /// A value without a name.
    Unknown(u8),
}

impl VideoCommand {
    /// The value that stands for `v`: its name, where it has one.
    pub open spec fn spec_from(v: u8) -> VideoCommand {
        match v {
            0 => VideoCommand::StartSeek,
            1 => VideoCommand::EndSeek,
            _ => VideoCommand::Unknown(v),
        }
    }

    /// The number that the value stands for.
    pub open spec fn spec_value(self) -> u8 {
        match self {
            VideoCommand::StartSeek => 0,
            VideoCommand::EndSeek => 1,
            VideoCommand::Unknown(v) => v,
        }
    }

    /// Converts a number to its value.
    pub fn from(v: u8) -> (r: VideoCommand)
        ensures
            r == VideoCommand::spec_from(v),
    {
        match v {
            0 => VideoCommand::StartSeek,
            1 => VideoCommand::EndSeek,
            _ => VideoCommand::Unknown(v),
        }
    }

    /// The number that the value stands for.
    pub fn value(&self) -> (r: u8)
        ensures
            r == self.spec_value(),
    {
        match self {
            VideoCommand::StartSeek => 0,
            VideoCommand::EndSeek => 1,
            VideoCommand::Unknown(v) => *v,
        }
    }

    /// The text that names the value: `Type::Name`, or `Type(number)` for a value without a name.
    pub open spec fn spec_debug_name(self) -> Seq<char> {
        match self {
            VideoCommand::StartSeek => "VideoCommand::StartSeek"@,
            VideoCommand::EndSeek => "VideoCommand::EndSeek"@,
            VideoCommand::Unknown(v) => "VideoCommand("@ + decimal(v as nat) + ")"@,
        }
    }

    /// The text that names the value: `Type::Name`, or `Type(number)` for a value without a name.
    pub fn debug_name(&self) -> (r: String)
        ensures
            r@ == self.spec_debug_name(),
    {
        match self {
            VideoCommand::StartSeek => String::from_str("VideoCommand::StartSeek"),
            VideoCommand::EndSeek => String::from_str("VideoCommand::EndSeek"),
            VideoCommand::Unknown(v) => {
                let mut s = String::from_str("VideoCommand(");
                push_decimal(&mut s, *v as u64);
                s.append(")");
                s
            },
        }
    }
}

/// The codec of legacy video data.
#[derive(Debug, Clone, Copy, PartialEq, Eq, Structural)]
pub enum VideoCodecId {
    /// Sorenson H.263.
    SorensonH263,
    /// Screen video.
    ScreenVideo,
    /// On2 VP6.
    On2VP6,
    /// On2 VP6 with alpha channel.
    On2VP6WithAlphaChannel,
    /// Screen video version 2.
    ScreenVideoVersion2,
    /// AVC (H.264).
    Avc,
    /// A value without a name.
    Unknown(u8),
}

impl VideoCodecId {
    /// The value that stands for `v`: its name, where it has one.
    pub open spec fn spec_from(v: u8) -> VideoCodecId {
        match v {
            2 => VideoCodecId::SorensonH263,
            3 => VideoCodecId::ScreenVideo,
            4 => VideoCodecId::On2VP6,
            5 => VideoCodecId::On2VP6WithAlphaChannel,
            6 => VideoCodecId::ScreenVideoVersion2,
            7 => VideoCodecId::Avc,
            _ => VideoCodecId::Unknown(v),
        }
    }

    /// The number that the value stands for.
    pub open spec fn spec_value(self) -> u8 {
        match self {
            VideoCodecId::SorensonH263 => 2,
            VideoCodecId::ScreenVideo => 3,
            VideoCodecId::On2VP6 => 4,
            VideoCodecId::On2VP6WithAlphaChannel => 5,
            VideoCodecId::ScreenVideoVersion2 => 6,
            VideoCodecId::Avc => 7,
            VideoCodecId::Unknown(v) => v,
        }
    }

    /// Converts a number to its value.
    pub fn from(v: u8) -> (r: VideoCodecId)
        ensures
            r == VideoCodecId::spec_from(v),
    {
        match v {
            2 => VideoCodecId::SorensonH263,
            3 => VideoCodecId::ScreenVideo,
            4 => VideoCodecId::On2VP6,
            5 => VideoCodecId::On2VP6WithAlphaChannel,
            6 => VideoCodecId::ScreenVideoVersion2,
            7 => VideoCodecId::Avc,
            _ => VideoCodecId::Unknown(v),
        }
    }

    /// The number that the value stands for.
    pub fn value(&self) -> (r: u8)
        ensures
            r == self.spec_value(),
    {
        match self {
            VideoCodecId::SorensonH263 => 2,
            VideoCodecId::ScreenVideo => 3,
            VideoCodecId::On2VP6 => 4,
            VideoCodecId::On2VP6WithAlphaChannel => 5,
            VideoCodecId::ScreenVideoVersion2 => 6,
            VideoCodecId::Avc => 7,
            VideoCodecId::Unknown(v) => *v,
        }
    }

    /// The text that names the value: `Type::Name`, or `Type(number)` for a value without a name.
    pub open spec fn spec_debug_name(self) -> Seq<char> {
        match self {
            VideoCodecId::SorensonH263 => "VideoCodecId::SorensonH263"@,
            VideoCodecId::ScreenVideo => "VideoCodecId::ScreenVideo"@,
            VideoCodecId::On2VP6 => "VideoCodecId::On2VP6"@,
            VideoCodecId::On2VP6WithAlphaChannel => "VideoCodecId::On2VP6WithAlphaChannel"@,
            VideoCodecId::ScreenVideoVersion2 => "VideoCodecId::ScreenVideoVersion2"@,
            VideoCodecId::Avc => "VideoCodecId::Avc"@,
            VideoCodecId::Unknown(v) => "VideoCodecId("@ + decimal(v as nat) + ")"@,
        }
    }

    /// The text that names the value: `Type::Name`, or `Type(number)` for a value without a name.
    pub fn debug_name(&self) -> (r: String)
        ensures
            r@ == self.spec_debug_name(),
    {
        match self {
            VideoCodecId::SorensonH263 => String::from_str("VideoCodecId::SorensonH263"),
            VideoCodecId::ScreenVideo => String::from_str("VideoCodecId::ScreenVideo"),
            VideoCodecId::On2VP6 => String::from_str("VideoCodecId::On2VP6"),
            VideoCodecId::On2VP6WithAlphaChannel => String::from_str("VideoCodecId::On2VP6WithAlphaChannel"),
            VideoCodecId::ScreenVideoVersion2 => String::from_str("VideoCodecId::ScreenVideoVersion2"),
            VideoCodecId::Avc => String::from_str("VideoCodecId::Avc"),
            VideoCodecId::Unknown(v) => {
                let mut s = String::from_str("VideoCodecId(");
                push_decimal(&mut s, *v as u64);
                s.append(")");
                s
            },
        }
    }
}

/// The type of a legacy AVC video packet.
#[derive(Debug, Clone, Copy, PartialEq, Eq, Structural)]
pub enum AvcPacketType {
    /// An AVC sequence header.
    SeqHdr,
    /// AVC NAL units.
    Nalu,
    /// End of the AVC sequence.
    EndOfSequence,
    /// A value without a name.
    Unknown(u8),
}

impl AvcPacketType {
    /// The value that stands for `v`: its name, where it has one.
    pub open spec fn spec_from(v: u8) -> AvcPacketType {
        match v {
            0 => AvcPacketType::SeqHdr,
            1 => AvcPacketType::Nalu,
            2 => AvcPacketType::EndOfSequence,
            _ => AvcPacketType::Unknown(v),
        }
    }

    /// The number that the value stands for.
    pub open spec fn spec_value(self) -> u8 {
        match self {
            AvcPacketType::SeqHdr => 0,
            AvcPacketType::Nalu => 1,
            AvcPacketType::EndOfSequence => 2,
            AvcPacketType::Unknown(v) => v,
        }
    }

    /// Converts a number to its value.
    pub fn from(v: u8) -> (r: AvcPacketType)
        ensures
            r == AvcPacketType::spec_from(v),
    {
        match v {
            0 => AvcPacketType::SeqHdr,
            1 => AvcPacketType::Nalu,
            2 => AvcPacketType::EndOfSequence,
            _ => AvcPacketType::Unknown(v),
        }
    }

    /// The number that the value stands for.
    pub fn value(&self) -> (r: u8)
        ensures
            r == self.spec_value(),
    {
        match self {
            AvcPacketType::SeqHdr => 0,
            AvcPacketType::Nalu => 1,
            AvcPacketType::EndOfSequence => 2,
            AvcPacketType::Unknown(v) => *v,
        }
    }

    /// The text that names the value: `Type::Name`, or `Type(number)` for a value without a name.
    pub open spec fn spec_debug_name(self) -> Seq<char> {
        match self {
            AvcPacketType::SeqHdr => "AvcPacketType::SeqHdr"@,
            AvcPacketType::Nalu => "AvcPacketType::Nalu"@,
            AvcPacketType::EndOfSequence => "AvcPacketType::EndOfSequence"@,
            AvcPacketType::Unknown(v) => "AvcPacketType("@ + decimal(v as nat) + ")"@,
        }
    }

    /// The text that names the value: `Type::Name`, or `Type(number)` for a value without a name.
    pub fn debug_name(&self) -> (r: String)
        ensures
            r@ == self.spec_debug_name(),
    {
        match self {
            AvcPacketType::SeqHdr => String::from_str("AvcPacketType::SeqHdr"),
            AvcPacketType::Nalu => String::from_str("AvcPacketType::Nalu"),
            AvcPacketType::EndOfSequence => String::from_str("AvcPacketType::EndOfSequence"),
            AvcPacketType::Unknown(v) => {
                let mut s = String::from_str("AvcPacketType(");
                push_decimal(&mut s, *v as u64);
                s.append(")");
                s
            },
        }
    }
}

/// The type of an enhanced video packet.
#[derive(Debug, Clone, Copy, PartialEq, Eq, Structural)]
pub enum VideoPacketType {
    /// Sequence start.
    SequenceStart,
    /// Coded frames.
    CodedFrames,
    /// Sequence end.
    SequenceEnd,
    /// Coded frames with a composition time offset of zero.
    CodedFramesX,
    /// Metadata.
    Metadata,
    /// MPEG-2 TS sequence start.
    Mpeg2TsSequenceStart,
    /// Turns on video multitrack mode.
    Multitrack,
    /// Modifier extension.
    ModEx,
    /// A value without a name.
    Unknown(u8),
}

impl VideoPacketType {
    /// The value that stands for `v`: its name, where it has one.
    pub open spec fn spec_from(v: u8) -> VideoPacketType {
        match v {
            0 => VideoPacketType::SequenceStart,
            1 => VideoPacketType::CodedFrames,
            2 => VideoPacketType::SequenceEnd,
            3 => VideoPacketType::CodedFramesX,
            4 => VideoPacketType::Metadata,
            5 => VideoPacketType::Mpeg2TsSequenceStart,
            6 => VideoPacketType::Multitrack,
            7 => VideoPacketType::ModEx,
            _ => VideoPacketType::Unknown(v),
        }
    }

    /// The number that the value stands for.
    pub open spec fn spec_value(self) -> u8 {
        match self {
            VideoPacketType::SequenceStart => 0,
            VideoPacketType::CodedFrames => 1,
            VideoPacketType::SequenceEnd => 2,
            VideoPacketType::CodedFramesX => 3,
            VideoPacketType::Metadata => 4,
            VideoPacketType::Mpeg2TsSequenceStart => 5,
            VideoPacketType::Multitrack => 6,
            VideoPacketType::ModEx => 7,
            VideoPacketType::Unknown(v) => v,
        }
    }

    /// Converts a number to its value.
    pub fn from(v: u8) -> (r: VideoPacketType)
        ensures
            r == VideoPacketType::spec_from(v),
    {
        match v {
            0 => VideoPacketType::SequenceStart,
            1 => VideoPacketType::CodedFrames,
            2 => VideoPacketType::SequenceEnd,
            3 => VideoPacketType::CodedFramesX,
            4 => VideoPacketType::Metadata,
            5 => VideoPacketType::Mpeg2TsSequenceStart,
            6 => VideoPacketType::Multitrack,
            7 => VideoPacketType::ModEx,
            _ => VideoPacketType::Unknown(v),
        }
    }

    /// The number that the value stands for.
    pub fn value(&self) -> (r: u8)
        ensures
            r == self.spec_value(),
    {
        match self {
            VideoPacketType::SequenceStart => 0,
            VideoPacketType::CodedFrames => 1,
            VideoPacketType::SequenceEnd => 2,
            VideoPacketType::CodedFramesX => 3,
            VideoPacketType::Metadata => 4,
            VideoPacketType::Mpeg2TsSequenceStart => 5,
            VideoPacketType::Multitrack => 6,
            VideoPacketType::ModEx => 7,
            VideoPacketType::Unknown(v) => *v,
        }
    }

    /// The text that names the value: `Type::Name`, or `Type(number)` for a value without a name.
    pub open spec fn spec_debug_name(self) -> Seq<char> {
        match self {
            VideoPacketType::SequenceStart => "VideoPacketType::SequenceStart"@,
            VideoPacketType::CodedFrames => "VideoPacketType::CodedFrames"@,
            VideoPacketType::SequenceEnd => "VideoPacketType::SequenceEnd"@,
            VideoPacketType::CodedFramesX => "VideoPacketType::CodedFramesX"@,
            VideoPacketType::Metadata => "VideoPacketType::Metadata"@,
            VideoPacketType::Mpeg2TsSequenceStart => "VideoPacketType::Mpeg2TsSequenceStart"@,
            VideoPacketType::Multitrack => "VideoPacketType(6)"@,
            VideoPacketType::ModEx => "VideoPacketType(7)"@,
            VideoPacketType::Unknown(v) => "VideoPacketType("@ + decimal(v as nat) + ")"@,
        }
    }

    /// The text that names the value: `Type::Name`, or `Type(number)` for a value without a name.
    pub fn debug_name(&self) -> (r: String)
        ensures
            r@ == self.spec_debug_name(),
    {
        match self {
            VideoPacketType::SequenceStart => String::from_str("VideoPacketType::SequenceStart"),
            VideoPacketType::CodedFrames => String::from_str("VideoPacketType::CodedFrames"),
            VideoPacketType::SequenceEnd => String::from_str("VideoPacketType::SequenceEnd"),
            VideoPacketType::CodedFramesX => String::from_str("VideoPacketType::CodedFramesX"),
            VideoPacketType::Metadata => String::from_str("VideoPacketType::Metadata"),
            VideoPacketType::Mpeg2TsSequenceStart => String::from_str("VideoPacketType::Mpeg2TsSequenceStart"),
            VideoPacketType::Multitrack => String::from_str("VideoPacketType(6)"),
            VideoPacketType::ModEx => String::from_str("VideoPacketType(7)"),
            VideoPacketType::Unknown(v) => {
                let mut s = String::from_str("VideoPacketType(");
                push_decimal(&mut s, *v as u64);
                s.append(")");
                s
            },
        }
    }
}

/// The type of a video packet modifier extension.
#[derive(Debug, Clone, Copy, PartialEq, Eq, Structural)]
pub enum VideoPacketModExType {
    /// Timestamp offset in nanoseconds.
    TimestampOffsetNano,
    /// A value without a name.
    Unknown(u8),
}

impl VideoPacketModExType {
    /// The value that stands for `v`: its name, where it has one.
    pub open spec fn spec_from(v: u8) -> VideoPacketModExType {
        match v {
            0 => VideoPacketModExType::TimestampOffsetNano,
            _ => VideoPacketModExType::Unknown(v),
        }
    }

    /// The number that the value stands for.
    pub open spec fn spec_value(self) -> u8 {
        match self {
            VideoPacketModExType::TimestampOffsetNano => 0,
            VideoPacketModExType::Unknown(v) => v,
        }
    }

    /// Converts a number to its value.
    pub fn from(v: u8) -> (r: VideoPacketModExType)
        ensures
            r == VideoPacketModExType::spec_from(v),
    {
        match v {
            0 => VideoPacketModExType::TimestampOffsetNano,
            _ => VideoPacketModExType::Unknown(v),
        }
    }

    /// The number that the value stands for.
    pub fn value(&self) -> (r: u8)
        ensures
            r == self.spec_value(),
    {
        match self {
            VideoPacketModExType::TimestampOffsetNano => 0,
            VideoPacketModExType::Unknown(v) => *v,
        }
    }

    /// The text that names the value: `Type::Name`, or `Type(number)` for a value without a name.
    pub open spec fn spec_debug_name(self) -> Seq<char> {
        match self {
            VideoPacketModExType::TimestampOffsetNano => "VideoPacketModExType::TimestampOffsetNano"@,
            VideoPacketModExType::Unknown(v) => "VideoPacketModExType("@ + decimal(v as nat) + ")"@,
        }
    }

    /// The text that names the value: `Type::Name`, or `Type(number)` for a value without a name.
    pub fn debug_name(&self) -> (r: String)
        ensures
            r@ == self.spec_debug_name(),
    {
        match self {
            VideoPacketModExType::TimestampOffsetNano => String::from_str("VideoPacketModExType::TimestampOffsetNano"),
            VideoPacketModExType::Unknown(v) => {
                let mut s = String::from_str("VideoPacketModExType(");
                push_decimal(&mut s, *v as u64);
                s.append(")");
                s
            },
        }
    }
}

/// The FOURCC of an enhanced video codec.
#[derive(Debug, Clone, Copy, PartialEq, Eq)]
pub enum VideoFourCc {
    /// VP8 (`vp08`).
    Vp8,
    /// VP9 (`vp09`).
    Vp9,
    /// AV1 (`av01`).
    Av1,
    /// AVC (`avc1`).
    Avc,
    /// HEVC (`hvc1`).
    Hevc,
    /// A value without a name.
    Unknown([u8; 4]),
}

impl VideoFourCc {
    /// The value that stands for `v`: its name, where it has one.
    pub open spec fn spec_from(v: [u8; 4]) -> VideoFourCc {
        if v[0] == 0x76u8 && v[1] == 0x70u8 && v[2] == 0x30u8 && v[3] == 0x38u8 {
            VideoFourCc::Vp8
        } else if v[0] == 0x76u8 && v[1] == 0x70u8 && v[2] == 0x30u8 && v[3] == 0x39u8 {
            VideoFourCc::Vp9
        } else if v[0] == 0x61u8 && v[1] == 0x76u8 && v[2] == 0x30u8 && v[3] == 0x31u8 {
            VideoFourCc::Av1
        } else if v[0] == 0x61u8 && v[1] == 0x76u8 && v[2] == 0x63u8 && v[3] == 0x31u8 {
            VideoFourCc::Avc
        } else if v[0] == 0x68u8 && v[1] == 0x76u8 && v[2] == 0x63u8 && v[3] == 0x31u8 {
            VideoFourCc::Hevc
        } else {
            VideoFourCc::Unknown(v)
        }
    }

    /// The number that the value stands for.
    pub open spec fn spec_value(self) -> [u8; 4] {
        match self {
            VideoFourCc::Vp8 => [0x76u8, 0x70u8, 0x30u8, 0x38u8],
            VideoFourCc::Vp9 => [0x76u8, 0x70u8, 0x30u8, 0x39u8],
            VideoFourCc::Av1 => [0x61u8, 0x76u8, 0x30u8, 0x31u8],
            VideoFourCc::Avc => [0x61u8, 0x76u8, 0x63u8, 0x31u8],
            VideoFourCc::Hevc => [0x68u8, 0x76u8, 0x63u8, 0x31u8],
            VideoFourCc::Unknown(v) => v,
        }
    }

    /// Converts a number to its value.
    pub fn from(v: [u8; 4]) -> (r: VideoFourCc)
        ensures
            r == VideoFourCc::spec_from(v),
    {
        if v[0] == 0x76u8 && v[1] == 0x70u8 && v[2] == 0x30u8 && v[3] == 0x38u8 {
            VideoFourCc::Vp8
        } else if v[0] == 0x76u8 && v[1] == 0x70u8 && v[2] == 0x30u8 && v[3] == 0x39u8 {
            VideoFourCc::Vp9
        } else if v[0] == 0x61u8 && v[1] == 0x76u8 && v[2] == 0x30u8 && v[3] == 0x31u8 {
            VideoFourCc::Av1
        } else if v[0] == 0x61u8 && v[1] == 0x76u8 && v[2] == 0x63u8 && v[3] == 0x31u8 {
            VideoFourCc::Avc
        } else if v[0] == 0x68u8 && v[1] == 0x76u8 && v[2] == 0x63u8 && v[3] == 0x31u8 {
            VideoFourCc::Hevc
        } else {
            VideoFourCc::Unknown(v)
        }
    }

    /// The number that the value stands for.
    pub fn value(&self) -> (r: [u8; 4])
        ensures
            r == self.spec_value(),
    {
        match self {
            VideoFourCc::Vp8 => [0x76u8, 0x70u8, 0x30u8, 0x38u8],
            VideoFourCc::Vp9 => [0x76u8, 0x70u8, 0x30u8, 0x39u8],
            VideoFourCc::Av1 => [0x61u8, 0x76u8, 0x30u8, 0x31u8],
            VideoFourCc::Avc => [0x61u8, 0x76u8, 0x63u8, 0x31u8],
            VideoFourCc::Hevc => [0x68u8, 0x76u8, 0x63u8, 0x31u8],
            VideoFourCc::Unknown(v) => *v,
        }
    }

    /// The text that names the value: `Type::Name`, or `Type(number)` for a value without a name.
    pub open spec fn spec_debug_name(self) -> Seq<char> {
        match self {
            VideoFourCc::Vp8 => "VideoFourCc::Vp8"@,
            VideoFourCc::Vp9 => "VideoFourCc::Vp9"@,
            VideoFourCc::Av1 => "VideoFourCc::Av1"@,
            VideoFourCc::Avc => "VideoFourCc::Avc"@,
            VideoFourCc::Hevc => "VideoFourCc::Hevc"@,
            VideoFourCc::Unknown(v) => "VideoFourCc("@ + byte_list(v@) + ")"@,
        }
    }

    /// The text that names the value: `Type::Name`, or `Type(number)` for a value without a name.
    pub fn debug_name(&self) -> (r: String)
        ensures
            r@ == self.spec_debug_name(),
    {
        match self {
            VideoFourCc::Vp8 => String::from_str("VideoFourCc::Vp8"),
            VideoFourCc::Vp9 => String::from_str("VideoFourCc::Vp9"),
            VideoFourCc::Av1 => String::from_str("VideoFourCc::Av1"),
            VideoFourCc::Avc => String::from_str("VideoFourCc::Avc"),
            VideoFourCc::Hevc => String::from_str("VideoFourCc::Hevc"),
            VideoFourCc::Unknown(v) => {
                let mut s = String::from_str("VideoFourCc(");
                push_byte_list(&mut s, v);
                s.append(")");
                s
            },
        }
    }
}

/// Every number reads as a value whose number it is: no number is lost.
pub proof fn lemma_video_numbers_kept(v: u8, c: [u8; 4])
    ensures
        VideoFrameType::spec_from(v).spec_value() == v,
        VideoCommand::spec_from(v).spec_value() == v,
        VideoCodecId::spec_from(v).spec_value() == v,
        AvcPacketType::spec_from(v).spec_value() == v,
        VideoPacketType::spec_from(v).spec_value() == v,
        VideoPacketModExType::spec_from(v).spec_value() == v,
        VideoFourCc::spec_from(c).spec_value() == c,
{
}

} // verus!
