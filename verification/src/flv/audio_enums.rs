//! Code points of the FLV audio tags (legacy FLV spec, Annex E.4.2.1; Enhanced RTMP, Enhanced Audio).
use vstd::prelude::*;

use crate::fmt::{byte_list, decimal, push_byte_list, push_decimal};

verus! {

/// The format of legacy audio data.
#[derive(Debug, Clone, Copy, PartialEq, Eq, Structural)]
pub enum SoundFormat {
    /// Linear PCM, platform endian.
    LinearPcmPlatformEndian,
    /// ADPCM.
    Adpcm,
    /// MP3.
    Mp3,
    /// Linear PCM, little endian.
    LinearPcmLittleEndian,
    /// Nellymoser 16 kHz mono.
    Nellymoser16KhzMono,
    /// Nellymoser 8 kHz mono.
    Nellymoser8KhzMono,
    /// Nellymoser.
    Nellymoser,
    /// G.711 A-law logarithmic PCM.
    G711ALaw,
    /// G.711 mu-law logarithmic PCM.
    G711MuLaw,
    /// An enhanced audio header follows.
    ExHeader,
    /// AAC.
    Aac,
    /// Speex.
    Speex,
    /// MP3 8 kHz.
    Mp38Khz,
    /// Device-specific sound.
    DeviceSpecificSound,
    /// A value without a name.
    Unknown(u8),
}

impl SoundFormat {
    /// The value that stands for `v`: its name, where it has one.
    pub open spec fn spec_from(v: u8) -> SoundFormat {
        match v {
            0 => SoundFormat::LinearPcmPlatformEndian,
            1 => SoundFormat::Adpcm,
            2 => SoundFormat::Mp3,
            3 => SoundFormat::LinearPcmLittleEndian,
            4 => SoundFormat::Nellymoser16KhzMono,
            5 => SoundFormat::Nellymoser8KhzMono,
            6 => SoundFormat::Nellymoser,
            7 => SoundFormat::G711ALaw,
            8 => SoundFormat::G711MuLaw,
            9 => SoundFormat::ExHeader,
            10 => SoundFormat::Aac,
            11 => SoundFormat::Speex,
            14 => SoundFormat::Mp38Khz,
            15 => SoundFormat::DeviceSpecificSound,
            _ => SoundFormat::Unknown(v),
        }
    }

    /// The number that the value stands for.
    pub open spec fn spec_value(self) -> u8 {
        match self {
            SoundFormat::LinearPcmPlatformEndian => 0,
            SoundFormat::Adpcm => 1,
            SoundFormat::Mp3 => 2,
            SoundFormat::LinearPcmLittleEndian => 3,
            SoundFormat::Nellymoser16KhzMono => 4,
            SoundFormat::Nellymoser8KhzMono => 5,
            SoundFormat::Nellymoser => 6,
            SoundFormat::G711ALaw => 7,
            SoundFormat::G711MuLaw => 8,
            SoundFormat::ExHeader => 9,
            SoundFormat::Aac => 10,
            SoundFormat::Speex => 11,
            SoundFormat::Mp38Khz => 14,
            SoundFormat::DeviceSpecificSound => 15,
            SoundFormat::Unknown(v) => v,
        }
    }

    /// Converts a number to its value.
    pub fn from(v: u8) -> (r: SoundFormat)
        ensures
            r == SoundFormat::spec_from(v),
    {
        match v {
            0 => SoundFormat::LinearPcmPlatformEndian,
            1 => SoundFormat::Adpcm,
            2 => SoundFormat::Mp3,
            3 => SoundFormat::LinearPcmLittleEndian,
            4 => SoundFormat::Nellymoser16KhzMono,
            5 => SoundFormat::Nellymoser8KhzMono,
            6 => SoundFormat::Nellymoser,
            7 => SoundFormat::G711ALaw,
            8 => SoundFormat::G711MuLaw,
            9 => SoundFormat::ExHeader,
            10 => SoundFormat::Aac,
            11 => SoundFormat::Speex,
            14 => SoundFormat::Mp38Khz,
            15 => SoundFormat::DeviceSpecificSound,
            _ => SoundFormat::Unknown(v),
        }
    }

    /// The number that the value stands for.
    pub fn value(&self) -> (r: u8)
        ensures
            r == self.spec_value(),
    {
        match self {
            SoundFormat::LinearPcmPlatformEndian => 0,
            SoundFormat::Adpcm => 1,
            SoundFormat::Mp3 => 2,
            SoundFormat::LinearPcmLittleEndian => 3,
            SoundFormat::Nellymoser16KhzMono => 4,
            SoundFormat::Nellymoser8KhzMono => 5,
            SoundFormat::Nellymoser => 6,
            SoundFormat::G711ALaw => 7,
            SoundFormat::G711MuLaw => 8,
            SoundFormat::ExHeader => 9,
            SoundFormat::Aac => 10,
            SoundFormat::Speex => 11,
            SoundFormat::Mp38Khz => 14,
            SoundFormat::DeviceSpecificSound => 15,
            SoundFormat::Unknown(v) => *v,
        }
    }

    /// The text that names the value: `Type::Name`, or `Type(number)` for a value without a name.
    pub open spec fn spec_debug_name(self) -> Seq<char> {
        match self {
            SoundFormat::LinearPcmPlatformEndian => "SoundFormat::LinearPcmPlatformEndian"@,
            SoundFormat::Adpcm => "SoundFormat::Adpcm"@,
            SoundFormat::Mp3 => "SoundFormat::Mp3"@,
            SoundFormat::LinearPcmLittleEndian => "SoundFormat::LinearPcmLittleEndian"@,
            SoundFormat::Nellymoser16KhzMono => "SoundFormat::Nellymoser16KhzMono"@,
            SoundFormat::Nellymoser8KhzMono => "SoundFormat::Nellymoser8KhzMono"@,
            SoundFormat::Nellymoser => "SoundFormat::Nellymoser"@,
            SoundFormat::G711ALaw => "SoundFormat::G711ALaw"@,
            SoundFormat::G711MuLaw => "SoundFormat::G711MuLaw"@,
            SoundFormat::ExHeader => "SoundFormat::ExHeader"@,
            SoundFormat::Aac => "SoundFormat::Aac"@,
            SoundFormat::Speex => "SoundFormat::Speex"@,
            SoundFormat::Mp38Khz => "SoundFormat::Mp38Khz"@,
            SoundFormat::DeviceSpecificSound => "SoundFormat::DeviceSpecificSound"@,
            SoundFormat::Unknown(v) => "SoundFormat("@ + decimal(v as nat) + ")"@,
        }
    }

    /// The text that names the value: `Type::Name`, or `Type(number)` for a value without a name.
    pub fn debug_name(&self) -> (r: String)
        ensures
            r@ == self.spec_debug_name(),
    {
        match self {
            SoundFormat::LinearPcmPlatformEndian => String::from_str("SoundFormat::LinearPcmPlatformEndian"),
            SoundFormat::Adpcm => String::from_str("SoundFormat::Adpcm"),
            SoundFormat::Mp3 => String::from_str("SoundFormat::Mp3"),
            SoundFormat::LinearPcmLittleEndian => String::from_str("SoundFormat::LinearPcmLittleEndian"),
            SoundFormat::Nellymoser16KhzMono => String::from_str("SoundFormat::Nellymoser16KhzMono"),
            SoundFormat::Nellymoser8KhzMono => String::from_str("SoundFormat::Nellymoser8KhzMono"),
            SoundFormat::Nellymoser => String::from_str("SoundFormat::Nellymoser"),
            SoundFormat::G711ALaw => String::from_str("SoundFormat::G711ALaw"),
            SoundFormat::G711MuLaw => String::from_str("SoundFormat::G711MuLaw"),
            SoundFormat::ExHeader => String::from_str("SoundFormat::ExHeader"),
            SoundFormat::Aac => String::from_str("SoundFormat::Aac"),
            SoundFormat::Speex => String::from_str("SoundFormat::Speex"),
            SoundFormat::Mp38Khz => String::from_str("SoundFormat::Mp38Khz"),
            SoundFormat::DeviceSpecificSound => String::from_str("SoundFormat::DeviceSpecificSound"),
            SoundFormat::Unknown(v) => {
                let mut s = String::from_str("SoundFormat(");
                push_decimal(&mut s, *v as u64);
                s.append(")");
                s
            },
        }
    }
}

/// The sampling rate of legacy audio data.
#[derive(Debug, Clone, Copy, PartialEq, Eq, Structural)]
pub enum SoundRate {
    /// 5.5 kHz.
    Hz5500,
    /// 11 kHz.
    Hz11000,
    /// 22 kHz.
    Hz22000,
    /// 44 kHz.
    Hz44000,
    /// A value without a name.
    Unknown(u8),
}

impl SoundRate {
    /// The value that stands for `v`: its name, where it has one.
    pub open spec fn spec_from(v: u8) -> SoundRate {
        match v {
            0 => SoundRate::Hz5500,
            1 => SoundRate::Hz11000,
            2 => SoundRate::Hz22000,
            3 => SoundRate::Hz44000,
            _ => SoundRate::Unknown(v),
        }
    }

    /// The number that the value stands for.
    pub open spec fn spec_value(self) -> u8 {
        match self {
            SoundRate::Hz5500 => 0,
            SoundRate::Hz11000 => 1,
            SoundRate::Hz22000 => 2,
            SoundRate::Hz44000 => 3,
            SoundRate::Unknown(v) => v,
        }
    }

    /// Converts a number to its value.
    pub fn from(v: u8) -> (r: SoundRate)
        ensures
            r == SoundRate::spec_from(v),
    {
        match v {
            0 => SoundRate::Hz5500,
            1 => SoundRate::Hz11000,
            2 => SoundRate::Hz22000,
            3 => SoundRate::Hz44000,
            _ => SoundRate::Unknown(v),
        }
    }

    /// The number that the value stands for.
    pub fn value(&self) -> (r: u8)
        ensures
            r == self.spec_value(),
    {
        match self {
            SoundRate::Hz5500 => 0,
            SoundRate::Hz11000 => 1,
            SoundRate::Hz22000 => 2,
            SoundRate::Hz44000 => 3,
            SoundRate::Unknown(v) => *v,
        }
    }

    /// The text that names the value: `Type::Name`, or `Type(number)` for a value without a name.
    pub open spec fn spec_debug_name(self) -> Seq<char> {
        match self {
            SoundRate::Hz5500 => "SoundRate::Hz5500"@,
            SoundRate::Hz11000 => "SoundRate::Hz11000"@,
            SoundRate::Hz22000 => "SoundRate::Hz22000"@,
            SoundRate::Hz44000 => "SoundRate::Hz44000"@,
            SoundRate::Unknown(v) => "SoundRate("@ + decimal(v as nat) + ")"@,
        }
    }

    /// The text that names the value: `Type::Name`, or `Type(number)` for a value without a name.
    pub fn debug_name(&self) -> (r: String)
        ensures
            r@ == self.spec_debug_name(),
    {
        match self {
            SoundRate::Hz5500 => String::from_str("SoundRate::Hz5500"),
            SoundRate::Hz11000 => String::from_str("SoundRate::Hz11000"),
            SoundRate::Hz22000 => String::from_str("SoundRate::Hz22000"),
            SoundRate::Hz44000 => String::from_str("SoundRate::Hz44000"),
            SoundRate::Unknown(v) => {
                let mut s = String::from_str("SoundRate(");
                push_decimal(&mut s, *v as u64);
                s.append(")");
                s
            },
        }
    }
}

/// The sample size of legacy audio data.
#[derive(Debug, Clone, Copy, PartialEq, Eq, Structural)]
pub enum SoundSize {
    /// 8 bits.
    Bit8,
    /// 16 bits.
    Bit16,
    /// A value without a name.
    Unknown(u8),
}

impl SoundSize {
    /// The value that stands for `v`: its name, where it has one.
    pub open spec fn spec_from(v: u8) -> SoundSize {
        match v {
            0 => SoundSize::Bit8,
            1 => SoundSize::Bit16,
            _ => SoundSize::Unknown(v),
        }
    }

    /// The number that the value stands for.
    pub open spec fn spec_value(self) -> u8 {
        match self {
            SoundSize::Bit8 => 0,
            SoundSize::Bit16 => 1,
            SoundSize::Unknown(v) => v,
        }
    }

    /// Converts a number to its value.
    pub fn from(v: u8) -> (r: SoundSize)
        ensures
            r == SoundSize::spec_from(v),
    {
        match v {
            0 => SoundSize::Bit8,
            1 => SoundSize::Bit16,
            _ => SoundSize::Unknown(v),
        }
    }

    /// The number that the value stands for.
    pub fn value(&self) -> (r: u8)
        ensures
            r == self.spec_value(),
    {
        match self {
            SoundSize::Bit8 => 0,
            SoundSize::Bit16 => 1,
            SoundSize::Unknown(v) => *v,
        }
    }

    /// The text that names the value: `Type::Name`, or `Type(number)` for a value without a name.
    pub open spec fn spec_debug_name(self) -> Seq<char> {
        match self {
            SoundSize::Bit8 => "SoundSize::Bit8"@,
            SoundSize::Bit16 => "SoundSize::Bit16"@,
            SoundSize::Unknown(v) => "SoundSize("@ + decimal(v as nat) + ")"@,
        }
    }

    /// The text that names the value: `Type::Name`, or `Type(number)` for a value without a name.
    pub fn debug_name(&self) -> (r: String)
        ensures
            r@ == self.spec_debug_name(),
    {
        match self {
            SoundSize::Bit8 => String::from_str("SoundSize::Bit8"),
            SoundSize::Bit16 => String::from_str("SoundSize::Bit16"),
            SoundSize::Unknown(v) => {
                let mut s = String::from_str("SoundSize(");
                push_decimal(&mut s, *v as u64);
                s.append(")");
                s
            },
        }
    }
}

/// The channel layout of legacy audio data.
#[derive(Debug, Clone, Copy, PartialEq, Eq, Structural)]
pub enum SoundType {
    /// Mono.
    Mono,
    /// Stereo.
    Stereo,
    /// A value without a name.
    Unknown(u8),
}

impl SoundType {
    /// The value that stands for `v`: its name, where it has one.
    pub open spec fn spec_from(v: u8) -> SoundType {
        match v {
            0 => SoundType::Mono,
            1 => SoundType::Stereo,
            _ => SoundType::Unknown(v),
        }
    }

    /// The number that the value stands for.
    pub open spec fn spec_value(self) -> u8 {
        match self {
            SoundType::Mono => 0,
            SoundType::Stereo => 1,
            SoundType::Unknown(v) => v,
        }
    }

    /// Converts a number to its value.
    pub fn from(v: u8) -> (r: SoundType)
        ensures
            r == SoundType::spec_from(v),
    {
        match v {
            0 => SoundType::Mono,
            1 => SoundType::Stereo,
            _ => SoundType::Unknown(v),
        }
    }

    /// The number that the value stands for.
    pub fn value(&self) -> (r: u8)
        ensures
            r == self.spec_value(),
    {
        match self {
            SoundType::Mono => 0,
            SoundType::Stereo => 1,
            SoundType::Unknown(v) => *v,
        }
    }

    /// The text that names the value: `Type::Name`, or `Type(number)` for a value without a name.
    pub open spec fn spec_debug_name(self) -> Seq<char> {
        match self {
            SoundType::Mono => "SoundType::Mono"@,
            SoundType::Stereo => "SoundType::Stereo"@,
            SoundType::Unknown(v) => "SoundType("@ + decimal(v as nat) + ")"@,
        }
    }

    /// The text that names the value: `Type::Name`, or `Type(number)` for a value without a name.
    pub fn debug_name(&self) -> (r: String)
        ensures
            r@ == self.spec_debug_name(),
    {
        match self {
            SoundType::Mono => String::from_str("SoundType::Mono"),
            SoundType::Stereo => String::from_str("SoundType::Stereo"),
            SoundType::Unknown(v) => {
                let mut s = String::from_str("SoundType(");
                push_decimal(&mut s, *v as u64);
                s.append(")");
                s
            },
        }
    }
}

/// The type of an AAC audio packet.
#[derive(Debug, Clone, Copy, PartialEq, Eq, Structural)]
pub enum AacPacketType {
    /// The AudioSpecificConfig.
    SequenceHeader,
    /// Raw AAC frame data.
    Raw,
    /// A value without a name.
    Unknown(u8),
}

impl AacPacketType {
    /// The value that stands for `v`: its name, where it has one.
    pub open spec fn spec_from(v: u8) -> AacPacketType {
        match v {
            0 => AacPacketType::SequenceHeader,
            1 => AacPacketType::Raw,
            _ => AacPacketType::Unknown(v),
        }
    }

    /// The number that the value stands for.
    pub open spec fn spec_value(self) -> u8 {
        match self {
            AacPacketType::SequenceHeader => 0,
            AacPacketType::Raw => 1,
            AacPacketType::Unknown(v) => v,
        }
    }

    /// Converts a number to its value.
    pub fn from(v: u8) -> (r: AacPacketType)
        ensures
            r == AacPacketType::spec_from(v),
    {
        match v {
            0 => AacPacketType::SequenceHeader,
            1 => AacPacketType::Raw,
            _ => AacPacketType::Unknown(v),
        }
    }

    /// The number that the value stands for.
    pub fn value(&self) -> (r: u8)
        ensures
            r == self.spec_value(),
    {
        match self {
            AacPacketType::SequenceHeader => 0,
            AacPacketType::Raw => 1,
            AacPacketType::Unknown(v) => *v,
        }
    }

    /// The text that names the value: `Type::Name`, or `Type(number)` for a value without a name.
    pub open spec fn spec_debug_name(self) -> Seq<char> {
        match self {
            AacPacketType::SequenceHeader => "AacPacketType::SequenceHeader"@,
            AacPacketType::Raw => "AacPacketType::Raw"@,
            AacPacketType::Unknown(v) => "AacPacketType("@ + decimal(v as nat) + ")"@,
        }
    }

    /// The text that names the value: `Type::Name`, or `Type(number)` for a value without a name.
    pub fn debug_name(&self) -> (r: String)
        ensures
            r@ == self.spec_debug_name(),
    {
        match self {
            AacPacketType::SequenceHeader => String::from_str("AacPacketType::SequenceHeader"),
            AacPacketType::Raw => String::from_str("AacPacketType::Raw"),
            AacPacketType::Unknown(v) => {
                let mut s = String::from_str("AacPacketType(");
                push_decimal(&mut s, *v as u64);
                s.append(")");
                s
            },
        }
    }
}

/// The type of an enhanced audio packet.
#[derive(Debug, Clone, Copy, PartialEq, Eq, Structural)]
pub enum AudioPacketType {
    /// Sequence start.
    SequenceStart,
    /// Coded frames.
    CodedFrames,
    /// Sequence end.
    SequenceEnd,
    /// Multichannel configuration.
    MultichannelConfig,
    /// Turns on audio multitrack mode.
    Multitrack,
    /// Modifier extension.
    ModEx,
    /// A value without a name.
    Unknown(u8),
}

impl AudioPacketType {
    /// The value that stands for `v`: its name, where it has one.
    pub open spec fn spec_from(v: u8) -> AudioPacketType {
        match v {
            0 => AudioPacketType::SequenceStart,
            1 => AudioPacketType::CodedFrames,
            2 => AudioPacketType::SequenceEnd,
            4 => AudioPacketType::MultichannelConfig,
            5 => AudioPacketType::Multitrack,
            7 => AudioPacketType::ModEx,
            _ => AudioPacketType::Unknown(v),
        }
    }

    /// The number that the value stands for.
    pub open spec fn spec_value(self) -> u8 {
        match self {
            AudioPacketType::SequenceStart => 0,
            AudioPacketType::CodedFrames => 1,
            AudioPacketType::SequenceEnd => 2,
            AudioPacketType::MultichannelConfig => 4,
            AudioPacketType::Multitrack => 5,
            AudioPacketType::ModEx => 7,
            AudioPacketType::Unknown(v) => v,
        }
    }

    /// Converts a number to its value.
    pub fn from(v: u8) -> (r: AudioPacketType)
        ensures
            r == AudioPacketType::spec_from(v),
    {
        match v {
            0 => AudioPacketType::SequenceStart,
            1 => AudioPacketType::CodedFrames,
            2 => AudioPacketType::SequenceEnd,
            4 => AudioPacketType::MultichannelConfig,
            5 => AudioPacketType::Multitrack,
            7 => AudioPacketType::ModEx,
            _ => AudioPacketType::Unknown(v),
        }
    }

    /// The number that the value stands for.
    pub fn value(&self) -> (r: u8)
        ensures
            r == self.spec_value(),
    {
        match self {
            AudioPacketType::SequenceStart => 0,
            AudioPacketType::CodedFrames => 1,
            AudioPacketType::SequenceEnd => 2,
            AudioPacketType::MultichannelConfig => 4,
            AudioPacketType::Multitrack => 5,
            AudioPacketType::ModEx => 7,
            AudioPacketType::Unknown(v) => *v,
        }
    }

    /// The text that names the value: `Type::Name`, or `Type(number)` for a value without a name.
    pub open spec fn spec_debug_name(self) -> Seq<char> {
        match self {
            AudioPacketType::SequenceStart => "AudioPacketType::SequenceStart"@,
            AudioPacketType::CodedFrames => "AudioPacketType::CodedFrames"@,
            AudioPacketType::SequenceEnd => "AudioPacketType::SequenceEnd"@,
            AudioPacketType::MultichannelConfig => "AudioPacketType::MultichannelConfig"@,
            AudioPacketType::Multitrack => "AudioPacketType::Multitrack"@,
            AudioPacketType::ModEx => "AudioPacketType::ModEx"@,
            AudioPacketType::Unknown(v) => "AudioPacketType("@ + decimal(v as nat) + ")"@,
        }
    }

    /// The text that names the value: `Type::Name`, or `Type(number)` for a value without a name.
    pub fn debug_name(&self) -> (r: String)
        ensures
            r@ == self.spec_debug_name(),
    {
        match self {
            AudioPacketType::SequenceStart => String::from_str("AudioPacketType::SequenceStart"),
            AudioPacketType::CodedFrames => String::from_str("AudioPacketType::CodedFrames"),
            AudioPacketType::SequenceEnd => String::from_str("AudioPacketType::SequenceEnd"),
            AudioPacketType::MultichannelConfig => String::from_str("AudioPacketType::MultichannelConfig"),
            AudioPacketType::Multitrack => String::from_str("AudioPacketType::Multitrack"),
            AudioPacketType::ModEx => String::from_str("AudioPacketType::ModEx"),
            AudioPacketType::Unknown(v) => {
                let mut s = String::from_str("AudioPacketType(");
                push_decimal(&mut s, *v as u64);
                s.append(")");
                s
            },
        }
    }
}

/// The type of an audio packet modifier extension.
#[derive(Debug, Clone, Copy, PartialEq, Eq, Structural)]
pub enum AudioPacketModExType {
    /// Timestamp offset in nanoseconds.
    TimestampOffsetNano,
    /// A value without a name.
    Unknown(u8),
}

impl AudioPacketModExType {
    /// The value that stands for `v`: its name, where it has one.
    pub open spec fn spec_from(v: u8) -> AudioPacketModExType {
        match v {
            0 => AudioPacketModExType::TimestampOffsetNano,
            _ => AudioPacketModExType::Unknown(v),
        }
    }

    /// The number that the value stands for.
    pub open spec fn spec_value(self) -> u8 {
        match self {
            AudioPacketModExType::TimestampOffsetNano => 0,
            AudioPacketModExType::Unknown(v) => v,
        }
    }

    /// Converts a number to its value.
    pub fn from(v: u8) -> (r: AudioPacketModExType)
        ensures
            r == AudioPacketModExType::spec_from(v),
    {
        match v {
            0 => AudioPacketModExType::TimestampOffsetNano,
            _ => AudioPacketModExType::Unknown(v),
        }
    }

    /// The number that the value stands for.
    pub fn value(&self) -> (r: u8)
        ensures
            r == self.spec_value(),
    {
        match self {
            AudioPacketModExType::TimestampOffsetNano => 0,
            AudioPacketModExType::Unknown(v) => *v,
        }
    }

    /// The text that names the value: `Type::Name`, or `Type(number)` for a value without a name.
    pub open spec fn spec_debug_name(self) -> Seq<char> {
        match self {
            AudioPacketModExType::TimestampOffsetNano => "AudioPacketModExType::TimestampOffsetNano"@,
            AudioPacketModExType::Unknown(v) => "AudioPacketModExType("@ + decimal(v as nat) + ")"@,
        }
    }

    /// The text that names the value: `Type::Name`, or `Type(number)` for a value without a name.
    pub fn debug_name(&self) -> (r: String)
        ensures
            r@ == self.spec_debug_name(),
    {
        match self {
            AudioPacketModExType::TimestampOffsetNano => String::from_str("AudioPacketModExType::TimestampOffsetNano"),
            AudioPacketModExType::Unknown(v) => {
                let mut s = String::from_str("AudioPacketModExType(");
                push_decimal(&mut s, *v as u64);
                s.append(")");
                s
            },
        }
    }
}

/// The FOURCC of an enhanced audio codec.
#[derive(Debug, Clone, Copy, PartialEq, Eq)]
pub enum AudioFourCc {
    /// Dolby AC-3 (`ac-3`).
    Ac3,
    /// Dolby Digital Plus (`ec-3`).
    Eac3,
    /// Opus (`Opus`).
    Opus,
    /// MP3 (`.mp3`).
    Mp3,
    /// FLAC (`fLaC`).
    Flac,
    /// AAC (`mp4a`).
    Aac,
    /// A value without a name.
    Unknown([u8; 4]),
}

impl AudioFourCc {
    /// The value that stands for `v`: its name, where it has one.
    pub open spec fn spec_from(v: [u8; 4]) -> AudioFourCc {
        if v[0] == 0x61u8 && v[1] == 0x63u8 && v[2] == 0x2du8 && v[3] == 0x33u8 {
            AudioFourCc::Ac3
        } else if v[0] == 0x65u8 && v[1] == 0x63u8 && v[2] == 0x2du8 && v[3] == 0x33u8 {
            AudioFourCc::Eac3
        } else if v[0] == 0x4fu8 && v[1] == 0x70u8 && v[2] == 0x75u8 && v[3] == 0x73u8 {
            AudioFourCc::Opus
        } else if v[0] == 0x2eu8 && v[1] == 0x6du8 && v[2] == 0x70u8 && v[3] == 0x33u8 {
            AudioFourCc::Mp3
        } else if v[0] == 0x66u8 && v[1] == 0x4cu8 && v[2] == 0x61u8 && v[3] == 0x43u8 {
            AudioFourCc::Flac
        } else if v[0] == 0x6du8 && v[1] == 0x70u8 && v[2] == 0x34u8 && v[3] == 0x61u8 {
            AudioFourCc::Aac
        } else {
            AudioFourCc::Unknown(v)
        }
    }

    /// The number that the value stands for.
    pub open spec fn spec_value(self) -> [u8; 4] {
        match self {
            AudioFourCc::Ac3 => [0x61u8, 0x63u8, 0x2du8, 0x33u8],
            AudioFourCc::Eac3 => [0x65u8, 0x63u8, 0x2du8, 0x33u8],
            AudioFourCc::Opus => [0x4fu8, 0x70u8, 0x75u8, 0x73u8],
            AudioFourCc::Mp3 => [0x2eu8, 0x6du8, 0x70u8, 0x33u8],
            AudioFourCc::Flac => [0x66u8, 0x4cu8, 0x61u8, 0x43u8],
            AudioFourCc::Aac => [0x6du8, 0x70u8, 0x34u8, 0x61u8],
            AudioFourCc::Unknown(v) => v,
        }
    }

    /// Converts a number to its value.
    pub fn from(v: [u8; 4]) -> (r: AudioFourCc)
        ensures
            r == AudioFourCc::spec_from(v),
    {
        if v[0] == 0x61u8 && v[1] == 0x63u8 && v[2] == 0x2du8 && v[3] == 0x33u8 {
            AudioFourCc::Ac3
        } else if v[0] == 0x65u8 && v[1] == 0x63u8 && v[2] == 0x2du8 && v[3] == 0x33u8 {
            AudioFourCc::Eac3
        } else if v[0] == 0x4fu8 && v[1] == 0x70u8 && v[2] == 0x75u8 && v[3] == 0x73u8 {
            AudioFourCc::Opus
        } else if v[0] == 0x2eu8 && v[1] == 0x6du8 && v[2] == 0x70u8 && v[3] == 0x33u8 {
            AudioFourCc::Mp3
        } else if v[0] == 0x66u8 && v[1] == 0x4cu8 && v[2] == 0x61u8 && v[3] == 0x43u8 {
            AudioFourCc::Flac
        } else if v[0] == 0x6du8 && v[1] == 0x70u8 && v[2] == 0x34u8 && v[3] == 0x61u8 {
            AudioFourCc::Aac
        } else {
            AudioFourCc::Unknown(v)
        }
    }

    /// The number that the value stands for.
    pub fn value(&self) -> (r: [u8; 4])
        ensures
            r == self.spec_value(),
    {
        match self {
            AudioFourCc::Ac3 => [0x61u8, 0x63u8, 0x2du8, 0x33u8],
            AudioFourCc::Eac3 => [0x65u8, 0x63u8, 0x2du8, 0x33u8],
            AudioFourCc::Opus => [0x4fu8, 0x70u8, 0x75u8, 0x73u8],
            AudioFourCc::Mp3 => [0x2eu8, 0x6du8, 0x70u8, 0x33u8],
            AudioFourCc::Flac => [0x66u8, 0x4cu8, 0x61u8, 0x43u8],
            AudioFourCc::Aac => [0x6du8, 0x70u8, 0x34u8, 0x61u8],
            AudioFourCc::Unknown(v) => *v,
        }
    }

    /// The text that names the value: `Type::Name`, or `Type(number)` for a value without a name.
    pub open spec fn spec_debug_name(self) -> Seq<char> {
        match self {
            AudioFourCc::Ac3 => "AudioFourCc::Ac3"@,
            AudioFourCc::Eac3 => "AudioFourCc::Eac3"@,
            AudioFourCc::Opus => "AudioFourCc::Opus"@,
            AudioFourCc::Mp3 => "AudioFourCc::Mp3"@,
            AudioFourCc::Flac => "AudioFourCc::Flac"@,
            AudioFourCc::Aac => "AudioFourCc::Aac"@,
            AudioFourCc::Unknown(v) => "AudioFourCc("@ + byte_list(v@) + ")"@,
        }
    }

    /// The text that names the value: `Type::Name`, or `Type(number)` for a value without a name.
    pub fn debug_name(&self) -> (r: String)
        ensures
            r@ == self.spec_debug_name(),
    {
        match self {
            AudioFourCc::Ac3 => String::from_str("AudioFourCc::Ac3"),
            AudioFourCc::Eac3 => String::from_str("AudioFourCc::Eac3"),
            AudioFourCc::Opus => String::from_str("AudioFourCc::Opus"),
            AudioFourCc::Mp3 => String::from_str("AudioFourCc::Mp3"),
            AudioFourCc::Flac => String::from_str("AudioFourCc::Flac"),
            AudioFourCc::Aac => String::from_str("AudioFourCc::Aac"),
            AudioFourCc::Unknown(v) => {
                let mut s = String::from_str("AudioFourCc(");
                push_byte_list(&mut s, v);
                s.append(")");
                s
            },
        }
    }
}

/// The channel order of a multichannel configuration.
#[derive(Debug, Clone, Copy, PartialEq, Eq, Structural)]
pub enum AudioChannelOrder {
    /// Only the channel count is given.
    Unspecified,
    /// The native order, given by a channel mask.
    Native,
    /// An explicit channel map.
    Custom,
    /// A value without a name.
    Unknown(u8),
}

impl AudioChannelOrder {
    /// The value that stands for `v`: its name, where it has one.
    pub open spec fn spec_from(v: u8) -> AudioChannelOrder {
        match v {
            0 => AudioChannelOrder::Unspecified,
            1 => AudioChannelOrder::Native,
            2 => AudioChannelOrder::Custom,
            _ => AudioChannelOrder::Unknown(v),
        }
    }

    /// The number that the value stands for.
    pub open spec fn spec_value(self) -> u8 {
        match self {
            AudioChannelOrder::Unspecified => 0,
            AudioChannelOrder::Native => 1,
            AudioChannelOrder::Custom => 2,
            AudioChannelOrder::Unknown(v) => v,
        }
    }

    /// Converts a number to its value.
    pub fn from(v: u8) -> (r: AudioChannelOrder)
        ensures
            r == AudioChannelOrder::spec_from(v),
    {
        match v {
            0 => AudioChannelOrder::Unspecified,
            1 => AudioChannelOrder::Native,
            2 => AudioChannelOrder::Custom,
            _ => AudioChannelOrder::Unknown(v),
        }
    }

    /// The number that the value stands for.
    pub fn value(&self) -> (r: u8)
        ensures
            r == self.spec_value(),
    {
        match self {
            AudioChannelOrder::Unspecified => 0,
            AudioChannelOrder::Native => 1,
            AudioChannelOrder::Custom => 2,
            AudioChannelOrder::Unknown(v) => *v,
        }
    }

    /// The text that names the value: `Type::Name`, or `Type(number)` for a value without a name.
    pub open spec fn spec_debug_name(self) -> Seq<char> {
        match self {
            AudioChannelOrder::Unspecified => "AudioChannelOrder::Unspecified"@,
            AudioChannelOrder::Native => "AudioChannelOrder::Native"@,
            AudioChannelOrder::Custom => "AudioChannelOrder::Custom"@,
            AudioChannelOrder::Unknown(v) => "AudioChannelOrder("@ + decimal(v as nat) + ")"@,
        }
    }

    /// The text that names the value: `Type::Name`, or `Type(number)` for a value without a name.
    pub fn debug_name(&self) -> (r: String)
        ensures
            r@ == self.spec_debug_name(),
    {
        match self {
            AudioChannelOrder::Unspecified => String::from_str("AudioChannelOrder::Unspecified"),
            AudioChannelOrder::Native => String::from_str("AudioChannelOrder::Native"),
            AudioChannelOrder::Custom => String::from_str("AudioChannelOrder::Custom"),
            AudioChannelOrder::Unknown(v) => {
                let mut s = String::from_str("AudioChannelOrder(");
                push_decimal(&mut s, *v as u64);
                s.append(")");
                s
            },
        }
    }
}

/// A speaker channel.
#[derive(Debug, Clone, Copy, PartialEq, Eq, Structural)]
pub enum AudioChannel {
    /// Front left.
    FrontLeft,
    /// Front right.
    FrontRight,
    /// Front center.
    FrontCenter,
    /// Low frequency.
    LowFrequency1,
    /// Back left.
    BackLeft,
    /// Back right.
    BackRight,
    /// Front left of center.
    FrontLeftCenter,
    /// Front right of center.
    FrontRightCenter,
    /// Back center.
    BackCenter,
    /// Side left.
    SideLeft,
    /// Side right.
    SideRight,
    /// Top center.
    TopCenter,
    /// Front left height.
    TopFrontLeft,
    /// Front center height.
    TopFrontCenter,
    /// Front right height.
    TopFrontRight,
    /// Rear left height.
    TopBackLeft,
    /// Rear center height.
    TopBackCenter,
    /// Rear right height.
    TopBackRight,
    /// Low frequency 2.
    LowFrequency2,
    /// Top side left.
    TopSideLeft,
    /// Top side right.
    TopSideRight,
    /// Bottom front center.
    BottomFrontCenter,
    /// Bottom front left.
    BottomFrontLeft,
    /// Bottom front right.
    BottomFrontRight,
    /// An empty channel that can be skipped.
    Unused,
    /// A channel with data whose speaker is unknown.
    Unknown,
    /// A value without a name.
    Other(u8),
}

impl AudioChannel {
    /// The value that stands for `v`: its name, where it has one.
    pub open spec fn spec_from(v: u8) -> AudioChannel {
        match v {
            0 => AudioChannel::FrontLeft,
            1 => AudioChannel::FrontRight,
            2 => AudioChannel::FrontCenter,
            3 => AudioChannel::LowFrequency1,
            4 => AudioChannel::BackLeft,
            5 => AudioChannel::BackRight,
            6 => AudioChannel::FrontLeftCenter,
            7 => AudioChannel::FrontRightCenter,
            8 => AudioChannel::BackCenter,
            9 => AudioChannel::SideLeft,
            10 => AudioChannel::SideRight,
            11 => AudioChannel::TopCenter,
            12 => AudioChannel::TopFrontLeft,
            13 => AudioChannel::TopFrontCenter,
            14 => AudioChannel::TopFrontRight,
            15 => AudioChannel::TopBackLeft,
            16 => AudioChannel::TopBackCenter,
            17 => AudioChannel::TopBackRight,
            18 => AudioChannel::LowFrequency2,
            19 => AudioChannel::TopSideLeft,
            20 => AudioChannel::TopSideRight,
            21 => AudioChannel::BottomFrontCenter,
            22 => AudioChannel::BottomFrontLeft,
            23 => AudioChannel::BottomFrontRight,
            254 => AudioChannel::Unused,
            255 => AudioChannel::Unknown,
            _ => AudioChannel::Other(v),
        }
    }

    /// The number that the value stands for.
    pub open spec fn spec_value(self) -> u8 {
        match self {
            AudioChannel::FrontLeft => 0,
            AudioChannel::FrontRight => 1,
            AudioChannel::FrontCenter => 2,
            AudioChannel::LowFrequency1 => 3,
            AudioChannel::BackLeft => 4,
            AudioChannel::BackRight => 5,
            AudioChannel::FrontLeftCenter => 6,
            AudioChannel::FrontRightCenter => 7,
            AudioChannel::BackCenter => 8,
            AudioChannel::SideLeft => 9,
            AudioChannel::SideRight => 10,
            AudioChannel::TopCenter => 11,
            AudioChannel::TopFrontLeft => 12,
            AudioChannel::TopFrontCenter => 13,
            AudioChannel::TopFrontRight => 14,
            AudioChannel::TopBackLeft => 15,
            AudioChannel::TopBackCenter => 16,
            AudioChannel::TopBackRight => 17,
            AudioChannel::LowFrequency2 => 18,
            AudioChannel::TopSideLeft => 19,
            AudioChannel::TopSideRight => 20,
            AudioChannel::BottomFrontCenter => 21,
            AudioChannel::BottomFrontLeft => 22,
            AudioChannel::BottomFrontRight => 23,
            AudioChannel::Unused => 254,
            AudioChannel::Unknown => 255,
            AudioChannel::Other(v) => v,
        }
    }

    /// Converts a number to its value.
    pub fn from(v: u8) -> (r: AudioChannel)
        ensures
            r == AudioChannel::spec_from(v),
    {
        match v {
            0 => AudioChannel::FrontLeft,
            1 => AudioChannel::FrontRight,
            2 => AudioChannel::FrontCenter,
            3 => AudioChannel::LowFrequency1,
            4 => AudioChannel::BackLeft,
            5 => AudioChannel::BackRight,
            6 => AudioChannel::FrontLeftCenter,
            7 => AudioChannel::FrontRightCenter,
            8 => AudioChannel::BackCenter,
            9 => AudioChannel::SideLeft,
            10 => AudioChannel::SideRight,
            11 => AudioChannel::TopCenter,
            12 => AudioChannel::TopFrontLeft,
            13 => AudioChannel::TopFrontCenter,
            14 => AudioChannel::TopFrontRight,
            15 => AudioChannel::TopBackLeft,
            16 => AudioChannel::TopBackCenter,
            17 => AudioChannel::TopBackRight,
            18 => AudioChannel::LowFrequency2,
            19 => AudioChannel::TopSideLeft,
            20 => AudioChannel::TopSideRight,
            21 => AudioChannel::BottomFrontCenter,
            22 => AudioChannel::BottomFrontLeft,
            23 => AudioChannel::BottomFrontRight,
            254 => AudioChannel::Unused,
            255 => AudioChannel::Unknown,
            _ => AudioChannel::Other(v),
        }
    }

    /// The number that the value stands for.
    pub fn value(&self) -> (r: u8)
        ensures
            r == self.spec_value(),
    {
        match self {
            AudioChannel::FrontLeft => 0,
            AudioChannel::FrontRight => 1,
            AudioChannel::FrontCenter => 2,
            AudioChannel::LowFrequency1 => 3,
            AudioChannel::BackLeft => 4,
            AudioChannel::BackRight => 5,
            AudioChannel::FrontLeftCenter => 6,
            AudioChannel::FrontRightCenter => 7,
            AudioChannel::BackCenter => 8,
            AudioChannel::SideLeft => 9,
            AudioChannel::SideRight => 10,
            AudioChannel::TopCenter => 11,
            AudioChannel::TopFrontLeft => 12,
            AudioChannel::TopFrontCenter => 13,
            AudioChannel::TopFrontRight => 14,
            AudioChannel::TopBackLeft => 15,
            AudioChannel::TopBackCenter => 16,
            AudioChannel::TopBackRight => 17,
            AudioChannel::LowFrequency2 => 18,
            AudioChannel::TopSideLeft => 19,
            AudioChannel::TopSideRight => 20,
            AudioChannel::BottomFrontCenter => 21,
            AudioChannel::BottomFrontLeft => 22,
            AudioChannel::BottomFrontRight => 23,
            AudioChannel::Unused => 254,
            AudioChannel::Unknown => 255,
            AudioChannel::Other(v) => *v,
        }
    }

    /// The text that names the value: `Type::Name`, or `Type(number)` for a value without a name.
    pub open spec fn spec_debug_name(self) -> Seq<char> {
        match self {
            AudioChannel::FrontLeft => "AudioChannel::FrontLeft"@,
            AudioChannel::FrontRight => "AudioChannel::FrontRight"@,
            AudioChannel::FrontCenter => "AudioChannel::FrontCenter"@,
            AudioChannel::LowFrequency1 => "AudioChannel::LowFrequency1"@,
            AudioChannel::BackLeft => "AudioChannel::BackLeft"@,
            AudioChannel::BackRight => "AudioChannel::BackRight"@,
            AudioChannel::FrontLeftCenter => "AudioChannel::FrontLeftCenter"@,
            AudioChannel::FrontRightCenter => "AudioChannel::FrontRightCenter"@,
            AudioChannel::BackCenter => "AudioChannel::BackCenter"@,
            AudioChannel::SideLeft => "AudioChannel::SideLeft"@,
            AudioChannel::SideRight => "AudioChannel::SideRight"@,
            AudioChannel::TopCenter => "AudioChannel::TopCenter"@,
            AudioChannel::TopFrontLeft => "AudioChannel::TopFrontLeft"@,
            AudioChannel::TopFrontCenter => "AudioChannel::TopFrontCenter"@,
            AudioChannel::TopFrontRight => "AudioChannel::TopFrontRight"@,
            AudioChannel::TopBackLeft => "AudioChannel::TopBackLeft"@,
            AudioChannel::TopBackCenter => "AudioChannel::TopBackCenter"@,
            AudioChannel::TopBackRight => "AudioChannel::TopBackRight"@,
            AudioChannel::LowFrequency2 => "AudioChannel::LowFrequency2"@,
            AudioChannel::TopSideLeft => "AudioChannel::TopSideLeft"@,
            AudioChannel::TopSideRight => "AudioChannel::TopSideRight"@,
            AudioChannel::BottomFrontCenter => "AudioChannel::BottomFrontCenter"@,
            AudioChannel::BottomFrontLeft => "AudioChannel::BottomFrontLeft"@,
            AudioChannel::BottomFrontRight => "AudioChannel::BottomFrontRight"@,
            AudioChannel::Unused => "AudioChannel::Unused"@,
            AudioChannel::Unknown => "AudioChannel::Unknown"@,
            AudioChannel::Other(v) => "AudioChannel("@ + decimal(v as nat) + ")"@,
        }
    }

    /// The text that names the value: `Type::Name`, or `Type(number)` for a value without a name.
    pub fn debug_name(&self) -> (r: String)
        ensures
            r@ == self.spec_debug_name(),
    {
        match self {
            AudioChannel::FrontLeft => String::from_str("AudioChannel::FrontLeft"),
            AudioChannel::FrontRight => String::from_str("AudioChannel::FrontRight"),
            AudioChannel::FrontCenter => String::from_str("AudioChannel::FrontCenter"),
            AudioChannel::LowFrequency1 => String::from_str("AudioChannel::LowFrequency1"),
            AudioChannel::BackLeft => String::from_str("AudioChannel::BackLeft"),
            AudioChannel::BackRight => String::from_str("AudioChannel::BackRight"),
            AudioChannel::FrontLeftCenter => String::from_str("AudioChannel::FrontLeftCenter"),
            AudioChannel::FrontRightCenter => String::from_str("AudioChannel::FrontRightCenter"),
            AudioChannel::BackCenter => String::from_str("AudioChannel::BackCenter"),
            AudioChannel::SideLeft => String::from_str("AudioChannel::SideLeft"),
            AudioChannel::SideRight => String::from_str("AudioChannel::SideRight"),
            AudioChannel::TopCenter => String::from_str("AudioChannel::TopCenter"),
            AudioChannel::TopFrontLeft => String::from_str("AudioChannel::TopFrontLeft"),
            AudioChannel::TopFrontCenter => String::from_str("AudioChannel::TopFrontCenter"),
            AudioChannel::TopFrontRight => String::from_str("AudioChannel::TopFrontRight"),
            AudioChannel::TopBackLeft => String::from_str("AudioChannel::TopBackLeft"),
            AudioChannel::TopBackCenter => String::from_str("AudioChannel::TopBackCenter"),
            AudioChannel::TopBackRight => String::from_str("AudioChannel::TopBackRight"),
            AudioChannel::LowFrequency2 => String::from_str("AudioChannel::LowFrequency2"),
            AudioChannel::TopSideLeft => String::from_str("AudioChannel::TopSideLeft"),
            AudioChannel::TopSideRight => String::from_str("AudioChannel::TopSideRight"),
            AudioChannel::BottomFrontCenter => String::from_str("AudioChannel::BottomFrontCenter"),
            AudioChannel::BottomFrontLeft => String::from_str("AudioChannel::BottomFrontLeft"),
            AudioChannel::BottomFrontRight => String::from_str("AudioChannel::BottomFrontRight"),
            AudioChannel::Unused => String::from_str("AudioChannel::Unused"),
            AudioChannel::Unknown => String::from_str("AudioChannel::Unknown"),
            AudioChannel::Other(v) => {
                let mut s = String::from_str("AudioChannel(");
                push_decimal(&mut s, *v as u64);
                s.append(")");
                s
            },
        }
    }
}

/// Every number reads as a value whose number it is: no number is lost.
pub proof fn lemma_audio_numbers_kept(v: u8, c: [u8; 4])
    ensures
        SoundFormat::spec_from(v).spec_value() == v,
        SoundRate::spec_from(v).spec_value() == v,
        SoundSize::spec_from(v).spec_value() == v,
        SoundType::spec_from(v).spec_value() == v,
        AacPacketType::spec_from(v).spec_value() == v,
        AudioPacketType::spec_from(v).spec_value() == v,
        AudioPacketModExType::spec_from(v).spec_value() == v,
        AudioChannelOrder::spec_from(v).spec_value() == v,
        AudioChannel::spec_from(v).spec_value() == v,
        AudioFourCc::spec_from(c).spec_value() == c,
{
}

} // verus!
