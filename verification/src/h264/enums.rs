//! Code points of H.264 syntax elements.
use vstd::prelude::*;

use crate::fmt::{decimal, push_decimal};

verus! {

/// NAL unit types as defined by ISO/IEC 14496-10:2022 (Table 7-1).
#[derive(Debug, Clone, Copy, PartialEq, Eq, Structural)]
pub enum NALUnitType {
    /// Unspecified (not used in decoding).
    Unspecified1,
    /// Coded slice of a non-IDR picture.
    NonIDRSliceLayerWithoutPartitioning,
    /// Coded slice data partition A.
    SliceDataPartitionALayer,
    /// Coded slice data partition B.
    SliceDataPartitionBLayer,
    /// Coded slice data partition C.
    SliceDataPartitionCLayer,
    /// Coded slice of an IDR picture.
    IDRSliceLayerWithoutPartitioning,
    /// Supplemental enhancement information.
    SEI,
    /// Sequence parameter set.
    SPS,
    /// Picture parameter set.
    PPS,
    /// Access unit delimiter.
    AccessUnitDelimiter,
    /// End of sequence.
    EndOfSeq,
    /// End of stream.
    EndOfStream,
    /// Filler data.
    FillerData,
    /// Sequence parameter set extension.
    SPSExtension,
    /// Prefix NAL unit.
    PrefixNalUnit,
    /// Subset sequence parameter set.
    SubsetSPS,
    /// Depth parameter set.
    DepthParameterSet,
    /// Reserved.
    Reserved1,
    /// Reserved.
    Reserved2,
    /// Coded slice of an auxiliary coded picture.
    AuxCodedPictureSliceLayerWithoutPartitioning,
    /// Coded slice extension.
    SliceLayerExtension,
    /// Coded slice extension for a depth view component.
    SliceLayerExtension2,
    /// Reserved.
    Reserved3,
    /// Reserved.
    Reserved4,
    /// Unspecified.
    Unspecified2,
    /// A value without a name.
    Unknown(u8),
}

impl NALUnitType {
    /// The value that stands for `v`: its name, where it has one.
    pub open spec fn spec_from(v: u8) -> NALUnitType {
        match v {
            0 => NALUnitType::Unspecified1,
            1 => NALUnitType::NonIDRSliceLayerWithoutPartitioning,
            2 => NALUnitType::SliceDataPartitionALayer,
            3 => NALUnitType::SliceDataPartitionBLayer,
            4 => NALUnitType::SliceDataPartitionCLayer,
            5 => NALUnitType::IDRSliceLayerWithoutPartitioning,
            6 => NALUnitType::SEI,
            7 => NALUnitType::SPS,
            8 => NALUnitType::PPS,
            9 => NALUnitType::AccessUnitDelimiter,
            10 => NALUnitType::EndOfSeq,
            11 => NALUnitType::EndOfStream,
            12 => NALUnitType::FillerData,
            13 => NALUnitType::SPSExtension,
            14 => NALUnitType::PrefixNalUnit,
            15 => NALUnitType::SubsetSPS,
            16 => NALUnitType::DepthParameterSet,
            17 => NALUnitType::Reserved1,
            18 => NALUnitType::Reserved2,
            19 => NALUnitType::AuxCodedPictureSliceLayerWithoutPartitioning,
            20 => NALUnitType::SliceLayerExtension,
            21 => NALUnitType::SliceLayerExtension2,
            22 => NALUnitType::Reserved3,
            23 => NALUnitType::Reserved4,
            24 => NALUnitType::Unspecified2,
            _ => NALUnitType::Unknown(v),
        }
    }

    /// The number that the value stands for.
    pub open spec fn spec_value(self) -> u8 {
        match self {
            NALUnitType::Unspecified1 => 0,
            NALUnitType::NonIDRSliceLayerWithoutPartitioning => 1,
            NALUnitType::SliceDataPartitionALayer => 2,
            NALUnitType::SliceDataPartitionBLayer => 3,
            NALUnitType::SliceDataPartitionCLayer => 4,
            NALUnitType::IDRSliceLayerWithoutPartitioning => 5,
            NALUnitType::SEI => 6,
            NALUnitType::SPS => 7,
            NALUnitType::PPS => 8,
            NALUnitType::AccessUnitDelimiter => 9,
            NALUnitType::EndOfSeq => 10,
            NALUnitType::EndOfStream => 11,
            NALUnitType::FillerData => 12,
            NALUnitType::SPSExtension => 13,
            NALUnitType::PrefixNalUnit => 14,
            NALUnitType::SubsetSPS => 15,
            NALUnitType::DepthParameterSet => 16,
            NALUnitType::Reserved1 => 17,
            NALUnitType::Reserved2 => 18,
            NALUnitType::AuxCodedPictureSliceLayerWithoutPartitioning => 19,
            NALUnitType::SliceLayerExtension => 20,
            NALUnitType::SliceLayerExtension2 => 21,
            NALUnitType::Reserved3 => 22,
            NALUnitType::Reserved4 => 23,
            NALUnitType::Unspecified2 => 24,
            NALUnitType::Unknown(v) => v,
        }
    }

    /// Converts a number to its value.
    pub fn from(v: u8) -> (r: NALUnitType)
        ensures
            r == NALUnitType::spec_from(v),
    {
        match v {
            0 => NALUnitType::Unspecified1,
            1 => NALUnitType::NonIDRSliceLayerWithoutPartitioning,
            2 => NALUnitType::SliceDataPartitionALayer,
            3 => NALUnitType::SliceDataPartitionBLayer,
            4 => NALUnitType::SliceDataPartitionCLayer,
            5 => NALUnitType::IDRSliceLayerWithoutPartitioning,
            6 => NALUnitType::SEI,
            7 => NALUnitType::SPS,
            8 => NALUnitType::PPS,
            9 => NALUnitType::AccessUnitDelimiter,
            10 => NALUnitType::EndOfSeq,
            11 => NALUnitType::EndOfStream,
            12 => NALUnitType::FillerData,
            13 => NALUnitType::SPSExtension,
            14 => NALUnitType::PrefixNalUnit,
            15 => NALUnitType::SubsetSPS,
            16 => NALUnitType::DepthParameterSet,
            17 => NALUnitType::Reserved1,
            18 => NALUnitType::Reserved2,
            19 => NALUnitType::AuxCodedPictureSliceLayerWithoutPartitioning,
            20 => NALUnitType::SliceLayerExtension,
            21 => NALUnitType::SliceLayerExtension2,
            22 => NALUnitType::Reserved3,
            23 => NALUnitType::Reserved4,
            24 => NALUnitType::Unspecified2,
            _ => NALUnitType::Unknown(v),
        }
    }

    /// The number that the value stands for.
    pub fn value(&self) -> (r: u8)
        ensures
            r == self.spec_value(),
    {
        match self {
            NALUnitType::Unspecified1 => 0,
            NALUnitType::NonIDRSliceLayerWithoutPartitioning => 1,
            NALUnitType::SliceDataPartitionALayer => 2,
            NALUnitType::SliceDataPartitionBLayer => 3,
            NALUnitType::SliceDataPartitionCLayer => 4,
            NALUnitType::IDRSliceLayerWithoutPartitioning => 5,
            NALUnitType::SEI => 6,
            NALUnitType::SPS => 7,
            NALUnitType::PPS => 8,
            NALUnitType::AccessUnitDelimiter => 9,
            NALUnitType::EndOfSeq => 10,
            NALUnitType::EndOfStream => 11,
            NALUnitType::FillerData => 12,
            NALUnitType::SPSExtension => 13,
            NALUnitType::PrefixNalUnit => 14,
            NALUnitType::SubsetSPS => 15,
            NALUnitType::DepthParameterSet => 16,
            NALUnitType::Reserved1 => 17,
            NALUnitType::Reserved2 => 18,
            NALUnitType::AuxCodedPictureSliceLayerWithoutPartitioning => 19,
            NALUnitType::SliceLayerExtension => 20,
            NALUnitType::SliceLayerExtension2 => 21,
            NALUnitType::Reserved3 => 22,
            NALUnitType::Reserved4 => 23,
            NALUnitType::Unspecified2 => 24,
            NALUnitType::Unknown(v) => *v,
        }
    }

    /// The text that names the value: `Type::Name`, or `Type(number)` for a value without a name.
    pub open spec fn spec_debug_name(self) -> Seq<char> {
        match self {
            NALUnitType::Unspecified1 => "NALUnitType::Unspecified1"@,
            NALUnitType::NonIDRSliceLayerWithoutPartitioning => "NALUnitType::NonIDRSliceLayerWithoutPartitioning"@,
            NALUnitType::SliceDataPartitionALayer => "NALUnitType::SliceDataPartitionALayer"@,
            NALUnitType::SliceDataPartitionBLayer => "NALUnitType::SliceDataPartitionBLayer"@,
            NALUnitType::SliceDataPartitionCLayer => "NALUnitType::SliceDataPartitionCLayer"@,
            NALUnitType::IDRSliceLayerWithoutPartitioning => "NALUnitType::IDRSliceLayerWithoutPartitioning"@,
            NALUnitType::SEI => "NALUnitType::SEI"@,
            NALUnitType::SPS => "NALUnitType::SPS"@,
            NALUnitType::PPS => "NALUnitType::PPS"@,
            NALUnitType::AccessUnitDelimiter => "NALUnitType::AccessUnitDelimiter"@,
            NALUnitType::EndOfSeq => "NALUnitType::EndOfSeq"@,
            NALUnitType::EndOfStream => "NALUnitType::EndOfStream"@,
            NALUnitType::FillerData => "NALUnitType::FillerData"@,
            NALUnitType::SPSExtension => "NALUnitType::SPSExtension"@,
            NALUnitType::PrefixNalUnit => "NALUnitType::PrefixNalUnit"@,
            NALUnitType::SubsetSPS => "NALUnitType::SubsetSPS"@,
            NALUnitType::DepthParameterSet => "NALUnitType::DepthParameterSet"@,
            NALUnitType::Reserved1 => "NALUnitType::Reserved1"@,
            NALUnitType::Reserved2 => "NALUnitType::Reserved2"@,
            NALUnitType::AuxCodedPictureSliceLayerWithoutPartitioning => "NALUnitType::AuxCodedPictureSliceLayerWithoutPartitioning"@,
            NALUnitType::SliceLayerExtension => "NALUnitType::SliceLayerExtension"@,
            NALUnitType::SliceLayerExtension2 => "NALUnitType::SliceLayerExtension2"@,
            NALUnitType::Reserved3 => "NALUnitType::Reserved3"@,
            NALUnitType::Reserved4 => "NALUnitType::Reserved4"@,
            NALUnitType::Unspecified2 => "NALUnitType::Unspecified2"@,
            NALUnitType::Unknown(v) => "NALUnitType("@ + decimal(v as nat) + ")"@,
        }
    }

    /// The text that names the value: `Type::Name`, or `Type(number)` for a value without a name.
    pub fn debug_name(&self) -> (r: String)
        ensures
            r@ == self.spec_debug_name(),
    {
        match self {
            NALUnitType::Unspecified1 => String::from_str("NALUnitType::Unspecified1"),
            NALUnitType::NonIDRSliceLayerWithoutPartitioning => String::from_str("NALUnitType::NonIDRSliceLayerWithoutPartitioning"),
            NALUnitType::SliceDataPartitionALayer => String::from_str("NALUnitType::SliceDataPartitionALayer"),
            NALUnitType::SliceDataPartitionBLayer => String::from_str("NALUnitType::SliceDataPartitionBLayer"),
            NALUnitType::SliceDataPartitionCLayer => String::from_str("NALUnitType::SliceDataPartitionCLayer"),
            NALUnitType::IDRSliceLayerWithoutPartitioning => String::from_str("NALUnitType::IDRSliceLayerWithoutPartitioning"),
            NALUnitType::SEI => String::from_str("NALUnitType::SEI"),
            NALUnitType::SPS => String::from_str("NALUnitType::SPS"),
            NALUnitType::PPS => String::from_str("NALUnitType::PPS"),
            NALUnitType::AccessUnitDelimiter => String::from_str("NALUnitType::AccessUnitDelimiter"),
            NALUnitType::EndOfSeq => String::from_str("NALUnitType::EndOfSeq"),
            NALUnitType::EndOfStream => String::from_str("NALUnitType::EndOfStream"),
            NALUnitType::FillerData => String::from_str("NALUnitType::FillerData"),
            NALUnitType::SPSExtension => String::from_str("NALUnitType::SPSExtension"),
            NALUnitType::PrefixNalUnit => String::from_str("NALUnitType::PrefixNalUnit"),
            NALUnitType::SubsetSPS => String::from_str("NALUnitType::SubsetSPS"),
            NALUnitType::DepthParameterSet => String::from_str("NALUnitType::DepthParameterSet"),
            NALUnitType::Reserved1 => String::from_str("NALUnitType::Reserved1"),
            NALUnitType::Reserved2 => String::from_str("NALUnitType::Reserved2"),
            NALUnitType::AuxCodedPictureSliceLayerWithoutPartitioning => String::from_str("NALUnitType::AuxCodedPictureSliceLayerWithoutPartitioning"),
            NALUnitType::SliceLayerExtension => String::from_str("NALUnitType::SliceLayerExtension"),
            NALUnitType::SliceLayerExtension2 => String::from_str("NALUnitType::SliceLayerExtension2"),
            NALUnitType::Reserved3 => String::from_str("NALUnitType::Reserved3"),
            NALUnitType::Reserved4 => String::from_str("NALUnitType::Reserved4"),
            NALUnitType::Unspecified2 => String::from_str("NALUnitType::Unspecified2"),
            NALUnitType::Unknown(v) => {
                let mut s = String::from_str("NALUnitType(");
                push_decimal(&mut s, *v as u64);
                s.append(")");
                s
            },
        }
    }
}
/// `aspect_ratio_idc` as defined in ISO/IEC-14496-10-2022 - E.2.1 Table E-1.
#[derive(Debug, Clone, Copy, PartialEq, Eq, Structural)]
pub enum AspectRatioIdc {
    /// 0: unspecified.
    Unspecified,
    /// 1: 1:1 (square).
    Square,
    /// 2: 12:11.
    Aspect12_11,
    /// 3: 10:11.
    Aspect10_11,
    /// 4: 16:11.
    Aspect16_11,
    /// 5: 40:33.
    Aspect40_33,
    /// 6: 24:11.
    Aspect24_11,
    /// 7: 20:11.
    Aspect20_11,
    /// 8: 32:11.
    Aspect32_11,
    /// 9: 80:33.
    Aspect80_33,
    /// 10: 18:11.
    Aspect18_11,
    /// 11: 15:11.
    Aspect15_11,
    /// 12: 64:33.
    Aspect64_33,
    /// 13: 160:99.
    Aspect160_99,
    /// 14: 4:3.
    Aspect4_3,
    /// 15: 3:2.
    Aspect3_2,
    /// 16: 2:1.
    Aspect2_1,
    /// 17: reserved (17 to 254 are reserved; only 17 has this name).
    Reserved,
    /// 255: the sample aspect ratio follows as `sar_width` and `sar_height`.
    ExtendedSar,
    /// A value without a name.
    Unknown(u8),
}

impl AspectRatioIdc {
    /// The value that stands for `v`: its name, where it has one.
    pub open spec fn spec_from(v: u8) -> AspectRatioIdc {
        match v {
            0 => AspectRatioIdc::Unspecified,
            1 => AspectRatioIdc::Square,
            2 => AspectRatioIdc::Aspect12_11,
            3 => AspectRatioIdc::Aspect10_11,
            4 => AspectRatioIdc::Aspect16_11,
            5 => AspectRatioIdc::Aspect40_33,
            6 => AspectRatioIdc::Aspect24_11,
            7 => AspectRatioIdc::Aspect20_11,
            8 => AspectRatioIdc::Aspect32_11,
            9 => AspectRatioIdc::Aspect80_33,
            10 => AspectRatioIdc::Aspect18_11,
            11 => AspectRatioIdc::Aspect15_11,
            12 => AspectRatioIdc::Aspect64_33,
            13 => AspectRatioIdc::Aspect160_99,
            14 => AspectRatioIdc::Aspect4_3,
            15 => AspectRatioIdc::Aspect3_2,
            16 => AspectRatioIdc::Aspect2_1,
            17 => AspectRatioIdc::Reserved,
            255 => AspectRatioIdc::ExtendedSar,
            _ => AspectRatioIdc::Unknown(v),
        }
    }

    /// The number that the value stands for.
    pub open spec fn spec_value(self) -> u8 {
        match self {
            AspectRatioIdc::Unspecified => 0,
            AspectRatioIdc::Square => 1,
            AspectRatioIdc::Aspect12_11 => 2,
            AspectRatioIdc::Aspect10_11 => 3,
            AspectRatioIdc::Aspect16_11 => 4,
            AspectRatioIdc::Aspect40_33 => 5,
            AspectRatioIdc::Aspect24_11 => 6,
            AspectRatioIdc::Aspect20_11 => 7,
            AspectRatioIdc::Aspect32_11 => 8,
            AspectRatioIdc::Aspect80_33 => 9,
            AspectRatioIdc::Aspect18_11 => 10,
            AspectRatioIdc::Aspect15_11 => 11,
            AspectRatioIdc::Aspect64_33 => 12,
            AspectRatioIdc::Aspect160_99 => 13,
            AspectRatioIdc::Aspect4_3 => 14,
            AspectRatioIdc::Aspect3_2 => 15,
            AspectRatioIdc::Aspect2_1 => 16,
            AspectRatioIdc::Reserved => 17,
            AspectRatioIdc::ExtendedSar => 255,
            AspectRatioIdc::Unknown(v) => v,
        }
    }

    /// Converts a number to its value.
    pub fn from(v: u8) -> (r: AspectRatioIdc)
        ensures
            r == AspectRatioIdc::spec_from(v),
    {
        match v {
            0 => AspectRatioIdc::Unspecified,
            1 => AspectRatioIdc::Square,
            2 => AspectRatioIdc::Aspect12_11,
            3 => AspectRatioIdc::Aspect10_11,
            4 => AspectRatioIdc::Aspect16_11,
            5 => AspectRatioIdc::Aspect40_33,
            6 => AspectRatioIdc::Aspect24_11,
            7 => AspectRatioIdc::Aspect20_11,
            8 => AspectRatioIdc::Aspect32_11,
            9 => AspectRatioIdc::Aspect80_33,
            10 => AspectRatioIdc::Aspect18_11,
            11 => AspectRatioIdc::Aspect15_11,
            12 => AspectRatioIdc::Aspect64_33,
            13 => AspectRatioIdc::Aspect160_99,
            14 => AspectRatioIdc::Aspect4_3,
            15 => AspectRatioIdc::Aspect3_2,
            16 => AspectRatioIdc::Aspect2_1,
            17 => AspectRatioIdc::Reserved,
            255 => AspectRatioIdc::ExtendedSar,
            _ => AspectRatioIdc::Unknown(v),
        }
    }

    /// The number that the value stands for.
    pub fn value(&self) -> (r: u8)
        ensures
            r == self.spec_value(),
    {
        match self {
            AspectRatioIdc::Unspecified => 0,
            AspectRatioIdc::Square => 1,
            AspectRatioIdc::Aspect12_11 => 2,
            AspectRatioIdc::Aspect10_11 => 3,
            AspectRatioIdc::Aspect16_11 => 4,
            AspectRatioIdc::Aspect40_33 => 5,
            AspectRatioIdc::Aspect24_11 => 6,
            AspectRatioIdc::Aspect20_11 => 7,
            AspectRatioIdc::Aspect32_11 => 8,
            AspectRatioIdc::Aspect80_33 => 9,
            AspectRatioIdc::Aspect18_11 => 10,
            AspectRatioIdc::Aspect15_11 => 11,
            AspectRatioIdc::Aspect64_33 => 12,
            AspectRatioIdc::Aspect160_99 => 13,
            AspectRatioIdc::Aspect4_3 => 14,
            AspectRatioIdc::Aspect3_2 => 15,
            AspectRatioIdc::Aspect2_1 => 16,
            AspectRatioIdc::Reserved => 17,
            AspectRatioIdc::ExtendedSar => 255,
            AspectRatioIdc::Unknown(v) => *v,
        }
    }

    /// The text that names the value: `Type::Name`, or `Type(number)` for a value without a name.
    pub open spec fn spec_debug_name(self) -> Seq<char> {
        match self {
            AspectRatioIdc::Unspecified => "AspectRatioIdc::Unspecified"@,
            AspectRatioIdc::Square => "AspectRatioIdc::Square"@,
            AspectRatioIdc::Aspect12_11 => "AspectRatioIdc::Aspect12_11"@,
            AspectRatioIdc::Aspect10_11 => "AspectRatioIdc::Aspect10_11"@,
            AspectRatioIdc::Aspect16_11 => "AspectRatioIdc::Aspect16_11"@,
            AspectRatioIdc::Aspect40_33 => "AspectRatioIdc::Aspect40_33"@,
            AspectRatioIdc::Aspect24_11 => "AspectRatioIdc::Aspect24_11"@,
            AspectRatioIdc::Aspect20_11 => "AspectRatioIdc::Aspect20_11"@,
            AspectRatioIdc::Aspect32_11 => "AspectRatioIdc::Aspect32_11"@,
            AspectRatioIdc::Aspect80_33 => "AspectRatioIdc::Aspect80_33"@,
            AspectRatioIdc::Aspect18_11 => "AspectRatioIdc::Aspect18_11"@,
            AspectRatioIdc::Aspect15_11 => "AspectRatioIdc::Aspect15_11"@,
            AspectRatioIdc::Aspect64_33 => "AspectRatioIdc::Aspect64_33"@,
            AspectRatioIdc::Aspect160_99 => "AspectRatioIdc::Aspect160_99"@,
            AspectRatioIdc::Aspect4_3 => "AspectRatioIdc::Aspect4_3"@,
            AspectRatioIdc::Aspect3_2 => "AspectRatioIdc::Aspect3_2"@,
            AspectRatioIdc::Aspect2_1 => "AspectRatioIdc::Aspect2_1"@,
            AspectRatioIdc::Reserved => "AspectRatioIdc::Reserved"@,
            AspectRatioIdc::ExtendedSar => "AspectRatioIdc::ExtendedSar"@,
            AspectRatioIdc::Unknown(v) => "AspectRatioIdc("@ + decimal(v as nat) + ")"@,
        }
    }

    /// The text that names the value: `Type::Name`, or `Type(number)` for a value without a name.
    pub fn debug_name(&self) -> (r: String)
        ensures
            r@ == self.spec_debug_name(),
    {
        match self {
            AspectRatioIdc::Unspecified => String::from_str("AspectRatioIdc::Unspecified"),
            AspectRatioIdc::Square => String::from_str("AspectRatioIdc::Square"),
            AspectRatioIdc::Aspect12_11 => String::from_str("AspectRatioIdc::Aspect12_11"),
            AspectRatioIdc::Aspect10_11 => String::from_str("AspectRatioIdc::Aspect10_11"),
            AspectRatioIdc::Aspect16_11 => String::from_str("AspectRatioIdc::Aspect16_11"),
            AspectRatioIdc::Aspect40_33 => String::from_str("AspectRatioIdc::Aspect40_33"),
            AspectRatioIdc::Aspect24_11 => String::from_str("AspectRatioIdc::Aspect24_11"),
            AspectRatioIdc::Aspect20_11 => String::from_str("AspectRatioIdc::Aspect20_11"),
            AspectRatioIdc::Aspect32_11 => String::from_str("AspectRatioIdc::Aspect32_11"),
            AspectRatioIdc::Aspect80_33 => String::from_str("AspectRatioIdc::Aspect80_33"),
            AspectRatioIdc::Aspect18_11 => String::from_str("AspectRatioIdc::Aspect18_11"),
            AspectRatioIdc::Aspect15_11 => String::from_str("AspectRatioIdc::Aspect15_11"),
            AspectRatioIdc::Aspect64_33 => String::from_str("AspectRatioIdc::Aspect64_33"),
            AspectRatioIdc::Aspect160_99 => String::from_str("AspectRatioIdc::Aspect160_99"),
            AspectRatioIdc::Aspect4_3 => String::from_str("AspectRatioIdc::Aspect4_3"),
            AspectRatioIdc::Aspect3_2 => String::from_str("AspectRatioIdc::Aspect3_2"),
            AspectRatioIdc::Aspect2_1 => String::from_str("AspectRatioIdc::Aspect2_1"),
            AspectRatioIdc::Reserved => String::from_str("AspectRatioIdc::Reserved"),
            AspectRatioIdc::ExtendedSar => String::from_str("AspectRatioIdc::ExtendedSar"),
            AspectRatioIdc::Unknown(v) => {
                let mut s = String::from_str("AspectRatioIdc(");
                push_decimal(&mut s, *v as u64);
                s.append(")");
                s
            },
        }
    }
}
/// `video_format` as defined in ISO/IEC-14496-10-2022 - E.2.1 Table E-2.
#[derive(Debug, Clone, Copy, PartialEq, Eq, Structural)]
pub enum VideoFormat {
    /// Component.
    Component,
    /// PAL.
    PAL,
    /// NTSC.
    NTSC,
    /// SECAM.
    SECAM,
    /// MAC.
    MAC,
    /// Unspecified video format.
    Unspecified,
    /// Reserved.
    Reserved1,
    /// Reserved.
    Reserved2,
    /// A value without a name.
    Unknown(u8),
}

impl VideoFormat {
    /// The value that stands for `v`: its name, where it has one.
    pub open spec fn spec_from(v: u8) -> VideoFormat {
        match v {
            0 => VideoFormat::Component,
            1 => VideoFormat::PAL,
            2 => VideoFormat::NTSC,
            3 => VideoFormat::SECAM,
            4 => VideoFormat::MAC,
            5 => VideoFormat::Unspecified,
            6 => VideoFormat::Reserved1,
            7 => VideoFormat::Reserved2,
            _ => VideoFormat::Unknown(v),
        }
    }

    /// The number that the value stands for.
    pub open spec fn spec_value(self) -> u8 {
        match self {
            VideoFormat::Component => 0,
            VideoFormat::PAL => 1,
            VideoFormat::NTSC => 2,
            VideoFormat::SECAM => 3,
            VideoFormat::MAC => 4,
            VideoFormat::Unspecified => 5,
            VideoFormat::Reserved1 => 6,
            VideoFormat::Reserved2 => 7,
            VideoFormat::Unknown(v) => v,
        }
    }

    /// Converts a number to its value.
    pub fn from(v: u8) -> (r: VideoFormat)
        ensures
            r == VideoFormat::spec_from(v),
    {
        match v {
            0 => VideoFormat::Component,
            1 => VideoFormat::PAL,
            2 => VideoFormat::NTSC,
            3 => VideoFormat::SECAM,
            4 => VideoFormat::MAC,
            5 => VideoFormat::Unspecified,
            6 => VideoFormat::Reserved1,
            7 => VideoFormat::Reserved2,
            _ => VideoFormat::Unknown(v),
        }
    }

    /// The number that the value stands for.
    pub fn value(&self) -> (r: u8)
        ensures
            r == self.spec_value(),
    {
        match self {
            VideoFormat::Component => 0,
            VideoFormat::PAL => 1,
            VideoFormat::NTSC => 2,
            VideoFormat::SECAM => 3,
            VideoFormat::MAC => 4,
            VideoFormat::Unspecified => 5,
            VideoFormat::Reserved1 => 6,
            VideoFormat::Reserved2 => 7,
            VideoFormat::Unknown(v) => *v,
        }
    }

    /// The text that names the value: `Type::Name`, or `Type(number)` for a value without a name.
    pub open spec fn spec_debug_name(self) -> Seq<char> {
        match self {
            VideoFormat::Component => "VideoFormat::Component"@,
            VideoFormat::PAL => "VideoFormat::PAL"@,
            VideoFormat::NTSC => "VideoFormat::NTSC"@,
            VideoFormat::SECAM => "VideoFormat::SECAM"@,
            VideoFormat::MAC => "VideoFormat::MAC"@,
            VideoFormat::Unspecified => "VideoFormat::Unspecified"@,
            VideoFormat::Reserved1 => "VideoFormat::Reserved1"@,
            VideoFormat::Reserved2 => "VideoFormat::Reserved2"@,
            VideoFormat::Unknown(v) => "VideoFormat("@ + decimal(v as nat) + ")"@,
        }
    }

    /// The text that names the value: `Type::Name`, or `Type(number)` for a value without a name.
    pub fn debug_name(&self) -> (r: String)
        ensures
            r@ == self.spec_debug_name(),
    {
        match self {
            VideoFormat::Component => String::from_str("VideoFormat::Component"),
            VideoFormat::PAL => String::from_str("VideoFormat::PAL"),
            VideoFormat::NTSC => String::from_str("VideoFormat::NTSC"),
            VideoFormat::SECAM => String::from_str("VideoFormat::SECAM"),
            VideoFormat::MAC => String::from_str("VideoFormat::MAC"),
            VideoFormat::Unspecified => String::from_str("VideoFormat::Unspecified"),
            VideoFormat::Reserved1 => String::from_str("VideoFormat::Reserved1"),
            VideoFormat::Reserved2 => String::from_str("VideoFormat::Reserved2"),
            VideoFormat::Unknown(v) => {
                let mut s = String::from_str("VideoFormat(");
                push_decimal(&mut s, *v as u64);
                s.append(")");
                s
            },
        }
    }
}
/// Every number reads as a value whose number it is: no number is lost.
pub proof fn lemma_h264_numbers_kept(v: u8)
    ensures
        NALUnitType::spec_from(v).spec_value() == v,
        AspectRatioIdc::spec_from(v).spec_value() == v,
        VideoFormat::spec_from(v).spec_value() == v,
{
}

} // verus!
