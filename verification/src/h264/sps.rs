//! The sequence parameter set (ISO/IEC-14496-10-2022 - 7.3.2.1.1), with the video usability
//! information that gives the frame rate (E.1.1).
use vstd::prelude::*;

use crate::bits::{
    bit_at, bits_at, bits_of_bytes, byte_at, nat_bits, read_result_view, skip_at, BitReader,
    BitWriter,
};
use crate::error::IoError;
use crate::expgolomb::{read_exp_golomb, ue_at, ue_bits, write_exp_golomb};
use crate::h264::emulation::{rbsp, remove_emulation_prevention};
use crate::h264::enums::NALUnitType;
use crate::h264::sps_ext::{spec_sps_extended, SpsExtended, SpsExtendedView};
use crate::h264::sps_parts::{
    spec_chroma_sample_loc, spec_color_config, spec_frame_crop_info, spec_pic_order_count_type1,
    spec_sar_dimensions, spec_timing_info, ChromaSampleLoc, ColorConfig, FrameCropInfo,
    PicOrderCountType1, PicOrderCountType1View, SarDimensions, TimingInfo,
};

verus! {

/// The Sequence Parameter Set. ISO/IEC-14496-10-2022 - 7.3.2
#[derive(Debug, Clone, PartialEq, Eq)]
pub struct Sps {
    /// `forbidden_zero_bit`; parsing refuses a set bit.
    pub forbidden_zero_bit: bool,
    /// `nal_ref_idc` (two bits).
    pub nal_ref_idc: u8,
    /// `nal_unit_type` (five bits); parsing refuses anything but SPS.
    pub nal_unit_type: NALUnitType,
    /// `profile_idc`.
    pub profile_idc: u8,
    /// `constraint_set0_flag`; false for profiles 44, 100, 110, 122 and 244.
    pub constraint_set0_flag: bool,
    /// `constraint_set1_flag`; false for profiles 44, 100, 110, 122 and 244.
    pub constraint_set1_flag: bool,
    /// `constraint_set2_flag`; false for profiles 44, 100, 110, 122 and 244.
    pub constraint_set2_flag: bool,
    /// `constraint_set3_flag`; false for profile 44.
    pub constraint_set3_flag: bool,
    /// `constraint_set4_flag`; read for profiles 77, 88, 100, 118, 128 and 134, else false.
    pub constraint_set4_flag: bool,
    /// `constraint_set5_flag`; read for profiles 77, 88, 100 and 118, else false.
    pub constraint_set5_flag: bool,
    /// `level_idc`.
    pub level_idc: u8,
    /// `seq_parameter_set_id`.
    pub seq_parameter_set_id: u16,
    /// The extension, for the profiles that carry one.
    pub ext: Option<SpsExtended>,
    /// `log2_max_frame_num_minus4`.
    pub log2_max_frame_num_minus4: u8,
    /// `pic_order_cnt_type`.
    pub pic_order_cnt_type: u8,
    /// `log2_max_pic_order_cnt_lsb_minus4`; present when `pic_order_cnt_type == 0`.
    pub log2_max_pic_order_cnt_lsb_minus4: Option<u8>,
    /// The fields present when `pic_order_cnt_type == 1`.
    pub pic_order_cnt_type1: Option<PicOrderCountType1>,
    /// `max_num_ref_frames`.
    pub max_num_ref_frames: u8,
    /// `gaps_in_frame_num_value_allowed_flag`.
    pub gaps_in_frame_num_value_allowed_flag: bool,
    /// `pic_width_in_mbs_minus1`.
    pub pic_width_in_mbs_minus1: u64,
    /// `pic_height_in_map_units_minus1`.
    pub pic_height_in_map_units_minus1: u64,
    /// `mb_adaptive_frame_field_flag`; present exactly when `frame_mbs_only_flag` is unset.
    pub mb_adaptive_frame_field_flag: Option<bool>,
    /// `direct_8x8_inference_flag`.
    pub direct_8x8_inference_flag: bool,
    /// The crop offsets, when `frame_cropping_flag` is set.
    pub frame_crop_info: Option<FrameCropInfo>,
    /// The sample aspect ratio, when `aspect_ratio_info_present_flag` is set.
    pub sample_aspect_ratio: Option<SarDimensions>,
    /// `overscan_appropriate_flag`, when `overscan_info_present_flag` is set.
    pub overscan_appropriate_flag: Option<bool>,
    /// The colour description, when `video_signal_type_present_flag` is set.
    pub color_config: Option<ColorConfig>,
    /// The chroma sample locations, when `chroma_loc_info_present_flag` is set.
    pub chroma_sample_loc: Option<ChromaSampleLoc>,
    /// The timing, when `timing_info_present_flag` is set.
    pub timing_info: Option<TimingInfo>,
}

/// The mathematical value of an [`Sps`].
pub struct SpsView {
    pub forbidden_zero_bit: bool,
    pub nal_ref_idc: u8,
    pub nal_unit_type: NALUnitType,
    pub profile_idc: u8,
    pub constraint_set0_flag: bool,
    pub constraint_set1_flag: bool,
    pub constraint_set2_flag: bool,
    pub constraint_set3_flag: bool,
    pub constraint_set4_flag: bool,
    pub constraint_set5_flag: bool,
    pub level_idc: u8,
    pub seq_parameter_set_id: u16,
    pub ext: Option<SpsExtendedView>,
    pub log2_max_frame_num_minus4: u8,
    pub pic_order_cnt_type: u8,
    pub log2_max_pic_order_cnt_lsb_minus4: Option<u8>,
    pub pic_order_cnt_type1: Option<PicOrderCountType1View>,
    pub max_num_ref_frames: u8,
    pub gaps_in_frame_num_value_allowed_flag: bool,
    pub pic_width_in_mbs_minus1: u64,
    pub pic_height_in_map_units_minus1: u64,
    pub mb_adaptive_frame_field_flag: Option<bool>,
    pub direct_8x8_inference_flag: bool,
    pub frame_crop_info: Option<FrameCropInfo>,
    pub sample_aspect_ratio: Option<SarDimensions>,
    pub overscan_appropriate_flag: Option<bool>,
    pub color_config: Option<ColorConfig>,
    pub chroma_sample_loc: Option<ChromaSampleLoc>,
    pub timing_info: Option<TimingInfo>,
}

pub open spec fn ext_view(e: Option<SpsExtended>) -> Option<SpsExtendedView> {
    match e {
        Some(x) => Some(x@),
        None => None,
    }
}

pub open spec fn poc1_view(e: Option<PicOrderCountType1>) -> Option<PicOrderCountType1View> {
    match e {
        Some(x) => Some(x@),
        None => None,
    }
}

impl View for Sps {
    type V = SpsView;

    open spec fn view(&self) -> SpsView {
        SpsView {
            forbidden_zero_bit: self.forbidden_zero_bit,
            nal_ref_idc: self.nal_ref_idc,
            nal_unit_type: self.nal_unit_type,
            profile_idc: self.profile_idc,
            constraint_set0_flag: self.constraint_set0_flag,
            constraint_set1_flag: self.constraint_set1_flag,
            constraint_set2_flag: self.constraint_set2_flag,
            constraint_set3_flag: self.constraint_set3_flag,
            constraint_set4_flag: self.constraint_set4_flag,
            constraint_set5_flag: self.constraint_set5_flag,
            level_idc: self.level_idc,
            seq_parameter_set_id: self.seq_parameter_set_id,
            ext: ext_view(self.ext),
            log2_max_frame_num_minus4: self.log2_max_frame_num_minus4,
            pic_order_cnt_type: self.pic_order_cnt_type,
            log2_max_pic_order_cnt_lsb_minus4: self.log2_max_pic_order_cnt_lsb_minus4,
            pic_order_cnt_type1: poc1_view(self.pic_order_cnt_type1),
            max_num_ref_frames: self.max_num_ref_frames,
            gaps_in_frame_num_value_allowed_flag: self.gaps_in_frame_num_value_allowed_flag,
            pic_width_in_mbs_minus1: self.pic_width_in_mbs_minus1,
            pic_height_in_map_units_minus1: self.pic_height_in_map_units_minus1,
            mb_adaptive_frame_field_flag: self.mb_adaptive_frame_field_flag,
            direct_8x8_inference_flag: self.direct_8x8_inference_flag,
            frame_crop_info: self.frame_crop_info,
            sample_aspect_ratio: self.sample_aspect_ratio,
            overscan_appropriate_flag: self.overscan_appropriate_flag,
            color_config: self.color_config,
            chroma_sample_loc: self.chroma_sample_loc,
            timing_info: self.timing_info,
        }
    }
}

/// Reads a flag, or skips its bit and gives `false` when the profile does not use it.
pub open spec fn flag_or_skip(b: Seq<bool>, p: int, read: bool) -> Result<(bool, int), IoError> {
    if read {
        bit_at(b, p)
    } else {
        match skip_at(b, p, 1) {
            Ok(q) => Ok((false, q)),
            Err(e) => Err(e),
        }
    }
}

/// Profiles whose `constraint_set0_flag` to `constraint_set2_flag` are skipped.
pub open spec fn skips_flags012(profile: u8) -> bool {
    profile == 44 || profile == 100 || profile == 110 || profile == 122 || profile == 244
}

/// Profiles whose `constraint_set4_flag` is read.
pub open spec fn reads_flag4(profile: u8) -> bool {
    profile == 77 || profile == 88 || profile == 100 || profile == 118 || profile == 128
        || profile == 134
}

/// Profiles whose `constraint_set5_flag` is read.
pub open spec fn reads_flag5(profile: u8) -> bool {
    profile == 77 || profile == 88 || profile == 100 || profile == 118
}

/// Profiles that carry an SPS extension.
pub open spec fn has_sps_ext(profile: u8) -> bool {
    profile == 100 || profile == 110 || profile == 122 || profile == 244 || profile == 44
        || profile == 83 || profile == 86 || profile == 118 || profile == 128 || profile == 138
        || profile == 139 || profile == 134 || profile == 135
}

/// Reads the six constraint flags and the two reserved bits for a profile.
pub open spec fn spec_constraint_flags(b: Seq<bool>, p: int, profile: u8) -> Result<
    ((bool, bool, bool, bool, bool, bool), int),
    IoError,
> {
    let first: Result<((bool, bool, bool), int), IoError> = if skips_flags012(profile) {
        match skip_at(b, p, 3) {
            Ok(q) => Ok(((false, false, false), q)),
            Err(e) => Err(e),
        }
    } else {
        match bit_at(b, p) {
            Err(e) => Err(e),
            Ok((c0, q0)) => match bit_at(b, q0) {
                Err(e) => Err(e),
                Ok((c1, q1)) => match bit_at(b, q1) {
                    Err(e) => Err(e),
                    Ok((c2, q2)) => Ok(((c0, c1, c2), q2)),
                },
            },
        }
    };
    match first {
        Err(e) => Err(e),
        Ok(((c0, c1, c2), p3)) => match flag_or_skip(b, p3, profile != 44) {
            Err(e) => Err(e),
            Ok((c3, p4)) => match flag_or_skip(b, p4, reads_flag4(profile)) {
                Err(e) => Err(e),
                Ok((c4, p5)) => match flag_or_skip(b, p5, reads_flag5(profile)) {
                    Err(e) => Err(e),
                    Ok((c5, p6)) => match skip_at(b, p6, 2) {
                        Err(e) => Err(e),
                        Ok(p7) => Ok(((c0, c1, c2, c3, c4, c5), p7)),
                    },
                },
            },
        },
    }
}

/// Reads the NAL unit header, the profile, the constraint flags, the level and the SPS id.
pub open spec fn spec_sps_head(b: Seq<bool>, s: SpsView) -> Result<(SpsView, int), IoError> {
    match bit_at(b, 0) {
        Err(e) => Err(e),
        Ok((fz, p1)) => if fz {
            Err(IoError::ForbiddenZeroBit)
        } else {
            match bits_at(b, p1, 2) {
                Err(e) => Err(e),
                Ok((nri, p2)) => match bits_at(b, p2, 5) {
                    Err(e) => Err(e),
                    Ok((nut, p3)) => if nut as u8 != 7 {
                        Err(IoError::NotSps)
                    } else {
                        match byte_at(b, p3) {
                            Err(e) => Err(e),
                            Ok((prof, p4)) => match spec_constraint_flags(b, p4, prof) {
                                Err(e) => Err(e),
                                Ok(((c0, c1, c2, c3, c4, c5), p5)) => match byte_at(b, p5) {
                                    Err(e) => Err(e),
                                    Ok((level, p6)) => match ue_at(b, p6) {
                                        Err(e) => Err(e),
                                        Ok((id, p7)) => Ok(
                                            (
                                                SpsView {
                                                    forbidden_zero_bit: false,
                                                    nal_ref_idc: nri as u8,
                                                    nal_unit_type: NALUnitType::spec_from(nut as u8),
                                                    profile_idc: prof,
                                                    constraint_set0_flag: c0,
                                                    constraint_set1_flag: c1,
                                                    constraint_set2_flag: c2,
                                                    constraint_set3_flag: c3,
                                                    constraint_set4_flag: c4,
                                                    constraint_set5_flag: c5,
                                                    level_idc: level,
                                                    seq_parameter_set_id: id as u16,
                                                    ..s
                                                },
                                                p7,
                                            ),
                                        ),
                                    },
                                },
                            },
                        }
                    },
                },
            }
        },
    }
}

/// Reads the SPS extension when the profile carries one.
pub open spec fn spec_sps_ext_stage(b: Seq<bool>, p: int, s: SpsView) -> Result<(SpsView, int), IoError> {
    if has_sps_ext(s.profile_idc) {
        match spec_sps_extended(b, p) {
            Err(e) => Err(e),
            Ok((e, q)) => Ok((SpsView { ext: Some(e), ..s }, q)),
        }
    } else {
        Ok((SpsView { ext: None, ..s }, p))
    }
}

/// Reads the frame numbering, the picture order count fields and the reference frame count.
pub open spec fn spec_sps_order(b: Seq<bool>, p: int, s: SpsView) -> Result<(SpsView, int), IoError> {
    match ue_at(b, p) {
        Err(e) => Err(e),
        Ok((fnum, p1)) => match ue_at(b, p1) {
            Err(e) => Err(e),
            Ok((poc, p2)) => {
                let poc = poc as u8;
                let fields: Result<((Option<u8>, Option<PicOrderCountType1View>), int), IoError> =
                    if poc == 0 {
                    match ue_at(b, p2) {
                        Err(e) => Err(e),
                        Ok((lsb, q)) => Ok(((Some(lsb as u8), None), q)),
                    }
                } else if poc == 1 {
                    match spec_pic_order_count_type1(b, p2) {
                        Err(e) => Err(e),
                        Ok((t1, q)) => Ok(((None, Some(t1)), q)),
                    }
                } else {
                    Ok(((None, None), p2))
                };
                match fields {
                    Err(e) => Err(e),
                    Ok(((lsb, t1), p3)) => match ue_at(b, p3) {
                        Err(e) => Err(e),
                        Ok((refs, p4)) => Ok(
                            (
                                SpsView {
                                    log2_max_frame_num_minus4: fnum as u8,
                                    pic_order_cnt_type: poc,
                                    log2_max_pic_order_cnt_lsb_minus4: lsb,
                                    pic_order_cnt_type1: t1,
                                    max_num_ref_frames: refs as u8,
                                    ..s
                                },
                                p4,
                            ),
                        ),
                    },
                }
            },
        },
    }
}

/// Reads the frame size, the field flags and the crop offsets.
pub open spec fn spec_sps_frame(b: Seq<bool>, p: int, s: SpsView) -> Result<(SpsView, int), IoError> {
    match bit_at(b, p) {
        Err(e) => Err(e),
        Ok((gaps, p1)) => match ue_at(b, p1) {
            Err(e) => Err(e),
            Ok((w, p2)) => match ue_at(b, p2) {
                Err(e) => Err(e),
                Ok((h, p3)) => match bit_at(b, p3) {
                    Err(e) => Err(e),
                    Ok((frame_mbs_only, p4)) => match (if !frame_mbs_only {
                        match bit_at(b, p4) {
                            Err(e) => Err(e),
                            Ok((f, q)) => Ok((Some(f), q)),
                        }
                    } else {
                        Ok((None, p4))
                    }) {
                        Err(e) => Err(e),
                        Ok((mbaff, p5)) => match bit_at(b, p5) {
                            Err(e) => Err(e),
                            Ok((direct, p6)) => match bit_at(b, p6) {
                                Err(e) => Err(e),
                                Ok((cropping, p7)) => match (if cropping {
                                    match spec_frame_crop_info(b, p7) {
                                        Err(e) => Err(e),
                                        Ok((c, q)) => Ok((Some(c), q)),
                                    }
                                } else {
                                    Ok((None, p7))
                                }) {
                                    Err(e) => Err(e),
                                    Ok((crop, p8)) => Ok(
                                        (
                                            SpsView {
                                                gaps_in_frame_num_value_allowed_flag: gaps,
                                                pic_width_in_mbs_minus1: w,
                                                pic_height_in_map_units_minus1: h,
                                                mb_adaptive_frame_field_flag: mbaff,
                                                direct_8x8_inference_flag: direct,
                                                frame_crop_info: crop,
                                                ..s
                                            },
                                            p8,
                                        ),
                                    ),
                                },
                            },
                        },
                    },
                },
            },
        },
    }
}

/// Reads a part that a presence flag announces.
pub open spec fn optional_part<T>(b: Seq<bool>, p: int, part: Result<(T, int), IoError>, present: bool) -> Result<
    (Option<T>, int),
    IoError,
> {
    if present {
        match part {
            Err(e) => Err(e),
            Ok((v, q)) => Ok((Some(v), q)),
        }
    } else {
        Ok((None, p))
    }
}

/// The `chroma_format_idc` that governs the VUI: the extension's, or 1 by default.
pub open spec fn chroma_format_of(s: SpsView) -> u8 {
    match s.ext {
        Some(e) => e.chroma_format_idc,
        None => 1,
    }
}

/// Reads the aspect ratio, the overscan flag and the colour description of the VUI.
pub open spec fn spec_vui_first(b: Seq<bool>, p: int, s: SpsView) -> Result<(SpsView, int), IoError> {
    match bit_at(b, p) {
        Err(e) => Err(e),
        Ok((ar, p1)) => match optional_part(b, p1, spec_sar_dimensions(b, p1), ar) {
            Err(e) => Err(e),
            Ok((sar, p2)) => match bit_at(b, p2) {
                Err(e) => Err(e),
                Ok((os, p3)) => match optional_part(b, p3, bit_at(b, p3), os) {
                    Err(e) => Err(e),
                    Ok((overscan, p4)) => match bit_at(b, p4) {
                        Err(e) => Err(e),
                        Ok((vst, p5)) => match optional_part(b, p5, spec_color_config(b, p5), vst) {
                            Err(e) => Err(e),
                            Ok((color, p6)) => Ok(
                                (
                                    SpsView {
                                        sample_aspect_ratio: sar,
                                        overscan_appropriate_flag: overscan,
                                        color_config: color,
                                        ..s
                                    },
                                    p6,
                                ),
                            ),
                        },
                    },
                },
            },
        },
    }
}

/// Reads the chroma sample locations and the timing of the VUI.
pub open spec fn spec_vui_second(b: Seq<bool>, p: int, s: SpsView) -> Result<(SpsView, int), IoError> {
    match bit_at(b, p) {
        Err(e) => Err(e),
        Ok((cl, p1)) => if chroma_format_of(s) != 1 && cl {
            Err(IoError::ChromaLocInfoNotAllowed)
        } else {
            match optional_part(b, p1, spec_chroma_sample_loc(b, p1), cl) {
                Err(e) => Err(e),
                Ok((chroma, p2)) => match bit_at(b, p2) {
                    Err(e) => Err(e),
                    Ok((ti, p3)) => match optional_part(b, p3, spec_timing_info(b, p3), ti) {
                        Err(e) => Err(e),
                        Ok((timing, p4)) => Ok(
                            (SpsView { chroma_sample_loc: chroma, timing_info: timing, ..s }, p4),
                        ),
                    },
                },
            }
        },
    }
}

/// Reads the VUI presence flag and, when it is set, the VUI fields.
pub open spec fn spec_sps_vui(b: Seq<bool>, p: int, s: SpsView) -> Result<(SpsView, int), IoError> {
    match bit_at(b, p) {
        Err(e) => Err(e),
        Ok((present, p1)) => if present {
            match spec_vui_first(b, p1, s) {
                Err(e) => Err(e),
                Ok((s1, p2)) => spec_vui_second(b, p2, s1),
            }
        } else {
            Ok(
                (
                    SpsView {
                        sample_aspect_ratio: None,
                        overscan_appropriate_flag: None,
                        color_config: None,
                        chroma_sample_loc: None,
                        timing_info: None,
                        ..s
                    },
                    p1,
                ),
            )
        },
    }
}

/// An SPS with every field zero or absent, the starting point of parsing.
pub open spec fn blank_sps_view() -> SpsView {
    SpsView {
        forbidden_zero_bit: false,
        nal_ref_idc: 0,
        nal_unit_type: NALUnitType::Unspecified1,
        profile_idc: 0,
        constraint_set0_flag: false,
        constraint_set1_flag: false,
        constraint_set2_flag: false,
        constraint_set3_flag: false,
        constraint_set4_flag: false,
        constraint_set5_flag: false,
        level_idc: 0,
        seq_parameter_set_id: 0,
        ext: None,
        log2_max_frame_num_minus4: 0,
        pic_order_cnt_type: 0,
        log2_max_pic_order_cnt_lsb_minus4: None,
        pic_order_cnt_type1: None,
        max_num_ref_frames: 0,
        gaps_in_frame_num_value_allowed_flag: false,
        pic_width_in_mbs_minus1: 0,
        pic_height_in_map_units_minus1: 0,
        mb_adaptive_frame_field_flag: None,
        direct_8x8_inference_flag: false,
        frame_crop_info: None,
        sample_aspect_ratio: None,
        overscan_appropriate_flag: None,
        color_config: None,
        chroma_sample_loc: None,
        timing_info: None,
    }
}

/// Parses an SPS from the bits of its payload (emulation prevention already removed).
pub open spec fn spec_sps_from_bits(b: Seq<bool>) -> Result<SpsView, IoError> {
    match spec_sps_head(b, blank_sps_view()) {
        Err(e) => Err(e),
        Ok((s1, p1)) => match spec_sps_ext_stage(b, p1, s1) {
            Err(e) => Err(e),
            Ok((s2, p2)) => match spec_sps_order(b, p2, s2) {
                Err(e) => Err(e),
                Ok((s3, p3)) => match spec_sps_frame(b, p3, s3) {
                    Err(e) => Err(e),
                    Ok((s4, p4)) => match spec_sps_vui(b, p4, s4) {
                        Err(e) => Err(e),
                        Ok((s5, _)) => Ok(s5),
                    },
                },
            },
        },
    }
}

/// Parses an SPS NAL unit: at least four bytes, emulation prevention bytes removed, then the
/// fields as ISO/IEC-14496-10-2022 - 7.3.2.1.1 lays them out.
pub open spec fn spec_sps(data: Seq<u8>) -> Result<SpsView, IoError> {
    if data.len() < 4 {
        Err(IoError::SpsTooShort)
    } else {
        spec_sps_from_bits(bits_of_bytes(rbsp(data)))
    }
}

/// A stage read into `sps`: on success the view is what the stage's specification gives.
pub open spec fn stage_result(spec: Result<(SpsView, int), IoError>, r: Result<(), IoError>, s: SpsView, end: int) -> bool {
    match r {
        Ok(_) => spec == Ok::<(SpsView, int), IoError>((s, end)),
        Err(e) => spec == Err::<(SpsView, int), IoError>(e),
    }
}

fn read_flag_or_skip(reader: &mut BitReader, read: bool) -> (r: Result<bool, IoError>)
    requires
        old(reader).wf(),
    ensures
        final(reader).wf(),
        final(reader).data@ == old(reader).data@,
        crate::bits::read_result(
            flag_or_skip(old(reader).bits(), old(reader).pos as int, read),
            r,
            final(reader).pos as int,
        ),
{
    if read {
        reader.read_bit()
    } else {
        reader.seek_bits(1)?;
        Ok(false)
    }
}

fn read_constraint_flags(reader: &mut BitReader, profile_idc: u8) -> (r: Result<
    (bool, bool, bool, bool, bool, bool),
    IoError,
>)
    requires
        old(reader).wf(),
    ensures
        final(reader).wf(),
        final(reader).data@ == old(reader).data@,
        crate::bits::read_result(
            spec_constraint_flags(old(reader).bits(), old(reader).pos as int, profile_idc),
            r,
            final(reader).pos as int,
        ),
{
    let c0;
    let c1;
    let c2;
    if profile_idc == 44 || profile_idc == 100 || profile_idc == 110 || profile_idc == 122
        || profile_idc == 244 {
        reader.seek_bits(3)?;
        c0 = false;
        c1 = false;
        c2 = false;
    } else {
        c0 = reader.read_bit()?;
        c1 = reader.read_bit()?;
        c2 = reader.read_bit()?;
    }
    let c3 = read_flag_or_skip(reader, profile_idc != 44)?;
    let c4 = read_flag_or_skip(
        reader,
        profile_idc == 77 || profile_idc == 88 || profile_idc == 100 || profile_idc == 118
            || profile_idc == 128 || profile_idc == 134,
    )?;
    let c5 = read_flag_or_skip(
        reader,
        profile_idc == 77 || profile_idc == 88 || profile_idc == 100 || profile_idc == 118,
    )?;
    reader.seek_bits(2)?;
    Ok((c0, c1, c2, c3, c4, c5))
}

#[verifier::rlimit(40)]
fn parse_head(reader: &mut BitReader, sps: &mut Sps) -> (r: Result<(), IoError>)
    requires
        old(reader).wf(),
        old(reader).pos == 0,
    ensures
        final(reader).wf(),
        final(reader).data@ == old(reader).data@,
        final(sps).ext == old(sps).ext,
        final(sps).pic_order_cnt_type1 == old(sps).pic_order_cnt_type1,
        stage_result(
            spec_sps_head(old(reader).bits(), old(sps)@),
            r,
            final(sps)@,
            final(reader).pos as int,
        ),
{
    let forbidden_zero_bit = reader.read_bit()?;
    if forbidden_zero_bit {
        return Err(IoError::ForbiddenZeroBit);
    }
    let nal_ref_idc = reader.read_bits(2)? as u8;
    let nal_unit_type = reader.read_bits(5)? as u8;
    if nal_unit_type != 7 {
        return Err(IoError::NotSps);
    }
    let profile_idc = reader.read_u8()?;
    let (
        constraint_set0_flag,
        constraint_set1_flag,
        constraint_set2_flag,
        constraint_set3_flag,
        constraint_set4_flag,
        constraint_set5_flag,
    ) = read_constraint_flags(reader, profile_idc)?;
    let level_idc = reader.read_u8()?;
    let seq_parameter_set_id = read_exp_golomb(reader)? as u16;
    sps.forbidden_zero_bit = false;
    sps.nal_ref_idc = nal_ref_idc;
    sps.nal_unit_type = NALUnitType::from(nal_unit_type);
    sps.profile_idc = profile_idc;
    sps.constraint_set0_flag = constraint_set0_flag;
    sps.constraint_set1_flag = constraint_set1_flag;
    sps.constraint_set2_flag = constraint_set2_flag;
    sps.constraint_set3_flag = constraint_set3_flag;
    sps.constraint_set4_flag = constraint_set4_flag;
    sps.constraint_set5_flag = constraint_set5_flag;
    sps.level_idc = level_idc;
    sps.seq_parameter_set_id = seq_parameter_set_id;
    Ok(())
}

fn parse_ext_stage(reader: &mut BitReader, sps: &mut Sps) -> (r: Result<(), IoError>)
    requires
        old(reader).wf(),
    ensures
        final(reader).wf(),
        final(reader).data@ == old(reader).data@,
        final(sps).pic_order_cnt_type1 == old(sps).pic_order_cnt_type1,
        stage_result(
            spec_sps_ext_stage(old(reader).bits(), old(reader).pos as int, old(sps)@),
            r,
            final(sps)@,
            final(reader).pos as int,
        ),
{
    let p = sps.profile_idc;
    if p == 100 || p == 110 || p == 122 || p == 244 || p == 44 || p == 83 || p == 86 || p == 118
        || p == 128 || p == 138 || p == 139 || p == 134 || p == 135 {
        let ext = SpsExtended::parse(reader)?;
        sps.ext = Some(ext);
    } else {
        sps.ext = None;
    }
    Ok(())
}

#[verifier::rlimit(40)]
fn parse_order(reader: &mut BitReader, sps: &mut Sps) -> (r: Result<(), IoError>)
    requires
        old(reader).wf(),
    ensures
        final(reader).wf(),
        final(reader).data@ == old(reader).data@,
        final(sps).ext == old(sps).ext,
        stage_result(
            spec_sps_order(old(reader).bits(), old(reader).pos as int, old(sps)@),
            r,
            final(sps)@,
            final(reader).pos as int,
        ),
{
    let log2_max_frame_num_minus4 = read_exp_golomb(reader)? as u8;
    let pic_order_cnt_type = read_exp_golomb(reader)? as u8;
    let mut log2_max_pic_order_cnt_lsb_minus4 = None;
    let mut pic_order_cnt_type1 = None;
    if pic_order_cnt_type == 0 {
        log2_max_pic_order_cnt_lsb_minus4 = Some(read_exp_golomb(reader)? as u8);
    } else if pic_order_cnt_type == 1 {
        pic_order_cnt_type1 = Some(PicOrderCountType1::parse(reader)?);
    }
    let max_num_ref_frames = read_exp_golomb(reader)? as u8;
    sps.log2_max_frame_num_minus4 = log2_max_frame_num_minus4;
    sps.pic_order_cnt_type = pic_order_cnt_type;
    sps.log2_max_pic_order_cnt_lsb_minus4 = log2_max_pic_order_cnt_lsb_minus4;
    sps.pic_order_cnt_type1 = pic_order_cnt_type1;
    sps.max_num_ref_frames = max_num_ref_frames;
    Ok(())
}

#[verifier::rlimit(40)]
fn parse_frame(reader: &mut BitReader, sps: &mut Sps) -> (r: Result<(), IoError>)
    requires
        old(reader).wf(),
    ensures
        final(reader).wf(),
        final(reader).data@ == old(reader).data@,
        final(sps).ext == old(sps).ext,
        final(sps).pic_order_cnt_type1 == old(sps).pic_order_cnt_type1,
        stage_result(
            spec_sps_frame(old(reader).bits(), old(reader).pos as int, old(sps)@),
            r,
            final(sps)@,
            final(reader).pos as int,
        ),
{
    let gaps_in_frame_num_value_allowed_flag = reader.read_bit()?;
    let pic_width_in_mbs_minus1 = read_exp_golomb(reader)?;
    let pic_height_in_map_units_minus1 = read_exp_golomb(reader)?;
    let frame_mbs_only_flag = reader.read_bit()?;
    let mut mb_adaptive_frame_field_flag = None;
    if !frame_mbs_only_flag {
        mb_adaptive_frame_field_flag = Some(reader.read_bit()?);
    }
    let direct_8x8_inference_flag = reader.read_bit()?;
    let mut frame_crop_info = None;
    let frame_cropping_flag = reader.read_bit()?;
    if frame_cropping_flag {
        frame_crop_info = Some(FrameCropInfo::parse(reader)?);
    }
    sps.gaps_in_frame_num_value_allowed_flag = gaps_in_frame_num_value_allowed_flag;
    sps.pic_width_in_mbs_minus1 = pic_width_in_mbs_minus1;
    sps.pic_height_in_map_units_minus1 = pic_height_in_map_units_minus1;
    sps.mb_adaptive_frame_field_flag = mb_adaptive_frame_field_flag;
    sps.direct_8x8_inference_flag = direct_8x8_inference_flag;
    sps.frame_crop_info = frame_crop_info;
    Ok(())
}

#[verifier::rlimit(40)]
fn parse_vui_first(reader: &mut BitReader, sps: &mut Sps) -> (r: Result<(), IoError>)
    requires
        old(reader).wf(),
    ensures
        final(reader).wf(),
        final(reader).data@ == old(reader).data@,
        final(sps).ext == old(sps).ext,
        final(sps).pic_order_cnt_type1 == old(sps).pic_order_cnt_type1,
        stage_result(
            spec_vui_first(old(reader).bits(), old(reader).pos as int, old(sps)@),
            r,
            final(sps)@,
            final(reader).pos as int,
        ),
{
    let mut sample_aspect_ratio = None;
    let mut overscan_appropriate_flag = None;
    let mut color_config = None;
    let aspect_ratio_info_present_flag = reader.read_bit()?;
    if aspect_ratio_info_present_flag {
        sample_aspect_ratio = Some(SarDimensions::parse(reader)?);
    }
    let overscan_info_present_flag = reader.read_bit()?;
    if overscan_info_present_flag {
        overscan_appropriate_flag = Some(reader.read_bit()?);
    }
    let video_signal_type_present_flag = reader.read_bit()?;
    if video_signal_type_present_flag {
        color_config = Some(ColorConfig::parse(reader)?);
    }
    sps.sample_aspect_ratio = sample_aspect_ratio;
    sps.overscan_appropriate_flag = overscan_appropriate_flag;
    sps.color_config = color_config;
    Ok(())
}

#[verifier::rlimit(40)]
fn parse_vui_second(reader: &mut BitReader, sps: &mut Sps) -> (r: Result<(), IoError>)
    requires
        old(reader).wf(),
    ensures
        final(reader).wf(),
        final(reader).data@ == old(reader).data@,
        final(sps).ext == old(sps).ext,
        final(sps).pic_order_cnt_type1 == old(sps).pic_order_cnt_type1,
        stage_result(
            spec_vui_second(old(reader).bits(), old(reader).pos as int, old(sps)@),
            r,
            final(sps)@,
            final(reader).pos as int,
        ),
{
    let mut chroma_sample_loc = None;
    let mut timing_info = None;
    let chroma_loc_info_present_flag = reader.read_bit()?;
    let chroma_format_idc = match &sps.ext {
        Some(e) => e.chroma_format_idc,
        None => 1,
    };
    if chroma_format_idc != 1 && chroma_loc_info_present_flag {
        return Err(IoError::ChromaLocInfoNotAllowed);
    }
    if chroma_loc_info_present_flag {
        chroma_sample_loc = Some(ChromaSampleLoc::parse(reader)?);
    }
    let timing_info_present_flag = reader.read_bit()?;
    if timing_info_present_flag {
        timing_info = Some(TimingInfo::parse(reader)?);
    }
    sps.chroma_sample_loc = chroma_sample_loc;
    sps.timing_info = timing_info;
    Ok(())
}

fn parse_vui(reader: &mut BitReader, sps: &mut Sps) -> (r: Result<(), IoError>)
    requires
        old(reader).wf(),
    ensures
        final(reader).wf(),
        final(reader).data@ == old(reader).data@,
        stage_result(
            spec_sps_vui(old(reader).bits(), old(reader).pos as int, old(sps)@),
            r,
            final(sps)@,
            final(reader).pos as int,
        ),
{
    let vui_parameters_present_flag = reader.read_bit()?;
    if vui_parameters_present_flag {
        parse_vui_first(reader, sps)?;
        parse_vui_second(reader, sps)?;
    } else {
        sps.sample_aspect_ratio = None;
        sps.overscan_appropriate_flag = None;
        sps.color_config = None;
        sps.chroma_sample_loc = None;
        sps.timing_info = None;
    }
    Ok(())
}

impl Sps {
    /// An SPS with every field zero or absent.
    fn blank() -> (r: Sps)
        ensures
            r@ == blank_sps_view(),
    {
        Sps {
            forbidden_zero_bit: false,
            nal_ref_idc: 0,
            nal_unit_type: NALUnitType::Unspecified1,
            profile_idc: 0,
            constraint_set0_flag: false,
            constraint_set1_flag: false,
            constraint_set2_flag: false,
            constraint_set3_flag: false,
            constraint_set4_flag: false,
            constraint_set5_flag: false,
            level_idc: 0,
            seq_parameter_set_id: 0,
            ext: None,
            log2_max_frame_num_minus4: 0,
            pic_order_cnt_type: 0,
            log2_max_pic_order_cnt_lsb_minus4: None,
            pic_order_cnt_type1: None,
            max_num_ref_frames: 0,
            gaps_in_frame_num_value_allowed_flag: false,
            pic_width_in_mbs_minus1: 0,
            pic_height_in_map_units_minus1: 0,
            mb_adaptive_frame_field_flag: None,
            direct_8x8_inference_flag: false,
            frame_crop_info: None,
            sample_aspect_ratio: None,
            overscan_appropriate_flag: None,
            color_config: None,
            chroma_sample_loc: None,
            timing_info: None,
        }
    }

    /// Parses an SPS NAL unit from its bytes. Fails with [`IoError::SpsTooShort`] under four
    /// bytes; removes the emulation prevention bytes; then reads the fields.
    pub fn parse(data: &[u8]) -> (r: Result<Self, IoError>)
        requires
            data@.len() * 8 <= usize::MAX,
        ensures
            match r {
                Ok(s) => spec_sps(data@) == Ok::<SpsView, IoError>(s@),
                Err(e) => spec_sps(data@) == Err::<SpsView, IoError>(e),
            },
    {
        if data.len() < 4 {
            return Err(IoError::SpsTooShort);
        }
        let vec = remove_emulation_prevention(data);
        proof {
            lemma_rbsp_len(data@);
        }
        let mut reader = BitReader::new(vec);
        let mut sps = Sps::blank();
        parse_head(&mut reader, &mut sps)?;
        parse_ext_stage(&mut reader, &mut sps)?;
        parse_order(&mut reader, &mut sps)?;
        parse_frame(&mut reader, &mut sps)?;
        parse_vui(&mut reader, &mut sps)?;
        Ok(sps)
    }
}

/// Removing emulation prevention bytes never lengthens the data.
pub proof fn lemma_rbsp_len(d: Seq<u8>)
    ensures
        rbsp(d).len() <= d.len(),
    decreases d.len(),
{
    if d.len() >= 3 && d[0] == 0 && d[1] == 0 && d[2] == 3 {
        lemma_rbsp_len(d.subrange(3, d.len() as int));
    } else if d.len() > 0 {
        lemma_rbsp_len(d.subrange(1, d.len() as int));
    }
}

/// The bits of the NAL header, the profile, the six constraint flags, two reserved zero bits,
/// the level and the SPS id.
pub open spec fn head_bits(
    nal_ref_idc: u8,
    nal_unit_type: NALUnitType,
    profile_idc: u8,
    flags: Seq<bool>,
    level_idc: u8,
    id: u16,
) -> Seq<bool> {
    seq![false] + nat_bits(nal_ref_idc as nat, 2) + nat_bits(nal_unit_type.spec_value() as nat, 5)
        + nat_bits(profile_idc as nat, 8) + flags + nat_bits(0, 2) + nat_bits(level_idc as nat, 8)
        + ue_bits(id as u64)
}

/// A presence flag followed by the bits of the part, or an unset flag.
pub open spec fn present_bits(p: Option<Seq<bool>>) -> Seq<bool> {
    match p {
        Some(x) => seq![true] + x,
        None => seq![false],
    }
}

/// The bits of the frame size, the field flags and the crop offsets.
pub open spec fn frame_bits(
    gaps: bool,
    width: u64,
    height: u64,
    mbaff: Option<bool>,
    direct_8x8: bool,
    crop: Option<FrameCropInfo>,
) -> Seq<bool> {
    seq![gaps] + ue_bits(width) + ue_bits(height) + (match mbaff {
        Some(f) => seq![false, f],
        None => seq![true],
    }) + seq![direct_8x8] + present_bits(
        match crop {
            Some(c) => Some(c.spec_bits()),
            None => None,
        },
    )
}

/// The bits of the first three optional VUI parts, each behind its presence flag.
pub open spec fn vui_parts_bits(
    sar: Option<SarDimensions>,
    overscan: Option<bool>,
    color: Option<ColorConfig>,
) -> Seq<bool> {
    present_bits(
        match sar {
            Some(x) => Some(x.spec_bits()),
            None => None,
        },
    ) + present_bits(
        match overscan {
            Some(x) => Some(seq![x]),
            None => None,
        },
    ) + present_bits(
        match color {
            Some(x) => Some(x.spec_bits()),
            None => None,
        },
    )
}

/// The bits of the VUI: a single unset flag when no VUI field is present; otherwise a set flag
/// and a presence flag with the content of each part, except that an absent timing is written
/// as nothing at all.
pub open spec fn vui_bits(
    sar: Option<SarDimensions>,
    overscan: Option<bool>,
    color: Option<ColorConfig>,
    chroma: Option<ChromaSampleLoc>,
    timing: Option<TimingInfo>,
) -> Seq<bool> {
    if sar is None && overscan is None && color is None && chroma is None && timing is None {
        seq![false]
    } else {
        seq![true] + vui_parts_bits(sar, overscan, color) + present_bits(
            match chroma {
                Some(x) => Some(x.spec_bits()),
                None => None,
            },
        ) + (match timing {
            Some(x) => seq![true] + x.spec_bits(),
            None => seq![],
        })
    }
}

impl SpsView {
    /// The SPS can be written: `log2_max_pic_order_cnt_lsb_minus4` is present when
    /// `pic_order_cnt_type` is 0, and every Exp-Golomb value has a code in 64 bits.
    pub open spec fn writable(&self) -> bool {
        &&& (self.pic_order_cnt_type == 0 ==> self.log2_max_pic_order_cnt_lsb_minus4 is Some)
        &&& self.pic_width_in_mbs_minus1 < u64::MAX
        &&& self.pic_height_in_map_units_minus1 < u64::MAX
        &&& (self.ext matches Some(e) ==> e.writable())
        &&& (self.pic_order_cnt_type != 0 ==> (self.pic_order_cnt_type1 matches Some(t)
            ==> t.writable()))
        &&& (self.frame_crop_info matches Some(c) ==> c.writable())
    }

    /// The bits of the NAL header, the profile, the flags, the level and the SPS id.
    pub open spec fn spec_head_bits(&self) -> Seq<bool> {
        head_bits(
            self.nal_ref_idc,
            self.nal_unit_type,
            self.profile_idc,
            seq![
                self.constraint_set0_flag,
                self.constraint_set1_flag,
                self.constraint_set2_flag,
                self.constraint_set3_flag,
                self.constraint_set4_flag,
                self.constraint_set5_flag,
            ],
            self.level_idc,
            self.seq_parameter_set_id,
        )
    }

    /// The bits of the extension, the frame numbering and the picture order count fields.
    pub open spec fn spec_order_bits(&self) -> Seq<bool> {
        (match self.ext {
            Some(e) => e.spec_bits(),
            None => seq![],
        }) + ue_bits(self.log2_max_frame_num_minus4 as u64) + ue_bits(
            self.pic_order_cnt_type as u64,
        ) + (if self.pic_order_cnt_type == 0 {
            ue_bits(self.log2_max_pic_order_cnt_lsb_minus4.unwrap() as u64)
        } else {
            match self.pic_order_cnt_type1 {
                Some(t) => t.spec_bits(),
                None => seq![],
            }
        }) + ue_bits(self.max_num_ref_frames as u64)
    }

    /// The bits of the frame size, the field flags and the crop offsets.
    pub open spec fn spec_frame_bits(&self) -> Seq<bool> {
        frame_bits(
            self.gaps_in_frame_num_value_allowed_flag,
            self.pic_width_in_mbs_minus1,
            self.pic_height_in_map_units_minus1,
            self.mb_adaptive_frame_field_flag,
            self.direct_8x8_inference_flag,
            self.frame_crop_info,
        )
    }

    /// The bits of the VUI.
    pub open spec fn spec_vui_bits(&self) -> Seq<bool> {
        vui_bits(
            self.sample_aspect_ratio,
            self.overscan_appropriate_flag,
            self.color_config,
            self.chroma_sample_loc,
            self.timing_info,
        )
    }

    /// The bits that `build` writes.
    pub open spec fn spec_bits(&self) -> Seq<bool> {
        self.spec_head_bits() + self.spec_order_bits() + self.spec_frame_bits()
            + self.spec_vui_bits()
    }

    /// The frame height: `(2 - frame_mbs_only_flag) * (pic_height_in_map_units_minus1 + 1) * 16`
    /// less twice the top and bottom crop offsets.
    pub open spec fn spec_height(&self) -> int {
        let base = (if self.mb_adaptive_frame_field_flag is None {
            1int
        } else {
            2int
        }) * (self.pic_height_in_map_units_minus1 + 1) * 16;
        match self.frame_crop_info {
            Some(c) => base - (c.frame_crop_top_offset + c.frame_crop_bottom_offset) * 2,
            None => base,
        }
    }

    /// The frame width: `(pic_width_in_mbs_minus1 + 1) * 16` less twice the left and right
    /// crop offsets.
    pub open spec fn spec_width(&self) -> int {
        let base = (self.pic_width_in_mbs_minus1 + 1) * 16;
        match self.frame_crop_info {
            Some(c) => base - (c.frame_crop_left_offset + c.frame_crop_right_offset) * 2,
            None => base,
        }
    }

    /// The height can be computed in 64 bits without going below zero.
    pub open spec fn height_in_range(&self) -> bool {
        let base = (if self.mb_adaptive_frame_field_flag is None {
            1int
        } else {
            2int
        }) * (self.pic_height_in_map_units_minus1 + 1) * 16;
        &&& base <= u64::MAX
        &&& (self.frame_crop_info matches Some(c) ==> (c.frame_crop_top_offset
            + c.frame_crop_bottom_offset) * 2 <= base)
    }

    /// The width can be computed in 64 bits without going below zero.
    pub open spec fn width_in_range(&self) -> bool {
        let base = (self.pic_width_in_mbs_minus1 + 1) * 16;
        &&& base <= u64::MAX
        &&& (self.frame_crop_info matches Some(c) ==> (c.frame_crop_left_offset
            + c.frame_crop_right_offset) * 2 <= base)
    }
}

fn build_head_start(sps: &Sps, writer: &mut BitWriter)
    requires
        old(writer).wf(),
    ensures
        final(writer).wf(),
        final(writer).bits() == old(writer).bits() + seq![false] + nat_bits(
            sps.nal_ref_idc as nat,
            2,
        ) + nat_bits(sps.nal_unit_type.spec_value() as nat, 5) + nat_bits(
            sps.profile_idc as nat,
            8,
        ),
{
    writer.write_bit(false);
    writer.write_bits(sps.nal_ref_idc as u64, 2);
    writer.write_bits(sps.nal_unit_type.value() as u64, 5);
    writer.write_bits(sps.profile_idc as u64, 8);
}

fn build_head_flags(sps: &Sps, writer: &mut BitWriter)
    requires
        old(writer).wf(),
    ensures
        final(writer).wf(),
        final(writer).bits() == old(writer).bits() + seq![
            sps.constraint_set0_flag,
            sps.constraint_set1_flag,
            sps.constraint_set2_flag,
            sps.constraint_set3_flag,
            sps.constraint_set4_flag,
            sps.constraint_set5_flag,
        ],
{
    writer.write_bit(sps.constraint_set0_flag);
    writer.write_bit(sps.constraint_set1_flag);
    writer.write_bit(sps.constraint_set2_flag);
    writer.write_bit(sps.constraint_set3_flag);
    writer.write_bit(sps.constraint_set4_flag);
    writer.write_bit(sps.constraint_set5_flag);
    assert(writer.bits() =~= old(writer).bits() + seq![
        sps.constraint_set0_flag,
        sps.constraint_set1_flag,
        sps.constraint_set2_flag,
        sps.constraint_set3_flag,
        sps.constraint_set4_flag,
        sps.constraint_set5_flag,
    ]);
}

fn build_head(sps: &Sps, writer: &mut BitWriter)
    requires
        old(writer).wf(),
    ensures
        final(writer).wf(),
        final(writer).bits() == old(writer).bits() + head_bits(
            sps.nal_ref_idc,
            sps.nal_unit_type,
            sps.profile_idc,
            seq![
                sps.constraint_set0_flag,
                sps.constraint_set1_flag,
                sps.constraint_set2_flag,
                sps.constraint_set3_flag,
                sps.constraint_set4_flag,
                sps.constraint_set5_flag,
            ],
            sps.level_idc,
            sps.seq_parameter_set_id,
        ),
{
    let ghost o = writer.bits();
    build_head_start(sps, writer);
    let ghost b1 = writer.bits();
    build_head_flags(sps, writer);
    let ghost b2 = writer.bits();
    writer.write_bits(0, 2);
    writer.write_bits(sps.level_idc as u64, 8);
    write_exp_golomb(writer, sps.seq_parameter_set_id as u64);
    assert(writer.bits() =~= b2 + (nat_bits(0, 2) + nat_bits(sps.level_idc as nat, 8) + ue_bits(
        sps.seq_parameter_set_id as u64,
    )));
}

fn build_order(sps: &Sps, writer: &mut BitWriter)
    requires
        old(writer).wf(),
        sps@.writable(),
    ensures
        final(writer).wf(),
        final(writer).bits() == old(writer).bits() + sps@.spec_order_bits(),
{
    let ghost b0 = writer.bits();
    if let Some(ext) = &sps.ext {
        ext.build(writer);
    }
    let ghost b1 = writer.bits();
    write_exp_golomb(writer, sps.log2_max_frame_num_minus4 as u64);
    write_exp_golomb(writer, sps.pic_order_cnt_type as u64);
    let ghost b2 = writer.bits();
    if sps.pic_order_cnt_type == 0 {
        match sps.log2_max_pic_order_cnt_lsb_minus4 {
            Some(v) => write_exp_golomb(writer, v as u64),
            None => {},
        }
    } else if let Some(pic_order_cnt) = &sps.pic_order_cnt_type1 {
        pic_order_cnt.build(writer);
    }
    let ghost b3 = writer.bits();
    write_exp_golomb(writer, sps.max_num_ref_frames as u64);
    assert(writer.bits() =~= old(writer).bits() + sps@.spec_order_bits());
}

fn build_frame_fields(sps: &Sps, writer: &mut BitWriter)
    requires
        old(writer).wf(),
        sps.frame_crop_info matches Some(c) ==> c.writable(),
    ensures
        final(writer).wf(),
        final(writer).bits() == old(writer).bits() + (match sps.mb_adaptive_frame_field_flag {
            Some(f) => seq![false, f],
            None => seq![true],
        }) + seq![sps.direct_8x8_inference_flag] + present_bits(
            match sps.frame_crop_info {
                Some(c) => Some(c.spec_bits()),
                None => None,
            },
        ),
{
    let ghost o = writer.bits();
    if let Some(flag) = sps.mb_adaptive_frame_field_flag {
        writer.write_bit(false);
        writer.write_bit(flag);
    } else {
        writer.write_bit(true);
    }
    writer.write_bit(sps.direct_8x8_inference_flag);
    let ghost m = match sps.mb_adaptive_frame_field_flag {
        Some(f) => seq![false, f],
        None => seq![true],
    };
    assert(writer.bits() =~= o + m + seq![sps.direct_8x8_inference_flag]);
    let ghost b3 = writer.bits();
    if let Some(frame_crop_info) = &sps.frame_crop_info {
        writer.write_bit(true);
        frame_crop_info.build(writer);
    } else {
        writer.write_bit(false);
    }
    assert(writer.bits() =~= b3 + present_bits(
        match sps.frame_crop_info {
            Some(c) => Some(c.spec_bits()),
            None => None,
        },
    ));
}

fn build_frame(sps: &Sps, writer: &mut BitWriter)
    requires
        old(writer).wf(),
        sps.pic_width_in_mbs_minus1 < u64::MAX,
        sps.pic_height_in_map_units_minus1 < u64::MAX,
        sps.frame_crop_info matches Some(c) ==> c.writable(),
    ensures
        final(writer).wf(),
        final(writer).bits() == old(writer).bits() + frame_bits(
            sps.gaps_in_frame_num_value_allowed_flag,
            sps.pic_width_in_mbs_minus1,
            sps.pic_height_in_map_units_minus1,
            sps.mb_adaptive_frame_field_flag,
            sps.direct_8x8_inference_flag,
            sps.frame_crop_info,
        ),
{
    let ghost o = writer.bits();
    writer.write_bit(sps.gaps_in_frame_num_value_allowed_flag);
    write_exp_golomb(writer, sps.pic_width_in_mbs_minus1);
    write_exp_golomb(writer, sps.pic_height_in_map_units_minus1);
    let ghost b1 = writer.bits();
    let ghost p1 = seq![sps.gaps_in_frame_num_value_allowed_flag] + ue_bits(
        sps.pic_width_in_mbs_minus1,
    ) + ue_bits(sps.pic_height_in_map_units_minus1);
    assert(b1 =~= o + p1);
    build_frame_fields(sps, writer);
    let ghost rest = writer.bits().subrange(b1.len() as int, writer.bits().len() as int);
    assert(writer.bits() =~= b1 + rest);
    assert(writer.bits() =~= o + (p1 + rest));
}

/// Writes a presence flag and, when the part is present, its bits.
fn build_vui_parts(sps: &Sps, writer: &mut BitWriter)
    requires
        old(writer).wf(),
    ensures
        final(writer).wf(),
        final(writer).bits() == old(writer).bits() + vui_parts_bits(
            sps.sample_aspect_ratio,
            sps.overscan_appropriate_flag,
            sps.color_config,
        ),
{
    let ghost o = writer.bits();
    if let Some(sar) = &sps.sample_aspect_ratio {
        writer.write_bit(true);
        sar.build(writer);
    } else {
        writer.write_bit(false);
    }
    let ghost a = present_bits(
        match sps.sample_aspect_ratio {
            Some(x) => Some(x.spec_bits()),
            None => None,
        },
    );
    assert(writer.bits() =~= o + a);
    let ghost b1 = writer.bits();
    if let Some(overscan) = sps.overscan_appropriate_flag {
        writer.write_bit(true);
        writer.write_bit(overscan);
    } else {
        writer.write_bit(false);
    }
    let ghost ov = present_bits(
        match sps.overscan_appropriate_flag {
            Some(x) => Some(seq![x]),
            None => None,
        },
    );
    assert(writer.bits() =~= b1 + ov);
    let ghost b2 = writer.bits();
    if let Some(color) = &sps.color_config {
        writer.write_bit(true);
        color.build(writer);
    } else {
        writer.write_bit(false);
    }
    let ghost c = present_bits(
        match sps.color_config {
            Some(x) => Some(x.spec_bits()),
            None => None,
        },
    );
    assert(writer.bits() =~= b2 + c);
    assert(writer.bits() =~= o + (a + ov + c));
}

/// Writes the chroma sample locations and the timing, each behind its presence flag (an absent
/// timing writes nothing).
fn build_vui_tail(sps: &Sps, writer: &mut BitWriter)
    requires
        old(writer).wf(),
    ensures
        final(writer).wf(),
        final(writer).bits() == old(writer).bits() + present_bits(
            match sps.chroma_sample_loc {
                Some(x) => Some(x.spec_bits()),
                None => None,
            },
        ) + (match sps.timing_info {
            Some(x) => seq![true] + x.spec_bits(),
            None => seq![],
        }),
{
    let ghost o = writer.bits();
    if let Some(chroma) = &sps.chroma_sample_loc {
        writer.write_bit(true);
        chroma.build(writer);
    } else {
        writer.write_bit(false);
    }
    let ghost ch = present_bits(
        match sps.chroma_sample_loc {
            Some(x) => Some(x.spec_bits()),
            None => None,
        },
    );
    assert(writer.bits() =~= o + ch);
    let ghost b2 = writer.bits();
    if let Some(timing) = &sps.timing_info {
        writer.write_bit(true);
        timing.build(writer);
    }
    let ghost t = match sps.timing_info {
        Some(x) => seq![true] + x.spec_bits(),
        None => seq![],
    };
    assert(writer.bits() =~= b2 + t);
    assert(writer.bits() =~= o + ch + t);
}

fn build_vui(sps: &Sps, writer: &mut BitWriter)
    requires
        old(writer).wf(),
    ensures
        final(writer).wf(),
        final(writer).bits() == old(writer).bits() + vui_bits(
            sps.sample_aspect_ratio,
            sps.overscan_appropriate_flag,
            sps.color_config,
            sps.chroma_sample_loc,
            sps.timing_info,
        ),
{
    let ghost o = writer.bits();
    if sps.sample_aspect_ratio.is_none() && sps.overscan_appropriate_flag.is_none()
        && sps.color_config.is_none() && sps.chroma_sample_loc.is_none()
        && sps.timing_info.is_none() {
        writer.write_bit(false);
    } else {
        writer.write_bit(true);
        let ghost b0 = writer.bits();
        build_vui_parts(sps, writer);
        let ghost b1 = writer.bits();
        build_vui_tail(sps, writer);
        assert(writer.bits() =~= o + (seq![true] + (b1.subrange(b0.len() as int, b1.len() as int))
            + writer.bits().subrange(b1.len() as int, writer.bits().len() as int)));
    }
}

impl Sps {
    /// Writes the SPS fields as bits.
    pub fn build(&self, writer: &mut BitWriter)
        requires
            old(writer).wf(),
            self@.writable(),
        ensures
            final(writer).wf(),
            final(writer).bits() == old(writer).bits() + self@.spec_bits(),
    {
        build_head(self, writer);
        build_order(self, writer);
        build_frame(self, writer);
        build_vui(self, writer);
        assert(writer.bits() =~= old(writer).bits() + self@.spec_bits());
    }

    /// The frame height in pixels.
    pub fn height(&self) -> (r: u64)
        requires
            self@.height_in_range(),
        ensures
            r == self@.spec_height(),
    {
        let factor: u64 = if self.mb_adaptive_frame_field_flag.is_none() {
            1
        } else {
            2
        };
        proof {
            let h = self.pic_height_in_map_units_minus1 as int;
            assert(factor * (h + 1) * 16 <= u64::MAX);
            assert(factor * (h + 1) <= u64::MAX) by (nonlinear_arith)
                requires
                    factor * (h + 1) * 16 <= u64::MAX,
                    h >= 0,
                    factor >= 1,
            ;
        }
        let base_height = factor * (self.pic_height_in_map_units_minus1 + 1) * 16;
        match &self.frame_crop_info {
            Some(crop) => base_height - (crop.frame_crop_top_offset + crop.frame_crop_bottom_offset) * 2,
            None => base_height,
        }
    }

    /// The frame width in pixels.
    pub fn width(&self) -> (r: u64)
        requires
            self@.width_in_range(),
        ensures
            r == self@.spec_width(),
    {
        let base_width = (self.pic_width_in_mbs_minus1 + 1) * 16;
        match &self.frame_crop_info {
            Some(crop) => base_width - (crop.frame_crop_left_offset + crop.frame_crop_right_offset) * 2,
            None => base_width,
        }
    }
}

} // verus!
