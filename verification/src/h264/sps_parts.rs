//! The optional parts of a sequence parameter set (ISO/IEC-14496-10-2022 - 7.3.2.1.1 and E.1.1),
//! each with its reader and writer.
use vstd::prelude::*;

use crate::bits::{
    bit_at, bits_at, byte_at, nat_bits, read_result, read_result_view, BitReader, BitWriter,
};
use crate::error::IoError;
use crate::expgolomb::{
    read_exp_golomb, read_signed_exp_golomb, se_at, se_bits, ue_at, ue_bits, write_exp_golomb,
    write_signed_exp_golomb,
};
use crate::h264::enums::{AspectRatioIdc, VideoFormat};

verus! {

/// The frame cropping offsets, present when `frame_cropping_flag` is set.
#[derive(Debug, Clone, Copy, PartialEq, Eq, Structural)]
pub struct FrameCropInfo {
    /// The left crop offset.
    pub frame_crop_left_offset: u64,
    /// The right crop offset.
    pub frame_crop_right_offset: u64,
    /// The top crop offset.
    pub frame_crop_top_offset: u64,
    /// The bottom crop offset.
    pub frame_crop_bottom_offset: u64,
}

/// Reads the four crop offsets, each an unsigned Exp-Golomb code.
pub open spec fn spec_frame_crop_info(b: Seq<bool>, p: int) -> Result<(FrameCropInfo, int), IoError> {
    match ue_at(b, p) {
        Err(e) => Err(e),
        Ok((l, p1)) => match ue_at(b, p1) {
            Err(e) => Err(e),
            Ok((r, p2)) => match ue_at(b, p2) {
                Err(e) => Err(e),
                Ok((t, p3)) => match ue_at(b, p3) {
                    Err(e) => Err(e),
                    Ok((bo, p4)) => Ok(
                        (
                            FrameCropInfo {
                                frame_crop_left_offset: l,
                                frame_crop_right_offset: r,
                                frame_crop_top_offset: t,
                                frame_crop_bottom_offset: bo,
                            },
                            p4,
                        ),
                    ),
                },
            },
        },
    }
}

impl FrameCropInfo {
    /// The offsets can be written: none is `u64::MAX`, which has no Exp-Golomb code in 64 bits.
    pub open spec fn writable(&self) -> bool {
        &&& self.frame_crop_left_offset < u64::MAX
        &&& self.frame_crop_right_offset < u64::MAX
        &&& self.frame_crop_top_offset < u64::MAX
        &&& self.frame_crop_bottom_offset < u64::MAX
    }

    /// The bits that `build` writes.
    pub open spec fn spec_bits(&self) -> Seq<bool> {
        ue_bits(self.frame_crop_left_offset) + ue_bits(self.frame_crop_right_offset) + ue_bits(
            self.frame_crop_top_offset,
        ) + ue_bits(self.frame_crop_bottom_offset)
    }

    /// Parses the fields defined when `frame_cropping_flag == 1`.
    pub fn parse(reader: &mut BitReader) -> (r: Result<Self, IoError>)
        requires
            old(reader).wf(),
        ensures
            final(reader).wf(),
            final(reader).data@ == old(reader).data@,
            read_result(
                spec_frame_crop_info(old(reader).bits(), old(reader).pos as int),
                r,
                final(reader).pos as int,
            ),
    {
        let frame_crop_left_offset = read_exp_golomb(reader)?;
        let frame_crop_right_offset = read_exp_golomb(reader)?;
        let frame_crop_top_offset = read_exp_golomb(reader)?;
        let frame_crop_bottom_offset = read_exp_golomb(reader)?;
        Ok(FrameCropInfo {
            frame_crop_left_offset,
            frame_crop_right_offset,
            frame_crop_top_offset,
            frame_crop_bottom_offset,
        })
    }

    /// Writes the four offsets.
    pub fn build(&self, writer: &mut BitWriter)
        requires
            old(writer).wf(),
            self.writable(),
        ensures
            final(writer).wf(),
            final(writer).bits() == old(writer).bits() + self.spec_bits(),
    {
        write_exp_golomb(writer, self.frame_crop_left_offset);
        write_exp_golomb(writer, self.frame_crop_right_offset);
        write_exp_golomb(writer, self.frame_crop_top_offset);
        write_exp_golomb(writer, self.frame_crop_bottom_offset);
        assert(writer.bits() =~= old(writer).bits() + self.spec_bits());
    }
}

/// The sample aspect ratio, present when `aspect_ratio_info_present_flag` is set.
#[derive(Debug, Clone, Copy, PartialEq, Eq, Structural)]
pub struct SarDimensions {
    /// The sample aspect ratio of the luma samples.
    pub aspect_ratio_idc: AspectRatioIdc,
    /// The horizontal size of the aspect ratio; 0 unless `aspect_ratio_idc` is 255.
    pub sar_width: u16,
    /// The vertical size of the aspect ratio; 0 unless `aspect_ratio_idc` is 255.
    pub sar_height: u16,
}

/// Reads `aspect_ratio_idc` and, when it is 255, the 16-bit width and height.
pub open spec fn spec_sar_dimensions(b: Seq<bool>, p: int) -> Result<(SarDimensions, int), IoError> {
    match byte_at(b, p) {
        Err(e) => Err(e),
        Ok((idc, p1)) => if idc == 255 {
            match bits_at(b, p1, 16) {
                Err(e) => Err(e),
                Ok((w, p2)) => match bits_at(b, p2, 16) {
                    Err(e) => Err(e),
                    Ok((h, p3)) => Ok(
                        (
                            SarDimensions {
                                aspect_ratio_idc: AspectRatioIdc::spec_from(idc),
                                sar_width: w as u16,
                                sar_height: h as u16,
                            },
                            p3,
                        ),
                    ),
                },
            }
        } else {
            Ok(
                (
                    SarDimensions {
                        aspect_ratio_idc: AspectRatioIdc::spec_from(idc),
                        sar_width: 0,
                        sar_height: 0,
                    },
                    p1,
                ),
            )
        },
    }
}

impl SarDimensions {
    /// The bits that `build` writes.
    pub open spec fn spec_bits(&self) -> Seq<bool> {
        nat_bits(self.aspect_ratio_idc.spec_value() as nat, 8) + if self.aspect_ratio_idc.spec_value()
            == 255 {
            nat_bits(self.sar_width as nat, 16) + nat_bits(self.sar_height as nat, 16)
        } else {
            seq![]
        }
    }

    /// Parses the fields defined when `aspect_ratio_info_present_flag == 1`.
    pub fn parse(reader: &mut BitReader) -> (r: Result<Self, IoError>)
        requires
            old(reader).wf(),
        ensures
            final(reader).wf(),
            final(reader).data@ == old(reader).data@,
            read_result(
                spec_sar_dimensions(old(reader).bits(), old(reader).pos as int),
                r,
                final(reader).pos as int,
            ),
    {
        let mut sar_width: u16 = 0;
        let mut sar_height: u16 = 0;
        let aspect_ratio_idc = reader.read_u8()?;
        if aspect_ratio_idc == 255 {
            sar_width = reader.read_bits(16)? as u16;
            sar_height = reader.read_bits(16)? as u16;
        }
        Ok(SarDimensions { aspect_ratio_idc: AspectRatioIdc::from(aspect_ratio_idc), sar_width, sar_height })
    }

    /// Writes `aspect_ratio_idc` and, when it is 255, the width and height.
    pub fn build(&self, writer: &mut BitWriter)
        requires
            old(writer).wf(),
        ensures
            final(writer).wf(),
            final(writer).bits() == old(writer).bits() + self.spec_bits(),
    {
        let idc = self.aspect_ratio_idc.value();
        writer.write_bits(idc as u64, 8);
        if idc == 255 {
            writer.write_bits(self.sar_width as u64, 16);
            writer.write_bits(self.sar_height as u64, 16);
        }
        assert(writer.bits() =~= old(writer).bits() + self.spec_bits());
    }
}

/// The colour description of the video signal, present when `video_signal_type_present_flag`
/// is set. ISO/IEC-14496-10-2022 - E.2.1
#[derive(Debug, Clone, Copy, PartialEq, Eq, Structural)]
pub struct ColorConfig {
    /// The video format (three bits).
    pub video_format: VideoFormat,
    /// The black level and range of the luma and chroma signals.
    pub video_full_range_flag: bool,
    /// `colour_primaries`; 2 (unspecified) when no colour description is present.
    pub color_primaries: u8,
    /// `transfer_characteristics`; 2 (unspecified) when no colour description is present.
    pub transfer_characteristics: u8,
    /// `matrix_coefficients`; 2 (unspecified) when no colour description is present.
    pub matrix_coefficients: u8,
}

/// Reads `video_format`, `video_full_range_flag` and the optional colour description.
pub open spec fn spec_color_config(b: Seq<bool>, p: int) -> Result<(ColorConfig, int), IoError> {
    match bits_at(b, p, 3) {
        Err(e) => Err(e),
        Ok((vf, p1)) => match bit_at(b, p1) {
            Err(e) => Err(e),
            Ok((full, p2)) => match bit_at(b, p2) {
                Err(e) => Err(e),
                Ok((present, p3)) => if present {
                    match byte_at(b, p3) {
                        Err(e) => Err(e),
                        Ok((cp, p4)) => match byte_at(b, p4) {
                            Err(e) => Err(e),
                            Ok((tc, p5)) => match byte_at(b, p5) {
                                Err(e) => Err(e),
                                Ok((mc, p6)) => Ok(
                                    (
                                        ColorConfig {
                                            video_format: VideoFormat::spec_from(vf as u8),
                                            video_full_range_flag: full,
                                            color_primaries: cp,
                                            transfer_characteristics: tc,
                                            matrix_coefficients: mc,
                                        },
                                        p6,
                                    ),
                                ),
                            },
                        },
                    }
                } else {
                    Ok(
                        (
                            ColorConfig {
                                video_format: VideoFormat::spec_from(vf as u8),
                                video_full_range_flag: full,
                                color_primaries: 2,
                                transfer_characteristics: 2,
                                matrix_coefficients: 2,
                            },
                            p3,
                        ),
                    )
                },
            },
        },
    }
}

impl ColorConfig {
    /// The bits that `build` writes: the colour description is left out when all three of its
    /// values are 2 (unspecified).
    pub open spec fn spec_bits(&self) -> Seq<bool> {
        nat_bits(self.video_format.spec_value() as nat, 3) + seq![self.video_full_range_flag] + if (
        self.color_primaries == 2 && self.transfer_characteristics == 2 && self.matrix_coefficients
            == 2) {
            seq![false]
        } else {
            seq![true] + nat_bits(self.color_primaries as nat, 8) + nat_bits(
                self.transfer_characteristics as nat,
                8,
            ) + nat_bits(self.matrix_coefficients as nat, 8)
        }
    }

    /// Parses the fields defined when `video_signal_type_present_flag == 1`.
    pub fn parse(reader: &mut BitReader) -> (r: Result<Self, IoError>)
        requires
            old(reader).wf(),
        ensures
            final(reader).wf(),
            final(reader).data@ == old(reader).data@,
            read_result(
                spec_color_config(old(reader).bits(), old(reader).pos as int),
                r,
                final(reader).pos as int,
            ),
    {
        let video_format = reader.read_bits(3)? as u8;
        let video_full_range_flag = reader.read_bit()?;
        let color_primaries;
        let transfer_characteristics;
        let matrix_coefficients;
        let color_description_present_flag = reader.read_bit()?;
        if color_description_present_flag {
            color_primaries = reader.read_u8()?;
            transfer_characteristics = reader.read_u8()?;
            matrix_coefficients = reader.read_u8()?;
        } else {
            color_primaries = 2;
            transfer_characteristics = 2;
            matrix_coefficients = 2;
        }
        Ok(ColorConfig {
            video_format: VideoFormat::from(video_format),
            video_full_range_flag,
            color_primaries,
            transfer_characteristics,
            matrix_coefficients,
        })
    }

    /// Writes the video format, the range flag and the colour description.
    pub fn build(&self, writer: &mut BitWriter)
        requires
            old(writer).wf(),
        ensures
            final(writer).wf(),
            final(writer).bits() == old(writer).bits() + self.spec_bits(),
    {
        writer.write_bits(self.video_format.value() as u64, 3);
        writer.write_bit(self.video_full_range_flag);
        if self.color_primaries == 2 && self.transfer_characteristics == 2
            && self.matrix_coefficients == 2 {
            writer.write_bit(false);
        } else {
            writer.write_bit(true);
            writer.write_bits(self.color_primaries as u64, 8);
            writer.write_bits(self.transfer_characteristics as u64, 8);
            writer.write_bits(self.matrix_coefficients as u64, 8);
        }
        assert(writer.bits() =~= old(writer).bits() + self.spec_bits());
    }
}

/// The location of the chroma samples, present when `chroma_loc_info_present_flag` is set.
#[derive(Debug, Clone, Copy, PartialEq, Eq, Structural)]
pub struct ChromaSampleLoc {
    /// `chroma_sample_loc_type_top_field`.
    pub chroma_sample_loc_type_top_field: u8,
    /// `chroma_sample_loc_type_bottom_field`.
    pub chroma_sample_loc_type_bottom_field: u8,
}

/// Reads the two chroma sample location types, each an unsigned Exp-Golomb code kept in 8 bits.
pub open spec fn spec_chroma_sample_loc(b: Seq<bool>, p: int) -> Result<(ChromaSampleLoc, int), IoError> {
    match ue_at(b, p) {
        Err(e) => Err(e),
        Ok((t, p1)) => match ue_at(b, p1) {
            Err(e) => Err(e),
            Ok((bo, p2)) => Ok(
                (
                    ChromaSampleLoc {
                        chroma_sample_loc_type_top_field: t as u8,
                        chroma_sample_loc_type_bottom_field: bo as u8,
                    },
                    p2,
                ),
            ),
        },
    }
}

impl ChromaSampleLoc {
    /// The bits that `build` writes.
    pub open spec fn spec_bits(&self) -> Seq<bool> {
        ue_bits(self.chroma_sample_loc_type_top_field as u64) + ue_bits(
            self.chroma_sample_loc_type_bottom_field as u64,
        )
    }

    /// Parses the fields defined when `chroma_loc_info_present_flag == 1`.
    pub fn parse(reader: &mut BitReader) -> (r: Result<Self, IoError>)
        requires
            old(reader).wf(),
        ensures
            final(reader).wf(),
            final(reader).data@ == old(reader).data@,
            read_result(
                spec_chroma_sample_loc(old(reader).bits(), old(reader).pos as int),
                r,
                final(reader).pos as int,
            ),
    {
        let chroma_sample_loc_type_top_field = read_exp_golomb(reader)? as u8;
        let chroma_sample_loc_type_bottom_field = read_exp_golomb(reader)? as u8;
        Ok(ChromaSampleLoc { chroma_sample_loc_type_top_field, chroma_sample_loc_type_bottom_field })
    }

    /// Writes the two location types.
    pub fn build(&self, writer: &mut BitWriter)
        requires
            old(writer).wf(),
        ensures
            final(writer).wf(),
            final(writer).bits() == old(writer).bits() + self.spec_bits(),
    {
        write_exp_golomb(writer, self.chroma_sample_loc_type_top_field as u64);
        write_exp_golomb(writer, self.chroma_sample_loc_type_bottom_field as u64);
        assert(writer.bits() =~= old(writer).bits() + self.spec_bits());
    }
}

/// The timing of the video, present when `timing_info_present_flag` is set. Neither field is
/// ever zero.
#[derive(Debug, Clone, Copy, PartialEq, Eq, Structural)]
pub struct TimingInfo {
    /// `num_units_in_tick`: the smallest unit of time.
    pub num_units_in_tick: u32,
    /// `time_scale`: the number of time units in one second.
    pub time_scale: u32,
}

/// Reads `num_units_in_tick` and `time_scale`, 32 bits each; a zero is refused.
pub open spec fn spec_timing_info(b: Seq<bool>, p: int) -> Result<(TimingInfo, int), IoError> {
    match bits_at(b, p, 32) {
        Err(e) => Err(e),
        Ok((n, p1)) => if n == 0 {
            Err(IoError::ZeroNumUnitsInTick)
        } else {
            match bits_at(b, p1, 32) {
                Err(e) => Err(e),
                Ok((t, p2)) => if t == 0 {
                    Err(IoError::ZeroTimeScale)
                } else {
                    Ok((TimingInfo { num_units_in_tick: n as u32, time_scale: t as u32 }, p2))
                },
            }
        },
    }
}

impl TimingInfo {
    /// The bits that `build` writes.
    pub open spec fn spec_bits(&self) -> Seq<bool> {
        nat_bits(self.num_units_in_tick as nat, 32) + nat_bits(self.time_scale as nat, 32)
    }

    /// Parses the fields defined when `timing_info_present_flag == 1`.
    pub fn parse(reader: &mut BitReader) -> (r: Result<Self, IoError>)
        requires
            old(reader).wf(),
        ensures
            final(reader).wf(),
            final(reader).data@ == old(reader).data@,
            read_result(
                spec_timing_info(old(reader).bits(), old(reader).pos as int),
                r,
                final(reader).pos as int,
            ),
            r matches Ok(t) ==> t.num_units_in_tick != 0 && t.time_scale != 0,
    {
        let ghost b = reader.bits();
        let ghost p = reader.pos as int;
        let num_units_in_tick = reader.read_bits(32)?;
        proof {
            crate::bits::lemma_bits_value_bound(b.subrange(p, p + 32));
            crate::bits::lemma_p2_64();
        }
        if num_units_in_tick == 0 {
            return Err(IoError::ZeroNumUnitsInTick);
        }
        let ghost p1 = reader.pos as int;
        let time_scale = reader.read_bits(32)?;
        proof {
            crate::bits::lemma_bits_value_bound(b.subrange(p1, p1 + 32));
        }
        if time_scale == 0 {
            return Err(IoError::ZeroTimeScale);
        }
        Ok(TimingInfo { num_units_in_tick: num_units_in_tick as u32, time_scale: time_scale as u32 })
    }

    /// Writes the two 32-bit fields.
    pub fn build(&self, writer: &mut BitWriter)
        requires
            old(writer).wf(),
        ensures
            final(writer).wf(),
            final(writer).bits() == old(writer).bits() + self.spec_bits(),
    {
        writer.write_bits(self.num_units_in_tick as u64, 32);
        writer.write_bits(self.time_scale as u64, 32);
        assert(writer.bits() =~= old(writer).bits() + self.spec_bits());
    }
}

/// The signed Exp-Golomb codes of a list, one after the other.
pub open spec fn se_list_bits(s: Seq<i64>) -> Seq<bool>
    decreases s.len(),
{
    if s.len() == 0 {
        seq![]
    } else {
        se_list_bits(s.drop_last()) + se_bits(s.last())
    }
}

/// Reads `n` signed Exp-Golomb codes.
pub open spec fn spec_se_list(b: Seq<bool>, p: int, n: nat) -> Result<(Seq<i64>, int), IoError>
    decreases n,
{
    if n == 0 {
        Ok((seq![], p))
    } else {
        match spec_se_list(b, p, (n - 1) as nat) {
            Err(e) => Err(e),
            Ok((s, p1)) => match se_at(b, p1) {
                Err(e) => Err(e),
                Ok((v, p2)) => Ok((s.push(v), p2)),
            },
        }
    }
}

/// The fields that are present when `pic_order_cnt_type == 1`.
#[derive(Debug, Clone, PartialEq, Eq)]
pub struct PicOrderCountType1 {
    /// `delta_pic_order_always_zero_flag`.
    pub delta_pic_order_always_zero_flag: bool,
    /// `offset_for_non_ref_pic`.
    pub offset_for_non_ref_pic: i64,
    /// `offset_for_top_to_bottom_field`.
    pub offset_for_top_to_bottom_field: i64,
    /// `num_ref_frames_in_pic_order_cnt_cycle`.
    pub num_ref_frames_in_pic_order_cnt_cycle: u64,
    /// `offset_for_ref_frame`, one value for each reference frame of the cycle.
    pub offset_for_ref_frame: Vec<i64>,
}

/// The mathematical value of a [`PicOrderCountType1`].
pub struct PicOrderCountType1View {
    pub delta_pic_order_always_zero_flag: bool,
    pub offset_for_non_ref_pic: i64,
    pub offset_for_top_to_bottom_field: i64,
    pub num_ref_frames_in_pic_order_cnt_cycle: u64,
    pub offset_for_ref_frame: Seq<i64>,
}

impl View for PicOrderCountType1 {
    type V = PicOrderCountType1View;

    open spec fn view(&self) -> PicOrderCountType1View {
        PicOrderCountType1View {
            delta_pic_order_always_zero_flag: self.delta_pic_order_always_zero_flag,
            offset_for_non_ref_pic: self.offset_for_non_ref_pic,
            offset_for_top_to_bottom_field: self.offset_for_top_to_bottom_field,
            num_ref_frames_in_pic_order_cnt_cycle: self.num_ref_frames_in_pic_order_cnt_cycle,
            offset_for_ref_frame: self.offset_for_ref_frame@,
        }
    }
}

/// Reads the fields that are present when `pic_order_cnt_type == 1`.
pub open spec fn spec_pic_order_count_type1(b: Seq<bool>, p: int) -> Result<
    (PicOrderCountType1View, int),
    IoError,
> {
    match bit_at(b, p) {
        Err(e) => Err(e),
        Ok((flag, p1)) => match se_at(b, p1) {
            Err(e) => Err(e),
            Ok((nonref, p2)) => match se_at(b, p2) {
                Err(e) => Err(e),
                Ok((topbot, p3)) => match ue_at(b, p3) {
                    Err(e) => Err(e),
                    Ok((n, p4)) => match spec_se_list(b, p4, n as nat) {
                        Err(e) => Err(e),
                        Ok((offsets, p5)) => Ok(
                            (
                                PicOrderCountType1View {
                                    delta_pic_order_always_zero_flag: flag,
                                    offset_for_non_ref_pic: nonref,
                                    offset_for_top_to_bottom_field: topbot,
                                    num_ref_frames_in_pic_order_cnt_cycle: n,
                                    offset_for_ref_frame: offsets,
                                },
                                p5,
                            ),
                        ),
                    },
                },
            },
        },
    }
}

impl PicOrderCountType1View {
    /// The values can be written: the signed ones are not `i64::MIN` and the count is not
    /// `u64::MAX`, which have no Exp-Golomb code in 64 bits.
    pub open spec fn writable(&self) -> bool {
        &&& self.offset_for_non_ref_pic > i64::MIN
        &&& self.offset_for_top_to_bottom_field > i64::MIN
        &&& self.num_ref_frames_in_pic_order_cnt_cycle < u64::MAX
        &&& forall|i: int|
            0 <= i < self.offset_for_ref_frame.len() ==> #[trigger] self.offset_for_ref_frame[i]
                > i64::MIN
    }

    /// The bits that `build` writes.
    pub open spec fn spec_bits(&self) -> Seq<bool> {
        seq![self.delta_pic_order_always_zero_flag] + se_bits(self.offset_for_non_ref_pic) + se_bits(
            self.offset_for_top_to_bottom_field,
        ) + ue_bits(self.num_ref_frames_in_pic_order_cnt_cycle) + se_list_bits(
            self.offset_for_ref_frame,
        )
    }
}

/// A failed read stays failed when more codes are asked for.
pub proof fn lemma_se_list_err(b: Seq<bool>, p: int, k: nat, m: nat)
    requires
        k <= m,
        spec_se_list(b, p, k) is Err,
    ensures
        spec_se_list(b, p, m) == spec_se_list(b, p, k),
    decreases m - k,
{
    if k < m {
        lemma_se_list_err(b, p, k, (m - 1) as nat);
    }
}

impl PicOrderCountType1 {
    /// Parses the fields defined when `pic_order_cnt_type == 1`.
    #[verifier::loop_isolation(false)]
    pub fn parse(reader: &mut BitReader) -> (r: Result<Self, IoError>)
        requires
            old(reader).wf(),
        ensures
            final(reader).wf(),
            final(reader).data@ == old(reader).data@,
            read_result_view(
                spec_pic_order_count_type1(old(reader).bits(), old(reader).pos as int),
                r,
                final(reader).pos as int,
            ),
    {
        let ghost b = reader.bits();
        let delta_pic_order_always_zero_flag = reader.read_bit()?;
        let offset_for_non_ref_pic = read_signed_exp_golomb(reader)?;
        let offset_for_top_to_bottom_field = read_signed_exp_golomb(reader)?;
        let num_ref_frames_in_pic_order_cnt_cycle = read_exp_golomb(reader)?;
        let ghost start = reader.pos as int;
        let mut offset_for_ref_frame: Vec<i64> = Vec::new();
        let mut i: u64 = 0;
        while i < num_ref_frames_in_pic_order_cnt_cycle
            invariant
                reader.wf(),
                reader.data@ == old(reader).data@,
                b == reader.bits(),
                i <= num_ref_frames_in_pic_order_cnt_cycle,
                spec_se_list(b, start, i as nat) == Ok::<(Seq<i64>, int), IoError>(
                    (offset_for_ref_frame@, reader.pos as int),
                ),
            decreases num_ref_frames_in_pic_order_cnt_cycle - i,
        {
            let v = match read_signed_exp_golomb(reader) {
                Ok(v) => v,
                Err(e) => {
                    proof {
                        lemma_se_list_err(
                            b,
                            start,
                            (i + 1) as nat,
                            num_ref_frames_in_pic_order_cnt_cycle as nat,
                        );
                    }
                    return Err(e);
                },
            };
            offset_for_ref_frame.push(v);
            i = i + 1;
        }
        Ok(PicOrderCountType1 {
            delta_pic_order_always_zero_flag,
            offset_for_non_ref_pic,
            offset_for_top_to_bottom_field,
            num_ref_frames_in_pic_order_cnt_cycle,
            offset_for_ref_frame,
        })
    }

    /// Writes the fields.
    pub fn build(&self, writer: &mut BitWriter)
        requires
            old(writer).wf(),
            self@.writable(),
        ensures
            final(writer).wf(),
            final(writer).bits() == old(writer).bits() + self@.spec_bits(),
    {
        writer.write_bit(self.delta_pic_order_always_zero_flag);
        write_signed_exp_golomb(writer, self.offset_for_non_ref_pic);
        write_signed_exp_golomb(writer, self.offset_for_top_to_bottom_field);
        write_exp_golomb(writer, self.num_ref_frames_in_pic_order_cnt_cycle);
        let ghost mid = writer.bits();
        let mut i: usize = 0;
        while i < self.offset_for_ref_frame.len()
            invariant
                writer.wf(),
                self@.writable(),
                i <= self.offset_for_ref_frame.len(),
                writer.bits() == mid + se_list_bits(self.offset_for_ref_frame@.subrange(0, i as int)),
            decreases self.offset_for_ref_frame.len() - i,
        {
            let v = self.offset_for_ref_frame[i];
            assert(self@.offset_for_ref_frame[i as int] > i64::MIN);
            write_signed_exp_golomb(writer, v);
            assert(self.offset_for_ref_frame@.subrange(0, i + 1).drop_last() =~= self.offset_for_ref_frame@.subrange(0, i as int));
            i = i + 1;
            assert(writer.bits() =~= mid + se_list_bits(self.offset_for_ref_frame@.subrange(0, i as int)));
        }
        assert(self.offset_for_ref_frame@.subrange(0, i as int) =~= self.offset_for_ref_frame@);
        assert(writer.bits() =~= old(writer).bits() + self@.spec_bits());
    }
}

} // verus!
