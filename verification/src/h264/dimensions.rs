//! The frame size that an SPS gives: the coded size in macroblocks, less the crop offsets,
//! each of which counts two pixels.
use vstd::prelude::*;

use crate::h264::sps::SpsView;

verus! {

/// The width is 16 pixels per macroblock column, less two pixels per unit of the left and of
/// the right crop offset; without cropping nothing is taken off.
pub proof fn lemma_width_from_fields(s: SpsView)
    ensures
        s.frame_crop_info is None ==> s.spec_width() == (s.pic_width_in_mbs_minus1 + 1) * 16,
        s.frame_crop_info is Some ==> s.spec_width() == (s.pic_width_in_mbs_minus1 + 1) * 16 - 2
            * s.frame_crop_info->Some_0.frame_crop_left_offset - 2
            * s.frame_crop_info->Some_0.frame_crop_right_offset,
{
}

/// The height is 16 pixels per macroblock row, twice that when frames may hold fields (the
/// adaptive frame/field flag is present), less two pixels per unit of the top and of the
/// bottom crop offset; without cropping nothing is taken off.
pub proof fn lemma_height_from_fields(s: SpsView)
    ensures
        s.mb_adaptive_frame_field_flag is None && s.frame_crop_info is None ==> s.spec_height() == (
        s.pic_height_in_map_units_minus1 + 1) * 16,
        s.mb_adaptive_frame_field_flag is Some && s.frame_crop_info is None ==> s.spec_height() == 2 * (
        s.pic_height_in_map_units_minus1 + 1) * 16,
        s.mb_adaptive_frame_field_flag is None && s.frame_crop_info is Some ==> s.spec_height() == (
        s.pic_height_in_map_units_minus1 + 1) * 16 - 2 * s.frame_crop_info->Some_0.frame_crop_top_offset
            - 2 * s.frame_crop_info->Some_0.frame_crop_bottom_offset,
        s.mb_adaptive_frame_field_flag is Some && s.frame_crop_info is Some ==> s.spec_height() == 2 * (
        s.pic_height_in_map_units_minus1 + 1) * 16 - 2 * s.frame_crop_info->Some_0.frame_crop_top_offset
            - 2 * s.frame_crop_info->Some_0.frame_crop_bottom_offset,
{
}

/// Between two SPSs of the same coded width that both crop, the widths differ by two pixels
/// for each unit by which their left offsets differ and for each by which their right offsets
/// differ, in the other direction: raising the right offset by one narrows the frame by two.
pub proof fn lemma_width_crop_difference(s: SpsView, t: SpsView)
    requires
        s.pic_width_in_mbs_minus1 == t.pic_width_in_mbs_minus1,
        s.frame_crop_info is Some,
        t.frame_crop_info is Some,
    ensures
        t.spec_width() - s.spec_width() == 2 * (s.frame_crop_info->Some_0.frame_crop_left_offset
            - t.frame_crop_info->Some_0.frame_crop_left_offset) + 2 * (
        s.frame_crop_info->Some_0.frame_crop_right_offset
            - t.frame_crop_info->Some_0.frame_crop_right_offset),
{
}

/// Between two SPSs of the same coded height and frame/field coding that both crop, the
/// heights differ by two pixels for each unit by which their top offsets differ and for each by
/// which their bottom offsets differ, in the other direction.
pub proof fn lemma_height_crop_difference(s: SpsView, t: SpsView)
    requires
        s.pic_height_in_map_units_minus1 == t.pic_height_in_map_units_minus1,
        s.mb_adaptive_frame_field_flag is None <==> t.mb_adaptive_frame_field_flag is None,
        s.frame_crop_info is Some,
        t.frame_crop_info is Some,
    ensures
        t.spec_height() - s.spec_height() == 2 * (s.frame_crop_info->Some_0.frame_crop_top_offset
            - t.frame_crop_info->Some_0.frame_crop_top_offset) + 2 * (
        s.frame_crop_info->Some_0.frame_crop_bottom_offset
            - t.frame_crop_info->Some_0.frame_crop_bottom_offset),
{
}

} // verus!
