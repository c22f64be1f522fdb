use scuffle_media::bits::{BitReader, BitWriter};
use scuffle_media::error::IoErrorKind;
use scuffle_media::expgolomb::{write_exp_golomb, write_signed_exp_golomb};
use scuffle_media::h264::enums::{AspectRatioIdc, NALUnitType, VideoFormat};
use scuffle_media::h264::sps::Sps;
use scuffle_media::h264::sps_ext::SpsExtended;
use scuffle_media::h264::sps_parts::{
    ChromaSampleLoc, ColorConfig, FrameCropInfo, PicOrderCountType1, SarDimensions, TimingInfo,
};

/// The frame rate that the timing gives: `time_scale / (2 * num_units_in_tick)`, or 0.
fn frame_rate(sps: &Sps) -> f64 {
    match &sps.timing_info {
        Some(t) => t.time_scale as f64 / (2.0 * t.num_units_in_tick as f64),
        None => 0.0,
    }
}

#[test]
fn test_parse_sps_insufficient_bytes_() {
    let mut writer = BitWriter::new();

    writer.write_bit(true); // only write 1 bit
    let sps = writer.finish();

    let result = Sps::parse(&sps);

    assert!(result.is_err());
    let err = result.unwrap_err();

    assert_eq!(err.kind(), IoErrorKind::InvalidData);
    assert_eq!(err.message(), "Insufficient data: SPS must be at least 4 bytes long");
}

#[test]
fn test_parse_sps_set_forbidden_bit() {
    let mut writer = BitWriter::new();

    writer.write_bit(true); // sets the forbidden bit
    writer.write_bits(0x00, 8); // ensure length > 3 bytes
    writer.write_bits(0x00, 8); // ensure length > 3 bytes
    writer.write_bits(0x00, 8); // ensure length > 3 bytes
    let sps = writer.finish();

    let result = Sps::parse(&sps);

    assert!(result.is_err());
    let err = result.unwrap_err();

    assert_eq!(err.kind(), IoErrorKind::InvalidData);
    assert_eq!(err.message(), "Forbidden zero bit is set");
}

#[test]
fn test_parse_sps_invalid_nal() {
    let mut writer = BitWriter::new();

    writer.write_bit(false); // forbidden zero bit must be unset
    writer.write_bits(0b00, 2); // nal_ref_idc is 00
    writer.write_bits(0b000, 3); // set nal_unit_type to something that isn't 7

    writer.write_bits(0x00, 8); // ensure length > 3 bytes
    writer.write_bits(0x00, 8); // ensure length > 3 bytes
    writer.write_bits(0x00, 8); // ensure length > 3 bytes
    let sps = writer.finish();

    let result = Sps::parse(&sps);

    assert!(result.is_err());
    let err = result.unwrap_err();

    assert_eq!(err.kind(), IoErrorKind::InvalidData);
    assert_eq!(err.message(), "NAL unit type is not SPS");
}

#[test]
fn test_parse_build_sps_4k_144fps() {
    let mut writer = BitWriter::new();

    // forbidden zero bit must be unset
    writer.write_bit(false);
    // nal_ref_idc is 0
    writer.write_bits(0, 2);
    // nal_unit_type must be 7
    writer.write_bits(7, 5);

    // profile_idc = 100
    writer.write_bits(100, 8);
    // constraint_setn_flags all false
    writer.write_bits(0, 8);
    // level_idc = 0
    writer.write_bits(0, 8);

    // seq_parameter_set_id is expg
    write_exp_golomb(&mut writer, 0);

    // sps ext
    // chroma_format_idc is expg
    write_exp_golomb(&mut writer, 0);
    // bit_depth_luma_minus8 is expg
    write_exp_golomb(&mut writer, 0);
    // bit_depth_chroma_minus8 is expg
    write_exp_golomb(&mut writer, 0);
    // qpprime
    writer.write_bit(false);
    // seq_scaling_matrix_present_flag
    writer.write_bit(false);

    // back to sps
    // log2_max_frame_num_minus4 is expg
    write_exp_golomb(&mut writer, 0);
    // pic_order_cnt_type is expg
    write_exp_golomb(&mut writer, 0);
    // log2_max_pic_order_cnt_lsb_minus4 is expg
    write_exp_golomb(&mut writer, 0);

    // max_num_ref_frames is expg
    write_exp_golomb(&mut writer, 0);
    // gaps_in_frame_num_value_allowed_flag
    writer.write_bit(false);
    // 3840 width:
    // 3840 = (p + 1) * 16 - 2 * offset1 - 2 * offset2
    // we set offset1 and offset2 to both be 0 later
    // 3840 = (p + 1) * 16
    // p = 239
    write_exp_golomb(&mut writer, 239);
    // we want 2160 height:
    // 2160 = ((2 - m) * (p + 1) * 16) - 2 * offset1 - 2 * offset2
    // we set offset1 and offset2 to both be 0 later
    // m is frame_mbs_only_flag which we set to 1 later
    // 2160 = (2 - 1) * (p + 1) * 16
    // 2160 = (p + 1) * 16
    // p = 134
    write_exp_golomb(&mut writer, 134);

    // frame_mbs_only_flag
    writer.write_bit(true);

    // direct_8x8_inference_flag
    writer.write_bit(false);
    // frame_cropping_flag
    writer.write_bit(false);

    // vui_parameters_present_flag
    writer.write_bit(true);

    // enter vui to set the framerate
    // aspect_ratio_info_present_flag
    writer.write_bit(true);
    // we want square (1:1) for 16:9 for 4k w/o overscan
    // aspect_ratio_idc
    writer.write_bits(1, 8);

    // overscan_info_present_flag
    writer.write_bit(true);
    // we dont want overscan
    // overscan_appropriate_flag
    writer.write_bit(false);

    // video_signal_type_present_flag
    writer.write_bit(false);
    // chroma_loc_info_present_flag
    writer.write_bit(false);

    // timing_info_present_flag
    writer.write_bit(true);
    // we can set this to 100 for example
    // num_units_in_tick is a u32
    writer.write_bits(100, 32);
    // fps = time_scale / (2 * num_units_in_tick)
    // since we want 144 fps:
    // 144 = time_scale / (2 * 100)
    // 28800 = time_scale
    // time_scale is a u32
    writer.write_bits(28800, 32);
    let sps = writer.finish();

    let result = Sps::parse(&sps).unwrap();

    assert_eq!(
        result,
        Sps {
            forbidden_zero_bit: false,
            nal_ref_idc: 0,
            nal_unit_type: NALUnitType::SPS,
            profile_idc: 100,
            constraint_set0_flag: false,
            constraint_set1_flag: false,
            constraint_set2_flag: false,
            constraint_set3_flag: false,
            constraint_set4_flag: false,
            constraint_set5_flag: false,
            level_idc: 0,
            seq_parameter_set_id: 0,
            ext: Some(
                SpsExtended {
                    chroma_format_idc: 0,
                    separate_color_plane_flag: false,
                    bit_depth_luma_minus8: 0,
                    bit_depth_chroma_minus8: 0,
                    qpprime_y_zero_transform_bypass_flag: false,
                    scaling_matrix: vec![],
                },
            ),
            log2_max_frame_num_minus4: 0,
            pic_order_cnt_type: 0,
            log2_max_pic_order_cnt_lsb_minus4: Some(
                0,
            ),
            pic_order_cnt_type1: None,
            max_num_ref_frames: 0,
            gaps_in_frame_num_value_allowed_flag: false,
            pic_width_in_mbs_minus1: 239,
            pic_height_in_map_units_minus1: 134,
            mb_adaptive_frame_field_flag: None,
            direct_8x8_inference_flag: false,
            frame_crop_info: None,
            sample_aspect_ratio: Some(
                SarDimensions {
                    aspect_ratio_idc: AspectRatioIdc::Square,
                    sar_width: 0,
                    sar_height: 0,
                },
            ),
            overscan_appropriate_flag: Some(
                false,
            ),
            color_config: None,
            chroma_sample_loc: None,
            timing_info: Some(
                TimingInfo {
                    num_units_in_tick: 100,
                    time_scale: 28800,
                },
            ),
        }
        
    );

    assert_eq!(144.0, frame_rate(&result));
    assert_eq!(3840, result.width());
    assert_eq!(2160, result.height());

    // create a writer for the builder
    let mut writer2 = BitWriter::new();

    // build from the example sps
    result.build(&mut writer2);
    let buf = writer2.finish();

    // sometimes bits can get lost because we save
    // some space with how the SPS is rebuilt.
    // so we can just confirm that they're the same
    // by rebuilding it.
    let reduced = Sps::parse(&buf).unwrap();
    assert_eq!(reduced, result);

    // now we can check that the bitstream from
    // the reduced version should be the same
    let mut writer3 = BitWriter::new();

    reduced.build(&mut writer3);
    let reduced_buf = writer3.finish();
    assert_eq!(reduced_buf, buf);
}

#[test]
fn test_parse_build_sps_1080_480fps_scaling_matrix() {
    let mut writer = BitWriter::new();

    // forbidden zero bit must be unset
    writer.write_bit(false);
    // nal_ref_idc is 0
    writer.write_bits(0, 2);
    // nal_unit_type must be 7
    writer.write_bits(7, 5);

    // profile_idc = 44
    writer.write_bits(44, 8);
    // constraint_setn_flags all false
    writer.write_bits(0, 8);
    // level_idc = 0
    writer.write_bits(0, 8);
    // seq_parameter_set_id is expg
    write_exp_golomb(&mut writer, 0);

    // sps ext
    // we want to try out chroma_format_idc = 3
    // chroma_format_idc is expg
    write_exp_golomb(&mut writer, 3);
    // separate_color_plane_flag
    writer.write_bit(false);
    // bit_depth_luma_minus8 is expg
    write_exp_golomb(&mut writer, 0);
    // bit_depth_chroma_minus8 is expg
    write_exp_golomb(&mut writer, 0);
    // qpprime
    writer.write_bit(false);
    // we want to simulate a scaling matrix
    // seq_scaling_matrix_present_flag
    writer.write_bit(true);

    // enter scaling matrix, we loop 12 times since
    // chroma_format_idc = 3.
    // loop 1 of 12
    // true to enter if statement
    writer.write_bit(true);
    // i < 6, so size is 16, so we loop 16 times
    // sub-loop 1 of 16
    // delta_scale is a SIGNED expg so we can try out
    // entering -4 so next_scale becomes 8 + 4 = 12
    write_signed_exp_golomb(&mut writer, 4);
    // sub-loop 2 of 16
    // delta_scale is a SIGNED expg so we can try out
    // entering -12 so next scale becomes 12 - 12 = 0
    write_signed_exp_golomb(&mut writer, -12);
    // at this point next_scale is 0, which means we break
    // loop 2 through 12
    // we don't need to try anything else so we can just skip through them by writing `0` bit 11 times.
    writer.write_bits(0, 11);

    // back to sps
    // log2_max_frame_num_minus4 is expg
    write_exp_golomb(&mut writer, 0);
    // we can try setting pic_order_cnt_type to 1
    // pic_order_cnt_type is expg
    write_exp_golomb(&mut writer, 1);

    // delta_pic_order_always_zero_flag
    writer.write_bit(false);
    // offset_for_non_ref_pic
    writer.write_bit(true);
    // offset_for_top_to_bottom_field
    writer.write_bit(true);
    // num_ref_frames_in_pic_order_cnt_cycle is expg
    write_exp_golomb(&mut writer, 1);
    // loop num_ref_frames_in_pic_order_cnt_cycle times (1)
    // offset_for_ref_frame is expg
    write_exp_golomb(&mut writer, 0);

    // max_num_ref_frames is expg
    write_exp_golomb(&mut writer, 0);
    // gaps_in_frame_num_value_allowed_flag
    writer.write_bit(false);
    // 1920 width:
    // 1920 = (p + 1) * 16 - 2 * offset1 - 2 * offset2
    // we set offset1 and offset2 to both be 4 later
    // 1920 = (p + 1) * 16 - 2 * 4 - 2 * 4
    // 1920 = (p + 1) * 16 - 16
    // p = 120
    // pic_width_in_mbs_minus1 is expg
    write_exp_golomb(&mut writer, 120);
    // we want 1080 height:
    // 1080 = ((2 - m) * (p + 1) * 16) - 2 * offset1 - 2 * offset2
    // we set offset1 and offset2 to both be 2 later
    // m is frame_mbs_only_flag which we set to 0 later
    // 1080 = (2 - 0) * (p + 1) * 16 - 2 * 2 - 2 * 2
    // 1080 = 2 * (p + 1) * 16 - 8
    // p = 33
    // pic_height_in_map_units_minus1 is expg
    write_exp_golomb(&mut writer, 33);

    // frame_mbs_only_flag
    writer.write_bit(false);
    // mb_adaptive_frame_field_flag
    writer.write_bit(false);

    // direct_8x8_inference_flag
    writer.write_bit(false);
    // frame_cropping_flag
    writer.write_bit(true);

    // frame_crop_left_offset is expg
    write_exp_golomb(&mut writer, 4);
    // frame_crop_left_offset is expg
    write_exp_golomb(&mut writer, 4);
    // frame_crop_left_offset is expg
    write_exp_golomb(&mut writer, 2);
    // frame_crop_left_offset is expg
    write_exp_golomb(&mut writer, 2);

    // vui_parameters_present_flag
    writer.write_bit(true);

    // enter vui to set the framerate
    // aspect_ratio_info_present_flag
    writer.write_bit(true);
    // we can try 255 to set the sar_width and sar_height
    // aspect_ratio_idc
    writer.write_bits(255, 8);
    // sar_width
    writer.write_bits(0, 16);
    // sar_height
    writer.write_bits(0, 16);

    // overscan_info_present_flag
    writer.write_bit(false);

    // video_signal_type_present_flag
    writer.write_bit(true);
    // video_format
    writer.write_bits(0, 3);
    // video_full_range_flag
    writer.write_bit(false);
    // color_description_present_flag
    writer.write_bit(true);
    // color_primaries
    writer.write_bits(1, 8);
    // transfer_characteristics
    writer.write_bits(1, 8);
    // matrix_coefficients
    writer.write_bits(1, 8);

    // chroma_loc_info_present_flag
    writer.write_bit(false);

    // timing_info_present_flag
    writer.write_bit(true);
    // we can set this to 1000 for example
    // num_units_in_tick is a u32
    writer.write_bits(1000, 32);
    // fps = time_scale / (2 * num_units_in_tick)
    // since we want 480 fps:
    // 480 = time_scale / (2 * 1000)
    // 960 000 = time_scale
    // time_scale is a u32
    writer.write_bits(960000, 32);
    let sps = writer.finish();

    let result = Sps::parse(&sps).unwrap();

    assert_eq!(
        result,
        Sps {
            forbidden_zero_bit: false,
            nal_ref_idc: 0,
            nal_unit_type: NALUnitType::SPS,
            profile_idc: 44,
            constraint_set0_flag: false,
            constraint_set1_flag: false,
            constraint_set2_flag: false,
            constraint_set3_flag: false,
            constraint_set4_flag: false,
            constraint_set5_flag: false,
            level_idc: 0,
            seq_parameter_set_id: 0,
            ext: Some(
                SpsExtended {
                    chroma_format_idc: 3,
                    separate_color_plane_flag: false,
                    bit_depth_luma_minus8: 0,
                    bit_depth_chroma_minus8: 0,
                    qpprime_y_zero_transform_bypass_flag: false,
                    scaling_matrix: vec![
                        vec![
                            4,
                            -12,
                        ],
                        vec![],
                        vec![],
                        vec![],
                        vec![],
                        vec![],
                        vec![],
                        vec![],
                        vec![],
                        vec![],
                        vec![],
                        vec![],
                    ],
                },
            ),
            log2_max_frame_num_minus4: 0,
            pic_order_cnt_type: 1,
            log2_max_pic_order_cnt_lsb_minus4: None,
            pic_order_cnt_type1: Some(
                PicOrderCountType1 {
                    delta_pic_order_always_zero_flag: false,
                    offset_for_non_ref_pic: 0,
                    offset_for_top_to_bottom_field: 0,
                    num_ref_frames_in_pic_order_cnt_cycle: 1,
                    offset_for_ref_frame: vec![
                        0,
                    ],
                },
            ),
            max_num_ref_frames: 0,
            gaps_in_frame_num_value_allowed_flag: false,
            pic_width_in_mbs_minus1: 120,
            pic_height_in_map_units_minus1: 33,
            mb_adaptive_frame_field_flag: Some(
                false,
            ),
            direct_8x8_inference_flag: false,
            frame_crop_info: Some(
                FrameCropInfo {
                    frame_crop_left_offset: 4,
                    frame_crop_right_offset: 4,
                    frame_crop_top_offset: 2,
                    frame_crop_bottom_offset: 2,
                },
            ),
            sample_aspect_ratio: Some(
                SarDimensions {
                    aspect_ratio_idc: AspectRatioIdc::ExtendedSar,
                    sar_width: 0,
                    sar_height: 0,
                },
            ),
            overscan_appropriate_flag: None,
            color_config: Some(
                ColorConfig {
                    video_format: VideoFormat::Component,
                    video_full_range_flag: false,
                    color_primaries: 1,
                    transfer_characteristics: 1,
                    matrix_coefficients: 1,
                },
            ),
            chroma_sample_loc: None,
            timing_info: Some(
                TimingInfo {
                    num_units_in_tick: 1000,
                    time_scale: 960000,
                },
            ),
        }
        
    );

    assert_eq!(480.0, frame_rate(&result));
    assert_eq!(1920, result.width());
    assert_eq!(1080, result.height());

    // create a writer for the builder
    let mut writer2 = BitWriter::new();

    // build from the example sps
    result.build(&mut writer2);
    let buf = writer2.finish();

    // sometimes bits can get lost because we save
    // some space with how the SPS is rebuilt.
    // so we can just confirm that they're the same
    // by rebuilding it.
    let reduced = Sps::parse(&buf).unwrap();
    assert_eq!(reduced, result);

    // now we can check that the bitstream from
    // the reduced version should be the same
    let mut writer3 = BitWriter::new();

    reduced.build(&mut writer3);
    let reduced_buf = writer3.finish();
    assert_eq!(reduced_buf, buf);
}

#[test]
fn test_parse_build_sps_1280x800_0fps() {
    let mut writer = BitWriter::new();

    // forbidden zero bit must be unset
    writer.write_bit(false);
    // nal_ref_idc is 0
    writer.write_bits(0, 2);
    // nal_unit_type must be 7
    writer.write_bits(7, 5);

    // profile_idc = 77
    writer.write_bits(77, 8);
    // constraint_setn_flags all false
    writer.write_bits(0, 8);
    // level_idc = 0
    writer.write_bits(0, 8);

    // seq_parameter_set_id is expg
    write_exp_golomb(&mut writer, 0);

    // profile_idc = 77 means we skip the sps_ext
    // log2_max_frame_num_minus4 is expg
    write_exp_golomb(&mut writer, 0);
    // pic_order_cnt_type is expg
    write_exp_golomb(&mut writer, 0);
    // log2_max_pic_order_cnt_lsb_minus4
    write_exp_golomb(&mut writer, 0);

    // max_num_ref_frames is expg
    write_exp_golomb(&mut writer, 0);
    // gaps_in_frame_num_value_allowed_flag
    writer.write_bit(false);
    // 1280 width:
    // 1280 = (p + 1) * 16 - 2 * offset1 - 2 * offset2
    // we set offset1 and offset2 to both be 0 later
    // 1280 = (p + 1) * 16
    // p = 79
    write_exp_golomb(&mut writer, 79);
    // we want 800 height:
    // 800 = ((2 - m) * (p + 1) * 16) - 2 * offset1 - 2 * offset2
    // we set offset1 and offset2 to both be 0 later
    // m is frame_mbs_only_flag which we set to 1 later
    // 800 = (2 - 1) * (p + 1) * 16 - 2 * 0 - 2 * 0
    // 800 = (p + 1) * 16
    // p = 49
    write_exp_golomb(&mut writer, 49);

    // frame_mbs_only_flag
    writer.write_bit(true);

    // direct_8x8_inference_flag
    writer.write_bit(false);
    // frame_cropping_flag
    writer.write_bit(false);

    // vui_parameters_present_flag
    writer.write_bit(true);

    // enter vui to set the framerate
    // aspect_ratio_info_present_flag
    writer.write_bit(false);

    // overscan_info_present_flag
    writer.write_bit(false);

    // video_signal_type_present_flag
    writer.write_bit(true);
    // video_format
    writer.write_bits(0, 3);
    // video_full_range_flag
    writer.write_bit(false);
    // color_description_present_flag
    writer.write_bit(false);

    // chroma_loc_info_present_flag
    writer.write_bit(true);
    // chroma_sample_loc_type_top_field is expg
    write_exp_golomb(&mut writer, 2);
    // chroma_sample_loc_type_bottom_field is expg
    write_exp_golomb(&mut writer, 2);
    let sps = writer.finish();

    let result = Sps::parse(&sps).unwrap();

    assert_eq!(
        result,
        Sps {
            forbidden_zero_bit: false,
            nal_ref_idc: 0,
            nal_unit_type: NALUnitType::SPS,
            profile_idc: 77,
            constraint_set0_flag: false,
            constraint_set1_flag: false,
            constraint_set2_flag: false,
            constraint_set3_flag: false,
            constraint_set4_flag: false,
            constraint_set5_flag: false,
            level_idc: 0,
            seq_parameter_set_id: 0,
            ext: None,
            log2_max_frame_num_minus4: 0,
            pic_order_cnt_type: 0,
            log2_max_pic_order_cnt_lsb_minus4: Some(
                0,
            ),
            pic_order_cnt_type1: None,
            max_num_ref_frames: 0,
            gaps_in_frame_num_value_allowed_flag: false,
            pic_width_in_mbs_minus1: 79,
            pic_height_in_map_units_minus1: 49,
            mb_adaptive_frame_field_flag: None,
            direct_8x8_inference_flag: false,
            frame_crop_info: None,
            sample_aspect_ratio: None,
            overscan_appropriate_flag: None,
            color_config: Some(
                ColorConfig {
                    video_format: VideoFormat::Component,
                    video_full_range_flag: false,
                    color_primaries: 2,
                    transfer_characteristics: 2,
                    matrix_coefficients: 2,
                },
            ),
            chroma_sample_loc: Some(
                ChromaSampleLoc {
                    chroma_sample_loc_type_top_field: 2,
                    chroma_sample_loc_type_bottom_field: 2,
                },
            ),
            timing_info: None,
        }
        
    );

    assert_eq!(0.0, frame_rate(&result));
    assert_eq!(1280, result.width());
    assert_eq!(800, result.height());

    // create a writer for the builder
    let mut writer2 = BitWriter::new();

    // build from the example sps
    result.build(&mut writer2);
    let buf = writer2.finish();

    // sometimes bits can get lost because we save
    // some space with how the SPS is rebuilt.
    // so we can just confirm that they're the same
    // by rebuilding it.
    let reduced = Sps::parse(&buf).unwrap();
    assert_eq!(reduced, result);

    // now we can check that the bitstream from
    // the reduced version should be the same
    let mut writer3 = BitWriter::new();

    reduced.build(&mut writer3);
    let reduced_buf = writer3.finish();
    assert_eq!(reduced_buf, buf);
}

#[test]
fn test_parse_sps_chroma_loc_info_error() {
    let mut writer = BitWriter::new();

    // forbidden zero bit must be unset
    writer.write_bit(false);
    // nal_ref_idc is 0
    writer.write_bits(0, 2);
    // nal_unit_type must be 7
    writer.write_bits(7, 5);

    // profile_idc = 100
    writer.write_bits(100, 8);
    // constraint_setn_flags all false
    writer.write_bits(0, 8);
    // level_idc = 0
    writer.write_bits(0, 8);

    // seq_parameter_set_id is expg
    write_exp_golomb(&mut writer, 0);

    // ext
    // chroma_format_idc is expg
    write_exp_golomb(&mut writer, 0);
    // bit_depth_luma_minus8 is expg
    write_exp_golomb(&mut writer, 0);
    // bit_depth_chroma_minus8 is expg
    write_exp_golomb(&mut writer, 0);
    // qpprime
    writer.write_bit(false);
    // seq_scaling_matrix_present_flag
    writer.write_bit(false);

    // return to sps
    // log2_max_frame_num_minus4 is expg
    write_exp_golomb(&mut writer, 0);
    // pic_order_cnt_type is expg
    write_exp_golomb(&mut writer, 0);
    // log2_max_pic_order_cnt_lsb_minus4
    write_exp_golomb(&mut writer, 0);

    // max_num_ref_frames is expg
    write_exp_golomb(&mut writer, 0);
    // gaps_in_frame_num_value_allowed_flag
    writer.write_bit(false);
    // 1280 width:
    // 1280 = (p + 1) * 16 - 2 * offset1 - 2 * offset2
    // we set offset1 and offset2 to both be 0 later
    // 1280 = (p + 1) * 16
    // p = 79
    write_exp_golomb(&mut writer, 79);
    // we want 800 height:
    // 800 = ((2 - m) * (p + 1) * 16) - 2 * offset1 - 2 * offset2
    // we set offset1 and offset2 to both be 0 later
    // m is frame_mbs_only_flag which we set to 1 later
    // 800 = (2 - 1) * (p + 1) * 16 - 2 * 0 - 2 * 0
    // 800 = 2 * (p + 1) * 16 - 8
    // p = 33
    write_exp_golomb(&mut writer, 33);

    // frame_mbs_only_flag
    writer.write_bit(false);
    // mb_adaptive_frame_field_flag
    writer.write_bit(false);

    // direct_8x8_inference_flag
    writer.write_bit(false);
    // frame_cropping_flag
    writer.write_bit(false);

    // vui_parameters_present_flag
    writer.write_bit(true);

    // enter vui to set the framerate
    // aspect_ratio_info_present_flag
    writer.write_bit(false);

    // overscan_info_present_flag
    writer.write_bit(false);

    // video_signal_type_present_flag
    writer.write_bit(true);
    // video_format
    writer.write_bits(0, 3);
    // video_full_range_flag
    writer.write_bit(false);
    // color_description_present_flag
    writer.write_bit(false);

    // chroma_loc_info_present_flag
    writer.write_bit(true);
    let sps = writer.finish();

    let result = Sps::parse(&sps);

    assert!(result.is_err());
    let err = result.unwrap_err();
    assert_eq!(err.kind(), IoErrorKind::InvalidData);
    assert_eq!(
        err.message(),
        "chroma_loc_info_present_flag cannot be set to 1 when chroma_format_idc is not 1"
    );
}

#[test]
fn test_invalid_num_units_in_tick() {
    let mut writer = BitWriter::new();

    // forbidden zero bit must be unset
    writer.write_bit(false);
    // nal_ref_idc is 0
    writer.write_bits(0, 2);
    // nal_unit_type must be 7
    writer.write_bits(7, 5);

    // profile_idc = 100
    writer.write_bits(100, 8);
    // constraint_setn_flags all false
    writer.write_bits(0, 8);
    // level_idc = 0
    writer.write_bits(0, 8);

    // seq_parameter_set_id is expg
    write_exp_golomb(&mut writer, 0);

    // ext
    // chroma_format_idc is expg
    write_exp_golomb(&mut writer, 0);
    // bit_depth_luma_minus8 is expg
    write_exp_golomb(&mut writer, 0);
    // bit_depth_chroma_minus8 is expg
    write_exp_golomb(&mut writer, 0);
    // qpprime
    writer.write_bit(false);
    // seq_scaling_matrix_present_flag
    writer.write_bit(false);

    // return to sps
    // log2_max_frame_num_minus4 is expg
    write_exp_golomb(&mut writer, 0);
    // pic_order_cnt_type is expg
    write_exp_golomb(&mut writer, 0);
    // log2_max_pic_order_cnt_lsb_minus4
    write_exp_golomb(&mut writer, 0);

    // max_num_ref_frames is expg
    write_exp_golomb(&mut writer, 0);
    // gaps_in_frame_num_value_allowed_flag
    writer.write_bit(false);
    // 1280 width:
    // 1280 = (p + 1) * 16 - 2 * offset1 - 2 * offset2
    // we set offset1 and offset2 to both be 0 later
    // 1280 = (p + 1) * 16
    // p = 79
    write_exp_golomb(&mut writer, 79);
    // we want 800 height:
    // 800 = ((2 - m) * (p + 1) * 16) - 2 * offset1 - 2 * offset2
    // we set offset1 and offset2 to both be 0 later
    // m is frame_mbs_only_flag which we set to 1 later
    // 800 = (2 - 1) * (p + 1) * 16 - 2 * 0 - 2 * 0
    // 800 = 2 * (p + 1) * 16 - 8
    // p = 33
    write_exp_golomb(&mut writer, 33);

    // frame_mbs_only_flag
    writer.write_bit(false);
    // mb_adaptive_frame_field_flag
    writer.write_bit(false);

    // direct_8x8_inference_flag
    writer.write_bit(false);
    // frame_cropping_flag
    writer.write_bit(false);

    // vui_parameters_present_flag
    writer.write_bit(true);

    // enter vui to set the framerate
    // aspect_ratio_info_present_flag
    writer.write_bit(false);

    // overscan_info_present_flag
    writer.write_bit(false);

    // video_signal_type_present_flag
    writer.write_bit(true);
    // video_format
    writer.write_bits(0, 3);
    // video_full_range_flag
    writer.write_bit(false);
    // color_description_present_flag
    writer.write_bit(false);

    // chroma_loc_info_present_flag
    writer.write_bit(false);

    // timing_info_present_flag
    writer.write_bit(true);
    // num_units_in_tick to 0 (invalid)
    writer.write_bits(0, 32);
    let sps = writer.finish();

    let result = Sps::parse(&sps);

    assert!(result.is_err());
    let err = result.unwrap_err();
    assert_eq!(err.kind(), IoErrorKind::InvalidData);
    assert_eq!(err.message(), "num_units_in_tick cannot be 0");
}

#[test]
fn test_invalid_time_scale() {
    let mut writer = BitWriter::new();

    // forbidden zero bit must be unset
    writer.write_bit(false);
    // nal_ref_idc is 0
    writer.write_bits(0, 2);
    // nal_unit_type must be 7
    writer.write_bits(7, 5);

    // profile_idc = 100
    writer.write_bits(100, 8);
    // constraint_setn_flags all false
    writer.write_bits(0, 8);
    // level_idc = 0
    writer.write_bits(0, 8);

    // seq_parameter_set_id is expg
    write_exp_golomb(&mut writer, 0);

    // ext
    // chroma_format_idc is expg
    write_exp_golomb(&mut writer, 0);
    // bit_depth_luma_minus8 is expg
    write_exp_golomb(&mut writer, 0);
    // bit_depth_chroma_minus8 is expg
    write_exp_golomb(&mut writer, 0);
    // qpprime
    writer.write_bit(false);
    // seq_scaling_matrix_present_flag
    writer.write_bit(false);

    // return to sps
    // log2_max_frame_num_minus4 is expg
    write_exp_golomb(&mut writer, 0);
    // pic_order_cnt_type is expg
    write_exp_golomb(&mut writer, 0);
    // log2_max_pic_order_cnt_lsb_minus4
    write_exp_golomb(&mut writer, 0);

    // max_num_ref_frames is expg
    write_exp_golomb(&mut writer, 0);
    // gaps_in_frame_num_value_allowed_flag
    writer.write_bit(false);
    // 1280 width:
    // 1280 = (p + 1) * 16 - 2 * offset1 - 2 * offset2
    // we set offset1 and offset2 to both be 0 later
    // 1280 = (p + 1) * 16
    // p = 79
    write_exp_golomb(&mut writer, 79);
    // we want 800 height:
    // 800 = ((2 - m) * (p + 1) * 16) - 2 * offset1 - 2 * offset2
    // we set offset1 and offset2 to both be 0 later
    // m is frame_mbs_only_flag which we set to 1 later
    // 800 = (2 - 1) * (p + 1) * 16 - 2 * 0 - 2 * 0
    // 800 = 2 * (p + 1) * 16 - 8
    // p = 33
    write_exp_golomb(&mut writer, 33);

    // frame_mbs_only_flag
    writer.write_bit(false);
    // mb_adaptive_frame_field_flag
    writer.write_bit(false);

    // direct_8x8_inference_flag
    writer.write_bit(false);
    // frame_cropping_flag
    writer.write_bit(false);

    // vui_parameters_present_flag
    writer.write_bit(true);

    // enter vui to set the framerate
    // aspect_ratio_info_present_flag
    writer.write_bit(false);

    // overscan_info_present_flag
    writer.write_bit(false);

    // video_signal_type_present_flag
    writer.write_bit(true);
    // video_format
    writer.write_bits(0, 3);
    // video_full_range_flag
    writer.write_bit(false);
    // color_description_present_flag
    writer.write_bit(false);

    // chroma_loc_info_present_flag
    writer.write_bit(false);

    // timing_info_present_flag
    writer.write_bit(true);
    // num_units_in_tick to 0 (invalid)
    writer.write_bits(0, 32);
    let sps = writer.finish();

    let result = Sps::parse(&sps);

    assert!(result.is_err());
    let err = result.unwrap_err();
    assert_eq!(err.kind(), IoErrorKind::InvalidData);
    assert_eq!(err.message(), "num_units_in_tick cannot be 0");
}

#[test]
fn test_parse_build_sps_no_vui() {
    let mut writer = BitWriter::new();

    // forbidden zero bit must be unset
    writer.write_bit(false);
    // nal_ref_idc is 0
    writer.write_bits(0, 2);
    // nal_unit_type must be 7
    writer.write_bits(7, 5);

    // profile_idc = 77
    writer.write_bits(77, 8);
    // constraint_setn_flags all false
    writer.write_bits(0, 8);
    // level_idc = 0
    writer.write_bits(0, 8);

    // seq_parameter_set_id is expg so 0b1 (true) = false
    writer.write_bit(true);

    // skip sps ext since profile_idc = 77
    // log2_max_frame_num_minus4 is expg so 0b1 (true) = false
    writer.write_bit(true);
    // we can try setting pic_order_cnt_type to 2
    write_exp_golomb(&mut writer, 2);

    // delta_pic_order_always_zero_flag
    writer.write_bit(false);
    // offset_for_non_ref_pic
    writer.write_bit(true);
    // offset_for_top_to_bottom_field
    writer.write_bit(true);
    // num_ref_frames_in_pic_order_cnt_cycle is expg so 0b010 = 1
    writer.write_bits(0b010, 3);
    // loop num_ref_frames_in_pic_order_cnt_cycle times (1)
    // offset_for_ref_frame is expg so 0b1 (true) = false
    writer.write_bit(true);

    // max_num_ref_frames is expg so 0b1 (true) = false
    writer.write_bit(true);
    // gaps_in_frame_num_value_allowed_flag
    writer.write_bit(false);
    // 1920 width:
    // 1920 = (p + 1) * 16 - 2 * offset1 - 2 * offset2
    // we set offset1 and offset2 to both be 4 later
    // 1920 = (p + 1) * 16 - 2 * 4 - 2 * 4
    // 1920 = (p + 1) * 16 - 16
    // p = 120
    // pic_width_in_mbs_minus1 is expg so:
    // 0 0000 0111 1001
    writer.write_bits(0b0000001111001, 13);
    // we want 1080 height:
    // 1080 = ((2 - m) * (p + 1) * 16) - 2 * offset1 - 2 * offset2
    // we set offset1 and offset2 to both be 2 later
    // m is frame_mbs_only_flag which we set to 0 later
    // 1080 = (2 - 0) * (p + 1) * 16 - 2 * 2 - 2 * 2
    // 1080 = 2 * (p + 1) * 16 - 8
    // p = 33
    // pic_height_in_map_units_minus1 is expg so:
    // 000 0010 0010
    writer.write_bits(0b00000100010, 11);

    // frame_mbs_only_flag
    writer.write_bit(false);
    // mb_adaptive_frame_field_flag
    writer.write_bit(false);

    // direct_8x8_inference_flag
    writer.write_bit(false);
    // frame_cropping_flag
    writer.write_bit(true);

    // frame_crop_left_offset is expg
    writer.write_bits(0b00101, 5);
    // frame_crop_right_offset is expg
    writer.write_bits(0b00101, 5);
    // frame_crop_top_offset is expg
    writer.write_bits(0b011, 3);
    // frame_crop_bottom_offset is expg
    writer.write_bits(0b011, 3);

    // vui_parameters_present_flag
    writer.write_bit(false);
    let sps = writer.finish();

    let result = Sps::parse(&sps).unwrap();

    assert_eq!(
        result,
        Sps {
            forbidden_zero_bit: false,
            nal_ref_idc: 0,
            nal_unit_type: NALUnitType::SPS,
            profile_idc: 77,
            constraint_set0_flag: false,
            constraint_set1_flag: false,
            constraint_set2_flag: false,
            constraint_set3_flag: false,
            constraint_set4_flag: false,
            constraint_set5_flag: false,
            level_idc: 0,
            seq_parameter_set_id: 0,
            ext: None,
            log2_max_frame_num_minus4: 0,
            pic_order_cnt_type: 2,
            log2_max_pic_order_cnt_lsb_minus4: None,
            pic_order_cnt_type1: None,
            max_num_ref_frames: 2,
            gaps_in_frame_num_value_allowed_flag: false,
            pic_width_in_mbs_minus1: 0,
            pic_height_in_map_units_minus1: 2,
            mb_adaptive_frame_field_flag: Some(
                false,
            ),
            direct_8x8_inference_flag: false,
            frame_crop_info: None,
            sample_aspect_ratio: None,
            overscan_appropriate_flag: None,
            color_config: None,
            chroma_sample_loc: None,
            timing_info: None,
        }
        
    );

    // create a writer for the builder
    let mut writer2 = BitWriter::new();

    // build from the example sps
    result.build(&mut writer2);
    let buf = writer2.finish();

    // sometimes bits can get lost because we save
    // some space with how the SPS is rebuilt.
    // so we can just confirm that they're the same
    // by rebuilding it.
    let reduced = Sps::parse(&buf).unwrap();
    assert_eq!(reduced, result);

    // now we can check that the bitstream from
    // the reduced version should be the same
    let mut writer3 = BitWriter::new();

    reduced.build(&mut writer3);
    let reduced_buf = writer3.finish();
    assert_eq!(reduced_buf, buf);
}

#[test]
fn test_build_sps_ext_chroma_not_3_and_no_scaling_matrix() {
    // create data bitstream for sps_ext
    let mut writer = BitWriter::new();

    write_exp_golomb(&mut writer, 1);
    write_exp_golomb(&mut writer, 2);
    write_exp_golomb(&mut writer, 4);
    writer.write_bit(true);
    writer.write_bit(false);

    let data = writer.finish();

    // parse bitstream
    let mut reader = BitReader::new(data.clone());
    let sps_ext = SpsExtended::parse(&mut reader).unwrap();

    // create a writer for the builder
    let mut writer2 = BitWriter::new();

    // build from the example result
    sps_ext.build(&mut writer2);
    let buf = writer2.finish();

    assert_eq!(buf, data);
}

#[test]
fn test_build_sps_ext_chroma_3_and_scaling_matrix() {
    // create bitstream for sps_ext
    let mut writer = BitWriter::new();

    // set chroma_format_idc = 3
    write_exp_golomb(&mut writer, 3);
    // separate_color_plane_flag since chroma_format_idc = 3
    writer.write_bit(true);
    write_exp_golomb(&mut writer, 2);
    write_exp_golomb(&mut writer, 4);
    writer.write_bit(true);
    // set seq_scaling_matrix_present_flag
    writer.write_bit(true);

    // scaling matrix loop happens 12 times since chroma_format_idc is 3
    // loop 1 of 12
    writer.write_bit(true);
    // subloop 1 of 64
    // next_scale starts as 8, we add 1 so it's 9
    write_signed_exp_golomb(&mut writer, 1);
    // subloop 2 of 64
    // next_scale is 9, we add 2 so it's 11
    write_signed_exp_golomb(&mut writer, 2);
    // subloop 3 of 64
    // next_scale is 11, we add 3 so it's 14
    write_signed_exp_golomb(&mut writer, 3);
    // subloop 4 of 64: we want to break out of the loop now
    // next_scale is 14, we subtract 14 so it's 0, triggering a break
    write_signed_exp_golomb(&mut writer, -14);

    // loop 2 of 12
    writer.write_bit(true);
    // subloop 1 of 64
    // next_scale starts at 8, we add 3 so it's 11
    write_signed_exp_golomb(&mut writer, 3);
    // subloop 2 of 64
    // next_scale is 11, we add 5 so it's 16
    write_signed_exp_golomb(&mut writer, 5);
    // subloop 3 of 64; we want to break out of the loop now
    // next_scale is 16, we subtract 16 so it's 0, triggering a break
    write_signed_exp_golomb(&mut writer, -16);

    // loop 3 of 12
    writer.write_bit(true);
    // subloop 1 of 64
    // next_scale starts at 8, we add 1 so it's 9
    write_signed_exp_golomb(&mut writer, 1);
    // subloop 2 of 64; we want to break out of the loop now
    // next_scale is 9, we subtract 9 so it's 0, triggering a break
    write_signed_exp_golomb(&mut writer, -9);

    // loop 4 of 12
    writer.write_bit(true);
    // subloop 1 of 64; we want to break out of the loop now
    // next scale starts at 8, we subtract 8 so it's 0, triggering a break
    write_signed_exp_golomb(&mut writer, -8);

    // loop 5 thru 11: try writing nothing
    writer.write_bits(0, 7);

    // loop 12 of 12: try writing something
    writer.write_bit(true);
    // subloop 1 of 64; we want to break out of the loop now
    // next scale starts at 8, we subtract 8 so it's 0, triggering a break
    write_signed_exp_golomb(&mut writer, -8);

    let data = writer.finish();

    // parse bitstream
    let mut reader = BitReader::new(data.clone());
    let sps_ext = SpsExtended::parse(&mut reader).unwrap();

    // create a writer for the builder
    let mut writer2 = BitWriter::new();

    // build from the example result
    sps_ext.build(&mut writer2);
    let buf = writer2.finish();

    assert_eq!(buf, data);
}

#[test]
fn test_build_pic_order() {
    // create bitstream for pic_order_count_type1
    let mut writer = BitWriter::new();

    writer.write_bit(true);
    write_signed_exp_golomb(&mut writer, 3);
    write_signed_exp_golomb(&mut writer, 7);
    write_exp_golomb(&mut writer, 2);

    // loop
    write_signed_exp_golomb(&mut writer, 4);
    write_signed_exp_golomb(&mut writer, 8);

    let data = writer.finish();

    // parse bitstream
    let mut reader = BitReader::new(data.clone());
    let pic_order_count_type1 = PicOrderCountType1::parse(&mut reader).unwrap();

    // create a writer for the builder
    let mut writer2 = BitWriter::new();

    // build from the example result
    pic_order_count_type1.build(&mut writer2);
    let buf = writer2.finish();

    assert_eq!(buf, data);
}

#[test]
fn test_build_frame_crop() {
    // create bitstream for frame_crop
    let mut writer = BitWriter::new();

    write_exp_golomb(&mut writer, 1);
    write_exp_golomb(&mut writer, 10);
    write_exp_golomb(&mut writer, 7);
    write_exp_golomb(&mut writer, 38);

    let data = writer.finish();

    // parse bitstream
    let mut reader = BitReader::new(data.clone());
    let frame_crop_info = FrameCropInfo::parse(&mut reader).unwrap();

    // create a writer for the builder
    let mut writer2 = BitWriter::new();

    // build from the example result
    frame_crop_info.build(&mut writer2);
    let buf = writer2.finish();

    assert_eq!(buf, data);
}

#[test]
fn test_build_sar_idc_not_255() {
    // create bitstream for sample_aspect_ratio
    let mut writer = BitWriter::new();

    writer.write_bits(1, 8);
    let data = writer.finish();

    // parse bitstream
    let mut reader = BitReader::new(data.clone());
    let sample_aspect_ratio = SarDimensions::parse(&mut reader).unwrap();

    // create a writer for the builder
    let mut writer2 = BitWriter::new();

    // build from the example result
    sample_aspect_ratio.build(&mut writer2);
    let buf = writer2.finish();

    assert_eq!(buf, data);
}

#[test]
fn test_build_sar_idc_255() {
    // create bitstream for sample_aspect_ratio
    let mut writer = BitWriter::new();

    writer.write_bits(255, 8);
    writer.write_bits(11, 16);
    writer.write_bits(32, 16);
    let data = writer.finish();

    // parse bitstream
    let mut reader = BitReader::new(data.clone());
    let sample_aspect_ratio = SarDimensions::parse(&mut reader).unwrap();

    // create a writer for the builder
    let mut writer2 = BitWriter::new();

    // build from the example result
    sample_aspect_ratio.build(&mut writer2);
    let buf = writer2.finish();

    assert_eq!(buf, data);
}

#[test]
fn test_build_color_config() {
    // create bitstream for color_config
    let mut writer = BitWriter::new();

    writer.write_bits(4, 3);
    writer.write_bit(true);

    // color_desc_present_flag
    writer.write_bit(true);
    writer.write_bits(2, 8);
    writer.write_bits(6, 8);
    writer.write_bits(1, 8);
    let data = writer.finish();

    // parse bitstream
    let mut reader = BitReader::new(data.clone());
    let color_config = ColorConfig::parse(&mut reader).unwrap();

    // create a writer for the builder
    let mut writer2 = BitWriter::new();

    // build from the example result
    color_config.build(&mut writer2);
    let buf = writer2.finish();

    assert_eq!(buf, data);
}

#[test]
fn test_build_color_config_no_desc() {
    // create bitstream for color_config
    let mut writer = BitWriter::new();

    writer.write_bits(4, 3);
    writer.write_bit(true);

    // color_desc_present_flag
    writer.write_bit(false);
    let data = writer.finish();

    // parse bitstream
    let mut reader = BitReader::new(data.clone());
    let color_config = ColorConfig::parse(&mut reader).unwrap();

    // create a writer for the builder
    let mut writer2 = BitWriter::new();

    // build from the example result
    color_config.build(&mut writer2);
    let buf = writer2.finish();

    assert_eq!(buf, data);
}

#[test]
fn test_build_chroma_sample() {
    // create bitstream for chroma_sample_loc
    let mut writer = BitWriter::new();

    write_exp_golomb(&mut writer, 111);
    write_exp_golomb(&mut writer, 222);
    let data = writer.finish();

    // parse bitstream
    let mut reader = BitReader::new(data.clone());
    let chroma_sample_loc = ChromaSampleLoc::parse(&mut reader).unwrap();

    // create a writer for the builder
    let mut writer2 = BitWriter::new();

    // build from the example result
    chroma_sample_loc.build(&mut writer2);
    let buf = writer2.finish();

    assert_eq!(buf, data);
}

#[test]
fn test_build_timing_info() {
    // create bitstream for timing_info
    let mut writer = BitWriter::new();

    writer.write_bits(1234, 32);
    writer.write_bits(321, 32);
    let data = writer.finish();

    // parse bitstream
    let mut reader = BitReader::new(data.clone());
    let timing_info = TimingInfo::parse(&mut reader).unwrap();

    // create a writer for the builder
    let mut writer2 = BitWriter::new();

    // build from the example result
    timing_info.build(&mut writer2);
    let buf = writer2.finish();

    assert_eq!(buf, data);
}

