use scuffle_media::bits::BitWriter;
use scuffle_media::cursor::ByteCursor;
use scuffle_media::h264::config::{AVCDecoderConfigurationRecord, AvccExtendedConfig};
use scuffle_media::h264::enums::{NALUnitType, VideoFormat};
use scuffle_media::h264::sps::Sps;
use scuffle_media::h264::sps_ext::SpsExtended;
use scuffle_media::h264::sps_parts::{ColorConfig, FrameCropInfo, TimingInfo};

#[test]
fn test_config_parse() {
    let mut writer = BitWriter::new();

    // configuration_version
    writer.write_bits(1, 8);
    // profile_indication
    writer.write_bits(100, 8);
    // profile_compatibility
    writer.write_bits(0, 8);
    // level_indication
    writer.write_bits(31, 8);
    // length_size_minus_one
    writer.write_bits(3, 8);

    // num_of_sequence_parameter_sets
    writer.write_bits(1, 8);
    // sps_length
    writer.write_bits(29, 16);
    // sps
    // this was from the old test
    for b in b"gd\0\x1f\xac\xd9A\xe0m\xf9\xe6\xa0  (\0\0\x03\0\x08\0\0\x03\x01\xe0x\xc1\x8c\xb0" {
        writer.write_bits(*b as u64, 8);
    }

    // num_of_picture_parameter_sets
    writer.write_bits(1, 8);
    // pps_length
    writer.write_bits(6, 16);
    // pps
    for b in b"h\xeb\xe3\xcb\"\xc0\x00\x00" {
        writer.write_bits(*b as u64, 8);
    }

    // chroma_format_idc
    writer.write_bits(1, 8);
    // bit_depth_luma_minus8
    writer.write_bits(0, 8);
    // bit_depth_chroma_minus8
    writer.write_bits(0, 8);
    // number_of_sequence_parameter_set_ext
    writer.write_bits(0, 8);
    let data = writer.finish();

    let result = AVCDecoderConfigurationRecord::parse(&mut ByteCursor::new(data)).unwrap();

    let sps = Sps::parse(&result.sps[0]).unwrap();

    assert_eq!(
        sps,
        Sps {
            forbidden_zero_bit: false,
            nal_ref_idc: 3,
            nal_unit_type: NALUnitType::SPS,
            profile_idc: 100,
            constraint_set0_flag: false,
            constraint_set1_flag: false,
            constraint_set2_flag: false,
            constraint_set3_flag: false,
            constraint_set4_flag: false,
            constraint_set5_flag: false,
            level_idc: 31,
            seq_parameter_set_id: 0,
            ext: Some(
                SpsExtended {
                    chroma_format_idc: 1,
                    separate_color_plane_flag: false,
                    bit_depth_luma_minus8: 0,
                    bit_depth_chroma_minus8: 0,
                    qpprime_y_zero_transform_bypass_flag: false,
                    scaling_matrix: vec![],
                },
            ),
            log2_max_frame_num_minus4: 0,
            pic_order_cnt_type: 0,
            log2_max_pic_order_cnt_lsb_minus4: Some(
                2,
            ),
            pic_order_cnt_type1: None,
            max_num_ref_frames: 4,
            gaps_in_frame_num_value_allowed_flag: false,
            pic_width_in_mbs_minus1: 29,
            pic_height_in_map_units_minus1: 53,
            mb_adaptive_frame_field_flag: None,
            direct_8x8_inference_flag: true,
            frame_crop_info: Some(
                FrameCropInfo {
                    frame_crop_left_offset: 0,
                    frame_crop_right_offset: 0,
                    frame_crop_top_offset: 0,
                    frame_crop_bottom_offset: 6,
                },
            ),
            sample_aspect_ratio: None,
            overscan_appropriate_flag: None,
            color_config: Some(
                ColorConfig {
                    video_format: VideoFormat::Unspecified,
                    video_full_range_flag: false,
                    color_primaries: 1,
                    transfer_characteristics: 1,
                    matrix_coefficients: 1,
                },
            ),
            chroma_sample_loc: None,
            timing_info: Some(
                TimingInfo {
                    num_units_in_tick: 1,
                    time_scale: 60,
                },
            ),
        }
        
    );
}

#[test]
fn test_config_build() {
    let data = b"\x01d\0\x1f\xff\xe1\0\x1dgd\0\x1f\xac\xd9A\xe0m\xf9\xe6\xa0  (\0\0\x03\0\x08\0\0\x03\x01\xe0x\xc1\x8c\xb0\x01\0\x06h\xeb\xe3\xcb\"\xc0\xfd\xf8\xf8\0".to_vec();

    let config = AVCDecoderConfigurationRecord::parse(&mut ByteCursor::new(data.clone())).unwrap();

    assert_eq!(config.size(), data.len() as u64);

    let mut buf = Vec::new();
    config.build(&mut buf);

    assert_eq!(buf, data.to_vec());
}

#[test]
fn test_no_ext_cfg_for_profiles_66_77_88() {
    let data = b"\x01B\x00\x1F\xFF\xE1\x00\x1Dgd\x00\x1F\xAC\xD9A\xE0m\xF9\xE6\xA0  (\x00\x00\x03\x00\x08\x00\x00\x03\x01\xE0x\xC1\x8C\xB0\x01\x00\x06h\xEB\xE3\xCB\"\xC0\xFD\xF8\xF8\x00".to_vec();
    let config = AVCDecoderConfigurationRecord::parse(&mut ByteCursor::new(data)).unwrap();

    assert_eq!(config.extended_config, None);
}

#[test]
fn test_size_calculation_with_sequence_parameter_set_ext() {
    let extended_config = AvccExtendedConfig {
        chroma_format_idc: 1,
        bit_depth_luma_minus8: 0,
        bit_depth_chroma_minus8: 0,
        sequence_parameter_set_ext: vec![b"extra".to_vec()],
    };
    let config = AVCDecoderConfigurationRecord {
        configuration_version: 1,
        profile_indication: 100,
        profile_compatibility: 0,
        level_indication: 31,
        length_size_minus_one: 3,
        sps: vec![b"spsdata".to_vec()],
        pps: vec![b"ppsdata".to_vec()],
        extended_config: Some(extended_config),
    };

    assert_eq!(config.size(), 36);
    assert_eq!(
        config,
        AVCDecoderConfigurationRecord {
            configuration_version: 1,
            profile_indication: 100,
            profile_compatibility: 0,
            level_indication: 31,
            length_size_minus_one: 3,
            sps: vec![
                b"spsdata".to_vec(),
            ],
            pps: vec![
                b"ppsdata".to_vec(),
            ],
            extended_config: Some(
                AvccExtendedConfig {
                    chroma_format_idc: 1,
                    bit_depth_luma_minus8: 0,
                    bit_depth_chroma_minus8: 0,
                    sequence_parameter_set_ext: vec![
                        b"extra".to_vec(),
                    ],
                },
            ),
        }
        
    );
}

#[test]
fn test_build_with_sequence_parameter_set_ext() {
    let extended_config = AvccExtendedConfig {
        chroma_format_idc: 1,
        bit_depth_luma_minus8: 0,
        bit_depth_chroma_minus8: 0,
        sequence_parameter_set_ext: vec![b"extra".to_vec()],
    };
    let config = AVCDecoderConfigurationRecord {
        configuration_version: 1,
        profile_indication: 100,
        profile_compatibility: 0,
        level_indication: 31,
        length_size_minus_one: 3,
        sps: vec![b"spsdata".to_vec()],
        pps: vec![b"ppsdata".to_vec()],
        extended_config: Some(extended_config),
    };

    let mut buf = Vec::new();
    config.build(&mut buf);

    let parseed = AVCDecoderConfigurationRecord::parse(&mut ByteCursor::new(buf)).unwrap();
    assert_eq!(parseed.extended_config.unwrap().sequence_parameter_set_ext.len(), 1);
    assert_eq!(
        config,
        AVCDecoderConfigurationRecord {
            configuration_version: 1,
            profile_indication: 100,
            profile_compatibility: 0,
            level_indication: 31,
            length_size_minus_one: 3,
            sps: vec![
                b"spsdata".to_vec(),
            ],
            pps: vec![
                b"ppsdata".to_vec(),
            ],
            extended_config: Some(
                AvccExtendedConfig {
                    chroma_format_idc: 1,
                    bit_depth_luma_minus8: 0,
                    bit_depth_chroma_minus8: 0,
                    sequence_parameter_set_ext: vec![
                        b"extra".to_vec(),
                    ],
                },
            ),
        }
        
    );
}

