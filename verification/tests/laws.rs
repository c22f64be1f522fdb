use scuffle_media::cursor::ByteCursor;
use scuffle_media::h264::config::AVCDecoderConfigurationRecord;
use scuffle_media::amf0::decoder::Amf0Decoder;
use scuffle_media::amf0::encoder::to_bytes;
use scuffle_media::amf0::marker::Amf0Marker;
use scuffle_media::amf0::value::Amf0Value;
use scuffle_media::bits::{BitReader, BitWriter};
use scuffle_media::expgolomb::{read_exp_golomb, read_signed_exp_golomb, write_exp_golomb, write_signed_exp_golomb};
use scuffle_media::h264::emulation::EmulationPreventionIo;
use scuffle_media::h264::enums::NALUnitType;
use scuffle_media::h264::sps::Sps;
use scuffle_media::h264::sps_parts::{ColorConfig, TimingInfo};
use scuffle_media::h264::enums::VideoFormat;

#[test]
fn amf0_long_string_reads_back() {
    let text: String = std::iter::repeat('a').take(70_000).collect();
    let value = Amf0Value::String(text);
    let bytes = to_bytes(&value).unwrap();
    assert_eq!(bytes[0], Amf0Marker::LongString.value());
    assert_eq!(&bytes[1..5], &[0, 1, 0x11, 0x70]);
    assert_eq!(bytes.len(), 5 + 70_000);
    let mut decoder = Amf0Decoder::new(bytes);
    assert_eq!(decoder.decode_value().unwrap(), value);
    assert!(!decoder.has_remaining());
}

#[test]
fn amf0_values_read_back_in_order() {
    let values = vec![
        Amf0Value::Number(1.5f64.to_bits()),
        Amf0Value::Boolean(false),
        Amf0Value::Null,
        Amf0Value::Object(vec![("k".to_string(), Amf0Value::Array(vec![]))]),
    ];
    let mut bytes = Vec::new();
    for v in &values {
        bytes.extend(to_bytes(v).unwrap());
    }
    let mut decoder = Amf0Decoder::new(bytes);
    assert_eq!(decoder.decode_all().unwrap(), values);
}

#[test]
fn exp_golomb_codes_read_back() {
    let unsigned = [0u64, 1, 2, 3, 7, 254, 255, 1 << 40, u64::MAX - 1];
    let signed = [0i64, 1, -1, 2, -2, 1000, -1000, i64::MAX, i64::MIN + 1];
    let mut writer = BitWriter::new();
    for v in unsigned {
        write_exp_golomb(&mut writer, v);
    }
    for v in signed {
        write_signed_exp_golomb(&mut writer, v);
    }
    let bytes = writer.finish();
    let mut reader = BitReader::new(bytes);
    for v in unsigned {
        assert_eq!(read_exp_golomb(&mut reader).unwrap(), v);
    }
    for v in signed {
        assert_eq!(read_signed_exp_golomb(&mut reader).unwrap(), v);
    }
}

#[test]
fn exp_golomb_code_of_three() {
    let mut writer = BitWriter::new();
    write_exp_golomb(&mut writer, 3);
    // 00100, padded
    assert_eq!(writer.finish(), vec![0b0010_0000]);
}

#[test]
fn emulation_prevention_reads_back() {
    let payload = [0u8, 0, 0, 0, 1, 0, 0, 3, 0, 0, 4];
    let mut io = EmulationPreventionIo::new(());
    let mut escaped = Vec::new();
    io.encode(&payload, &mut escaped);
    assert_eq!(escaped, vec![0, 0, 3, 0, 0, 3, 1, 0, 0, 3, 3, 0, 0, 4]);
    let mut io = EmulationPreventionIo::new(());
    let mut back = Vec::new();
    io.decode(&escaped, &mut back);
    assert_eq!(back, payload.to_vec());
}

fn small_sps(with_vui: bool) -> Sps {
    Sps {
        forbidden_zero_bit: false,
        nal_ref_idc: 3,
        nal_unit_type: NALUnitType::SPS,
        profile_idc: 66,
        constraint_set0_flag: true,
        constraint_set1_flag: true,
        constraint_set2_flag: false,
        constraint_set3_flag: false,
        constraint_set4_flag: false,
        constraint_set5_flag: false,
        level_idc: 31,
        seq_parameter_set_id: 0,
        ext: None,
        log2_max_frame_num_minus4: 0,
        pic_order_cnt_type: 2,
        log2_max_pic_order_cnt_lsb_minus4: None,
        pic_order_cnt_type1: None,
        max_num_ref_frames: 1,
        gaps_in_frame_num_value_allowed_flag: false,
        pic_width_in_mbs_minus1: 79,
        pic_height_in_map_units_minus1: 44,
        mb_adaptive_frame_field_flag: None,
        direct_8x8_inference_flag: true,
        frame_crop_info: None,
        sample_aspect_ratio: None,
        overscan_appropriate_flag: None,
        color_config: if with_vui {
            Some(ColorConfig {
                video_format: VideoFormat::Unspecified,
                video_full_range_flag: false,
                color_primaries: 1,
                transfer_characteristics: 1,
                matrix_coefficients: 1,
            })
        } else {
            None
        },
        chroma_sample_loc: None,
        timing_info: if with_vui {
            Some(TimingInfo { num_units_in_tick: 1, time_scale: 60 })
        } else {
            None
        },
    }
}

#[test]
fn sps_build_then_parse_gives_it_back() {
    for with_vui in [false, true] {
        let sps = small_sps(with_vui);
        let mut writer = BitWriter::new();
        sps.build(&mut writer);
        let bytes = writer.finish();
        assert_eq!(Sps::parse(&bytes).unwrap(), sps);
        assert_eq!(sps.width(), 1280);
        assert_eq!(sps.height(), 720);
    }
}

#[test]
fn amf0_string_decodes_and_encodes_to_the_same_bytes() {
    let bytes = vec![0x02, 0, 1, b'a'];
    let value = Amf0Decoder::new(bytes.clone()).decode_value().unwrap();
    assert_eq!(value, Amf0Value::String("a".to_string()));
    assert_eq!(to_bytes(&value).unwrap(), bytes);
}

#[test]
fn avc_config_and_its_sps_parse() {
    let data = b"\x01d\0\x1f\xff\xe1\0\x1dgd\0\x1f\xac\xd9A\xe0m\xf9\xe6\xa0  (\0\0\x03\0\x08\0\0\x03\x01\xe0x\xc1\x8c\xb0\x01\0\x06h\xeb\xe3\xcb\"\xc0\xfd\xf8\xf8\0".to_vec();
    let config = AVCDecoderConfigurationRecord::parse(&mut ByteCursor::new(data)).unwrap();
    assert_eq!(config.sps.len(), 1);
    let sps = Sps::parse(&config.sps[0]).unwrap();
    assert_eq!(sps.profile_idc, 100);
    assert_eq!(sps.width(), 480);
    assert_eq!(sps.height(), 852);
}

#[test]
fn escaped_bytes_hold_no_start_code() {
    let payload = [0u8, 0, 0, 0, 0, 1, 0, 0, 2, 0, 0, 3, 0, 0];
    let mut io = EmulationPreventionIo::new(());
    let mut escaped = Vec::new();
    io.encode(&payload, &mut escaped);
    for w in escaped.windows(3) {
        assert!(!(w[0] == 0 && w[1] == 0 && w[2] <= 2));
    }
    let mut io = EmulationPreventionIo::new(());
    let mut back = Vec::new();
    io.decode(&escaped, &mut back);
    assert_eq!(back, payload.to_vec());
}
