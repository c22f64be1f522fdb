use scuffle_media::cursor::ByteCursor;
use scuffle_media::flv::audio_body::{
    AacAudioData, AudioChannelMask, AudioPacket, AudioTrack, ExAudioTagBody, MultichannelConfigOrder,
};
use scuffle_media::flv::audio_enums::{
    AacPacketType, AudioChannel, AudioChannelOrder, AudioFourCc, AudioPacketModExType, AudioPacketType, SoundFormat,
    SoundRate, SoundSize, SoundType,
};
use scuffle_media::flv::audio_header::{AudioPacketModEx, ExAudioTagHeader, ExAudioTagHeaderContent};
use scuffle_media::flv::common::AvMultitrackType;
use scuffle_media::flv::error::FlvError;

#[test]
fn test_sound_format() {
    let cases = [
        (
            0x00,
            SoundFormat::LinearPcmPlatformEndian,
            "SoundFormat::LinearPcmPlatformEndian",
        ),
        (0x01, SoundFormat::Adpcm, "SoundFormat::Adpcm"),
        (0x02, SoundFormat::Mp3, "SoundFormat::Mp3"),
        (0x03, SoundFormat::LinearPcmLittleEndian, "SoundFormat::LinearPcmLittleEndian"),
        (0x04, SoundFormat::Nellymoser16KhzMono, "SoundFormat::Nellymoser16KhzMono"),
        (0x05, SoundFormat::Nellymoser8KhzMono, "SoundFormat::Nellymoser8KhzMono"),
        (0x06, SoundFormat::Nellymoser, "SoundFormat::Nellymoser"),
        (0x07, SoundFormat::G711ALaw, "SoundFormat::G711ALaw"),
        (0x08, SoundFormat::G711MuLaw, "SoundFormat::G711MuLaw"),
        (0x0A, SoundFormat::Aac, "SoundFormat::Aac"),
        (0x0B, SoundFormat::Speex, "SoundFormat::Speex"),
        (0x0E, SoundFormat::Mp38Khz, "SoundFormat::Mp38Khz"),
        (0x0F, SoundFormat::DeviceSpecificSound, "SoundFormat::DeviceSpecificSound"),
    ];

    for (value, expected, name) in cases {
        let sound_format = SoundFormat::from(value);
        assert_eq!(sound_format, expected);
        assert_eq!(sound_format.debug_name(), name);
    }
}

#[test]
fn test_sound_rate() {
    let cases = [
        (0x00, SoundRate::Hz5500, "SoundRate::Hz5500"),
        (0x01, SoundRate::Hz11000, "SoundRate::Hz11000"),
        (0x02, SoundRate::Hz22000, "SoundRate::Hz22000"),
        (0x03, SoundRate::Hz44000, "SoundRate::Hz44000"),
    ];

    for (value, expected, name) in cases {
        let sound_rate = SoundRate::from(value);
        assert_eq!(sound_rate, expected);
        assert_eq!(sound_rate.debug_name(), name);
    }
}

#[test]
fn test_sound_size() {
    let cases = [
        (0x00, SoundSize::Bit8, "SoundSize::Bit8"),
        (0x01, SoundSize::Bit16, "SoundSize::Bit16"),
    ];

    for (value, expected, name) in cases {
        let sound_size = SoundSize::from(value);
        assert_eq!(sound_size, expected);
        assert_eq!(sound_size.debug_name(), name);
    }
}

#[test]
fn test_sound_type() {
    let cases = [
        (0x00, SoundType::Mono, "SoundType::Mono"),
        (0x01, SoundType::Stereo, "SoundType::Stereo"),
    ];

    for (value, expected, name) in cases {
        let sound_type = SoundType::from(value);
        assert_eq!(sound_type, expected);
        assert_eq!(sound_type.debug_name(), name);
    }
}

#[test]
fn enhanced_small_mod_ex_demux() {
    let data = &[
        1,  // size 2
        42, // data
        42,
        0b0001_0001, // type 1, next packet 1
    ];

    let (mod_ex, next_packet) = AudioPacketModEx::demux(&mut ByteCursor::new(data.to_vec())).unwrap();

    assert_eq!(
        mod_ex,
        AudioPacketModEx::Other {
            audio_packet_mod_ex_type: AudioPacketModExType::Unknown(1),
            mod_ex_data: [42, 42].to_vec()
        }
    );
    assert_eq!(next_packet, AudioPacketType::CodedFrames);
}

#[test]
fn enhanced_timestamp_offset_mod_ex_demux() {
    let data = &[
        2, // size 3
        0, // data
        0,
        1,
        0b0000_0000, // type 0, next packet 0
    ];

    let (mod_ex, next_packet) = AudioPacketModEx::demux(&mut ByteCursor::new(data.to_vec())).unwrap();

    assert_eq!(
        mod_ex,
        AudioPacketModEx::TimestampOffsetNano {
            audio_timestamp_nano_offset: 1
        },
    );
    assert_eq!(next_packet, AudioPacketType::SequenceStart);
}

#[test]
fn enhanced_big_mod_ex_demux() {
    let data = &[
        255, // size 2
        0,
        1,
        42, // data
        42,
        0b0001_0001, // type 1, next packet 1
    ];

    let (mod_ex, next_packet) = AudioPacketModEx::demux(&mut ByteCursor::new(data.to_vec())).unwrap();

    assert_eq!(
        mod_ex,
        AudioPacketModEx::Other {
            audio_packet_mod_ex_type: AudioPacketModExType::Unknown(1),
            mod_ex_data: [42, 42].to_vec()
        }
    );
    assert_eq!(next_packet, AudioPacketType::CodedFrames);
}

#[test]
fn enhanced_mod_ex_demux_error() {
    let data = &[
        0, // size 1
        42,
        0b0000_0010, // type 0, next packet 2
    ];

    let err = AudioPacketModEx::demux(&mut ByteCursor::new(data.to_vec())).unwrap_err();

    assert!(matches!(err, FlvError::InvalidModExData { expected_bytes: 3 },));
}

#[test]
fn enhanced_minimal_header() {
    let data = &[
        0b0000_0000, // type 0
        b'm',        // four cc
        b'p',
        b'4',
        b'a',
    ];

    let header = ExAudioTagHeader::demux(&mut ByteCursor::new(data.to_vec())).unwrap();

    assert_eq!(header.audio_packet_mod_exs.len(), 0);
    assert_eq!(header.audio_packet_type, AudioPacketType::SequenceStart);
    assert_eq!(header.content, ExAudioTagHeaderContent::NoMultiTrack(AudioFourCc::Aac));
}

#[test]
fn enhanced_header_small_mod_ex() {
    let data = &[
        0b0000_0111, // type 7
        1,           // modex size 2
        42,          // modex data
        42,
        0b0001_0001, // type 1, next packet 1
        b'm',        // four cc
        b'p',
        b'4',
        b'a',
    ];

    let header = ExAudioTagHeader::demux(&mut ByteCursor::new(data.to_vec())).unwrap();

    assert_eq!(header.audio_packet_mod_exs.len(), 1);
    assert_eq!(
        header.audio_packet_mod_exs[0],
        AudioPacketModEx::Other {
            audio_packet_mod_ex_type: AudioPacketModExType::Unknown(1),
            mod_ex_data: [42, 42].to_vec()
        }
    );
    assert_eq!(header.audio_packet_type, AudioPacketType::CodedFrames);
    assert_eq!(header.content, ExAudioTagHeaderContent::NoMultiTrack(AudioFourCc::Aac));
}

#[test]
fn enhanced_header_multitrack_one_track() {
    let data = &[
        0b0000_0101, // type 5
        0b0000_0000, // one track, type 0
        b'm',        // four cc
        b'p',
        b'4',
        b'a',
    ];

    let header = ExAudioTagHeader::demux(&mut ByteCursor::new(data.to_vec())).unwrap();

    assert_eq!(header.audio_packet_mod_exs.len(), 0);
    assert_eq!(header.audio_packet_type, AudioPacketType::SequenceStart);
    assert_eq!(header.content, ExAudioTagHeaderContent::OneTrack(AudioFourCc::Aac));
}

#[test]
fn enhanced_header_multitrack_many_tracks() {
    let data = &[
        0b0000_0101, // type 5
        0b0001_0000, // many tracks, type 0
        b'm',        // four cc
        b'p',
        b'4',
        b'a',
    ];

    let header = ExAudioTagHeader::demux(&mut ByteCursor::new(data.to_vec())).unwrap();

    assert_eq!(header.audio_packet_mod_exs.len(), 0);
    assert_eq!(header.audio_packet_type, AudioPacketType::SequenceStart);
    assert_eq!(header.content, ExAudioTagHeaderContent::ManyTracks(AudioFourCc::Aac));
}

#[test]
fn enhanced_header_multitrack_many_tracks_many_codecs() {
    let data = &[
        0b0000_0101, // type 5
        0b0010_0000, // many tracks many codecs, type 0
        b'm',        // four cc, should be ignored
        b'p',
        b'4',
        b'a',
    ];

    let header = ExAudioTagHeader::demux(&mut ByteCursor::new(data.to_vec())).unwrap();

    assert_eq!(header.audio_packet_mod_exs.len(), 0);
    assert_eq!(header.audio_packet_type, AudioPacketType::SequenceStart);
    assert_eq!(header.content, ExAudioTagHeaderContent::ManyTracksManyCodecs);
}

#[test]
fn enhanced_header_multitrack_unknown() {
    let data = &[
        0b0000_0101, // type 5
        0b0011_0000, // unknown, type 0
        b'm',        // four cc
        b'p',
        b'4',
        b'a',
    ];

    let header = ExAudioTagHeader::demux(&mut ByteCursor::new(data.to_vec())).unwrap();

    assert_eq!(header.audio_packet_mod_exs.len(), 0);
    assert_eq!(header.audio_packet_type, AudioPacketType::SequenceStart);
    assert_eq!(
        header.content,
        ExAudioTagHeaderContent::Unknown {
            audio_multitrack_type: AvMultitrackType::Unknown(3),
            audio_four_cc: AudioFourCc::Aac
        }
    );
}

#[test]
fn enhanced_nested_multitrack_error() {
    let data = &[
        0b0000_0101, // type 5
        0b0000_0101, // one track, type 5
    ];

    let err = ExAudioTagHeader::demux(&mut ByteCursor::new(data.to_vec())).unwrap_err();
    assert!(matches!(err, FlvError::NestedMultitracks));
}

#[test]
fn simple_audio_packets_demux() {
    let data = &[42, 42, 42, 42];

    let packet = AudioPacket::demux(
        &ExAudioTagHeader {
            audio_packet_mod_exs: vec![],
            audio_packet_type: AudioPacketType::SequenceStart,
            content: ExAudioTagHeaderContent::NoMultiTrack(AudioFourCc::Aac),
        },
        &mut ByteCursor::new(data.to_vec()),
    )
    .unwrap();
    assert_eq!(
        packet,
        AudioPacket::SequenceStart {
            header_data: data.to_vec()
        }
    );

    let packet = AudioPacket::demux(
        &ExAudioTagHeader {
            audio_packet_mod_exs: vec![],
            audio_packet_type: AudioPacketType::CodedFrames,
            content: ExAudioTagHeaderContent::NoMultiTrack(AudioFourCc::Aac),
        },
        &mut ByteCursor::new(data.to_vec()),
    )
    .unwrap();
    assert_eq!(
        packet,
        AudioPacket::CodedFrames {
            data: data.to_vec()
        }
    );

    let packet = AudioPacket::demux(
        &ExAudioTagHeader {
            audio_packet_mod_exs: vec![],
            audio_packet_type: AudioPacketType::SequenceEnd,
            content: ExAudioTagHeaderContent::NoMultiTrack(AudioFourCc::Aac),
        },
        &mut ByteCursor::new(data.to_vec()),
    )
    .unwrap();
    assert_eq!(packet, AudioPacket::SequenceEnd,);

    let packet = AudioPacket::demux(
        &ExAudioTagHeader {
            audio_packet_mod_exs: vec![],
            audio_packet_type: AudioPacketType::Unknown(8),
            content: ExAudioTagHeaderContent::NoMultiTrack(AudioFourCc::Aac),
        },
        &mut ByteCursor::new(data.to_vec()),
    )
    .unwrap();
    assert_eq!(
        packet,
        AudioPacket::Unknown {
            audio_packet_type: AudioPacketType::Unknown(8),
            data: data.to_vec(),
        },
    );
}

#[test]
fn audio_packet_with_size_demux() {
    let data = &[
        0, 0, 2, // size
        42, 42, // data
        13, 37, // should be ignored
    ];

    let header = ExAudioTagHeader {
        audio_packet_mod_exs: vec![],
        audio_packet_type: AudioPacketType::CodedFrames,
        content: ExAudioTagHeaderContent::ManyTracks(AudioFourCc::Aac),
    };

    let packet = AudioPacket::demux(&header, &mut ByteCursor::new(data.to_vec())).unwrap();

    assert_eq!(
        packet,
        AudioPacket::CodedFrames {
            data: [42, 42].to_vec()
        },
    );
}

#[test]
fn audio_packet_custom_multichannel_config_demux() {
    let data = &[
        2, // channel order custom
        2, // channel count
        0, 1, // channels
    ];

    let header = ExAudioTagHeader {
        audio_packet_mod_exs: vec![],
        audio_packet_type: AudioPacketType::MultichannelConfig,
        content: ExAudioTagHeaderContent::NoMultiTrack(AudioFourCc::Aac),
    };

    let packet = AudioPacket::demux(&header, &mut ByteCursor::new(data.to_vec())).unwrap();

    assert_eq!(
        packet,
        AudioPacket::MultichannelConfig {
            channel_count: 2,
            multichannel_config: MultichannelConfigOrder::Custom(vec![
                AudioChannel::FrontLeft,
                AudioChannel::FrontRight
            ])
        },
    );
}

#[test]
fn audio_packet_native_multichannel_config_demux() {
    let data = &[
        1, // channel order native
        2, // channel count
        0, 0, 0, 3, // channels
    ];

    let header = ExAudioTagHeader {
        audio_packet_mod_exs: vec![],
        audio_packet_type: AudioPacketType::MultichannelConfig,
        content: ExAudioTagHeaderContent::NoMultiTrack(AudioFourCc::Aac),
    };

    let packet = AudioPacket::demux(&header, &mut ByteCursor::new(data.to_vec())).unwrap();

    assert_eq!(
        packet,
        AudioPacket::MultichannelConfig {
            channel_count: 2,
            multichannel_config: MultichannelConfigOrder::Native(
                AudioChannelMask::from(AudioChannelMask::FRONT_LEFT | AudioChannelMask::FRONT_RIGHT)
            )
        },
    );
}

#[test]
fn audio_packet_other_multichannel_config_demux() {
    let data = &[
        0, // channel order unspecified
        2, // channel count
    ];

    let header = ExAudioTagHeader {
        audio_packet_mod_exs: vec![],
        audio_packet_type: AudioPacketType::MultichannelConfig,
        content: ExAudioTagHeaderContent::NoMultiTrack(AudioFourCc::Aac),
    };

    let packet = AudioPacket::demux(&header, &mut ByteCursor::new(data.to_vec())).unwrap();

    assert_eq!(
        packet,
        AudioPacket::MultichannelConfig {
            channel_count: 2,
            multichannel_config: MultichannelConfigOrder::Unspecified,
        },
    );

    let data = &[
        4, // channel order unknown
        2, // channel count
    ];

    let header = ExAudioTagHeader {
        audio_packet_mod_exs: vec![],
        audio_packet_type: AudioPacketType::MultichannelConfig,
        content: ExAudioTagHeaderContent::NoMultiTrack(AudioFourCc::Aac),
    };

    let packet = AudioPacket::demux(&header, &mut ByteCursor::new(data.to_vec())).unwrap();

    assert_eq!(
        packet,
        AudioPacket::MultichannelConfig {
            channel_count: 2,
            multichannel_config: MultichannelConfigOrder::Unknown(AudioChannelOrder::Unknown(4)),
        },
    );
}

#[test]
fn enhanced_simple_body_demux() {
    let data = &[
        42, 42, // data
    ];

    let header = ExAudioTagHeader {
        audio_packet_mod_exs: vec![],
        audio_packet_type: AudioPacketType::CodedFrames,
        content: ExAudioTagHeaderContent::NoMultiTrack(AudioFourCc::Aac),
    };

    let packet = ExAudioTagBody::demux(&header, &mut ByteCursor::new(data.to_vec())).unwrap();

    assert_eq!(
        packet,
        ExAudioTagBody::NoMultitrack {
            audio_four_cc: AudioFourCc::Aac,
            packet: AudioPacket::CodedFrames {
                data: data.to_vec()
            },
        },
    );
}

#[test]
fn enhanced_multitrack_many_codecs_body_demux() {
    let data = &[
        b'm', b'p', b'4', b'a', // audio four cc
        1,    // audio track id
        0, 0, 2, // size
        42, 42, // data
        b'O', b'p', b'u', b's', // audio four cc
        2,    // audio track id
        0, 0, 2, // size
        13, 37, // data
    ];

    let header = ExAudioTagHeader {
        audio_packet_mod_exs: vec![],
        audio_packet_type: AudioPacketType::CodedFrames,
        content: ExAudioTagHeaderContent::ManyTracksManyCodecs,
    };

    let packet = ExAudioTagBody::demux(&header, &mut ByteCursor::new(data.to_vec())).unwrap();

    assert_eq!(
        packet,
        ExAudioTagBody::ManyTracks(vec![
            AudioTrack {
                audio_four_cc: AudioFourCc::Aac,
                audio_track_id: 1,
                packet: AudioPacket::CodedFrames {
                    data: [42, 42].to_vec()
                },
            },
            AudioTrack {
                audio_four_cc: AudioFourCc::Opus,
                audio_track_id: 2,
                packet: AudioPacket::CodedFrames {
                    data: [13, 37].to_vec()
                },
            }
        ]),
    );
}

#[test]
fn enhanced_multitrack_body_demux() {
    let data = &[
        1, // audio track id
        0, 0, 2, // size
        42, 42, // data
        2,  // audio track id
        0, 0, 2, // size
        13, 37, // data
    ];

    let header = ExAudioTagHeader {
        audio_packet_mod_exs: vec![],
        audio_packet_type: AudioPacketType::CodedFrames,
        content: ExAudioTagHeaderContent::ManyTracks(AudioFourCc::Aac),
    };

    let packet = ExAudioTagBody::demux(&header, &mut ByteCursor::new(data.to_vec())).unwrap();

    assert_eq!(
        packet,
        ExAudioTagBody::ManyTracks(vec![
            AudioTrack {
                audio_four_cc: AudioFourCc::Aac,
                audio_track_id: 1,
                packet: AudioPacket::CodedFrames {
                    data: [42, 42].to_vec()
                },
            },
            AudioTrack {
                audio_four_cc: AudioFourCc::Aac,
                audio_track_id: 2,
                packet: AudioPacket::CodedFrames {
                    data: [13, 37].to_vec()
                },
            }
        ]),
    );
}

#[test]
fn enhanced_multitrack_one_track_body_demux() {
    let data = &[
        1, // audio track id
        42, 42, // data
    ];

    let header = ExAudioTagHeader {
        audio_packet_mod_exs: vec![],
        audio_packet_type: AudioPacketType::CodedFrames,
        content: ExAudioTagHeaderContent::OneTrack(AudioFourCc::Aac),
    };

    let packet = ExAudioTagBody::demux(&header, &mut ByteCursor::new(data.to_vec())).unwrap();

    assert_eq!(
        packet,
        ExAudioTagBody::ManyTracks(vec![AudioTrack {
            audio_four_cc: AudioFourCc::Aac,
            audio_track_id: 1,
            packet: AudioPacket::CodedFrames {
                data: [42, 42].to_vec()
            },
        }]),
    );
}

#[test]
fn enhanced_multitrack_unknown_body_demux() {
    let data = &[
        1, // audio track id
        0, 0, 2, // size
        42, 42, // data
    ];

    let header = ExAudioTagHeader {
        audio_packet_mod_exs: vec![],
        audio_packet_type: AudioPacketType::CodedFrames,
        content: ExAudioTagHeaderContent::Unknown {
            audio_four_cc: AudioFourCc::Aac,
            audio_multitrack_type: AvMultitrackType::Unknown(4),
        },
    };

    let packet = ExAudioTagBody::demux(&header, &mut ByteCursor::new(data.to_vec())).unwrap();

    assert_eq!(
        packet,
        ExAudioTagBody::ManyTracks(vec![AudioTrack {
            audio_track_id: 1,
            audio_four_cc: AudioFourCc::Aac,
            packet: AudioPacket::CodedFrames {
                data: [42, 42].to_vec()
            }
        }]),
    );
}


#[test]
fn channel_mask_flags_combine() {
    let front = AudioChannelMask::from(AudioChannelMask::FRONT_LEFT)
        .union(AudioChannelMask::from(AudioChannelMask::FRONT_RIGHT));
    assert_eq!(front.bits, 0x3);
    assert!(front.contains(AudioChannelMask::from(AudioChannelMask::FRONT_RIGHT)));
    assert!(!front.contains(AudioChannelMask::from(AudioChannelMask::BACK_LEFT)));
    assert_eq!(AudioChannelMask::BOTTOM_FRONT_RIGHT, 0x800000);
    assert_eq!(AudioChannelMask::LOW_FREQUENCY2, 0x040000);
}
