use scuffle_media::amf0::marker::Amf0Marker;
use scuffle_media::cursor::ByteCursor;
use scuffle_media::flv::common::AvMultitrackType;
use scuffle_media::flv::error::FlvError;
use scuffle_media::flv::video_body::{
    ExVideoTagBody, LegacyVideoTagBody, VideoData, VideoPacket, VideoPacketCodedFrames, VideoPacketMetadataEntry,
    VideoPacketMpeg2TsSequenceStart, VideoPacketSequenceStart, VideoTagBody, VideoTrack,
};
use scuffle_media::flv::video_enums::{
    AvcPacketType, VideoCodecId, VideoCommand, VideoFourCc, VideoFrameType, VideoPacketModExType, VideoPacketType,
};
use scuffle_media::flv::video_header::{
    ExVideoTagHeader, ExVideoTagHeaderContent, LegacyVideoTagHeader, LegacyVideoTagHeaderAvcPacket, VideoPacketModEx,
    VideoTagHeader, VideoTagHeaderData,
};

#[test]
fn test_video_fourcc() {
    let cases = [
        (VideoFourCc::Av1, *b"av01", "VideoFourCc::Av1"),
        (VideoFourCc::Vp9, *b"vp09", "VideoFourCc::Vp9"),
        (VideoFourCc::Hevc, *b"hvc1", "VideoFourCc::Hevc"),
        (VideoFourCc::from(*b"av02"), *b"av02", "VideoFourCc([97, 118, 48, 50])"),
    ];

    for (expected, bytes, name) in cases {
        assert_eq!(VideoFourCc::from(bytes), expected);
        assert_eq!(VideoFourCc::from(bytes).debug_name(), name);
    }
}

#[test]
fn test_enhanced_packet_type() {
    let cases = [
        (VideoPacketType::SequenceStart, 0, "VideoPacketType::SequenceStart"),
        (VideoPacketType::CodedFrames, 1, "VideoPacketType::CodedFrames"),
        (VideoPacketType::SequenceEnd, 2, "VideoPacketType::SequenceEnd"),
        (VideoPacketType::CodedFramesX, 3, "VideoPacketType::CodedFramesX"),
        (VideoPacketType::Metadata, 4, "VideoPacketType::Metadata"),
        (
            VideoPacketType::Mpeg2TsSequenceStart,
            5,
            "VideoPacketType::Mpeg2TsSequenceStart",
        ),
        (VideoPacketType::from(6), 6, "VideoPacketType(6)"),
        (VideoPacketType::from(7), 7, "VideoPacketType(7)"),
    ];

    for (expected, value, name) in cases {
        assert_eq!(VideoPacketType::from(value), expected);
        assert_eq!(VideoPacketType::from(value).debug_name(), name);
    }
}

#[test]
fn test_frame_type() {
    let cases = [
        (VideoFrameType::KeyFrame, 1, "FrameType::KeyFrame"),
        (VideoFrameType::InterFrame, 2, "VideoFrameType::InterFrame"),
        (
            VideoFrameType::DisposableInterFrame,
            3,
            "VideoFrameType::DisposableInterFrame",
        ),
        (VideoFrameType::GeneratedKeyFrame, 4, "VideoFrameType::GeneratedKeyFrame"),
        (VideoFrameType::Command, 5, "VideoFrameType::Command"),
        (VideoFrameType::Unknown(6), 6, "VideoFrameType(6)"),
        (VideoFrameType::Unknown(7), 7, "VideoFrameType(7)"),
    ];

    for (expected, value, name) in cases {
        assert_eq!(VideoFrameType::from(value), expected);
        assert_eq!(VideoFrameType::from(value).debug_name(), name);
    }
}

#[test]
fn test_video_codec_id() {
    let cases = [
        (VideoCodecId::SorensonH263, 2, "VideoCodecId::SorensonH263"),
        (VideoCodecId::ScreenVideo, 3, "VideoCodecId::ScreenVideo"),
        (VideoCodecId::On2VP6, 4, "VideoCodecId::On2VP6"),
        (
            VideoCodecId::On2VP6WithAlphaChannel,
            5,
            "VideoCodecId::On2VP6WithAlphaChannel",
        ),
        (VideoCodecId::ScreenVideoVersion2, 6, "VideoCodecId::ScreenVideoVersion2"),
        (VideoCodecId::Avc, 7, "VideoCodecId::Avc"),
        (VideoCodecId::Unknown(10), 10, "VideoCodecId(10)"),
        (VideoCodecId::Unknown(11), 11, "VideoCodecId(11)"),
        (VideoCodecId::Unknown(15), 15, "VideoCodecId(15)"),
    ];

    for (expected, value, name) in cases {
        assert_eq!(VideoCodecId::from(value), expected);
        assert_eq!(VideoCodecId::from(value).debug_name(), name);
    }
}

#[test]
fn test_video_data_body_avc() {
    let mut reader = ByteCursor::new(vec![
        0b0001_0111, // legacy + keyframe + avc packet
        0x01,        // nalu
        0x02,        // composition time
        0x03,
        0x04,
        0x05, // data
        0x06,
        0x07,
        0x08,
    ]);

    let video = VideoData::demux(&mut reader).unwrap();

    assert_eq!(
        video.header,
        VideoTagHeader {
            frame_type: VideoFrameType::KeyFrame,
            data: VideoTagHeaderData::Legacy(LegacyVideoTagHeader::AvcPacket(LegacyVideoTagHeaderAvcPacket::Nalu {
                composition_time: 0x020304
            }))
        }
    );

    assert_eq!(
        video.body,
        VideoTagBody::Legacy(LegacyVideoTagBody::Other {
            data: vec![0x05, 0x06, 0x07, 0x08]
        })
    );

    let mut reader = ByteCursor::new(vec![
        0b0001_0111, // legacy + keyframe + avc packet
        0x05,
        0x02,
        0x03,
        0x04,
        0x05,
        0x06,
        0x07,
        0x08,
    ]);

    let video = VideoData::demux(&mut reader).unwrap();

    assert_eq!(
        video.header,
        VideoTagHeader {
            frame_type: VideoFrameType::KeyFrame,
            data: VideoTagHeaderData::Legacy(LegacyVideoTagHeader::AvcPacket(LegacyVideoTagHeaderAvcPacket::Unknown {
                avc_packet_type: AvcPacketType::Unknown(0x05),
                composition_time: 0x020304
            })),
        }
    );

    assert_eq!(
        video.body,
        VideoTagBody::Legacy(LegacyVideoTagBody::Other {
            data: vec![0x05, 0x06, 0x07, 0x08]
        })
    );
}

#[test]
fn test_video_data_body_hevc() {
    let mut reader = ByteCursor::new(vec![
        0b1001_0011, // enhanced + keyframe + coded frames x
        b'h',        // video codec
        b'v',
        b'c',
        b'1',
        0x01, // data
        0x02,
        0x03,
        0x04,
        0x05,
        0x06,
        0x07,
        0x08,
    ]);

    let video = VideoData::demux(&mut reader).unwrap();

    assert_eq!(
        video.header,
        VideoTagHeader {
            frame_type: VideoFrameType::KeyFrame,
            data: VideoTagHeaderData::Enhanced(ExVideoTagHeader {
                video_packet_type: VideoPacketType::CodedFramesX,
                video_packet_mod_exs: vec![],
                content: ExVideoTagHeaderContent::NoMultiTrack(VideoFourCc::from([b'h', b'v', b'c', b'1'])),
            })
        }
    );

    assert_eq!(
        video.body,
        VideoTagBody::Enhanced(ExVideoTagBody::NoMultitrack {
            video_four_cc: VideoFourCc::from([b'h', b'v', b'c', b'1']),
            packet: VideoPacket::CodedFramesX(vec![0x01, 0x02, 0x03, 0x04, 0x05, 0x06, 0x07, 0x08]),
        })
    );

    let mut reader = ByteCursor::new(vec![
        0b1001_0011, // enhanced + keyframe + coded frames x
        b'h',        // video codec
        b'v',
        b'c',
        b'1',
        0x01, // data
        0x02,
        0x03,
        0x04,
        0x05,
        0x06,
        0x07,
        0x08,
    ]);

    let video = VideoData::demux(&mut reader).unwrap();

    assert_eq!(
        video.header,
        VideoTagHeader {
            frame_type: VideoFrameType::KeyFrame,
            data: VideoTagHeaderData::Enhanced(ExVideoTagHeader {
                video_packet_type: VideoPacketType::CodedFramesX,
                video_packet_mod_exs: vec![],
                content: ExVideoTagHeaderContent::NoMultiTrack(VideoFourCc::Hevc),
            })
        }
    );

    assert_eq!(
        video.body,
        VideoTagBody::Enhanced(ExVideoTagBody::NoMultitrack {
            video_four_cc: VideoFourCc::Hevc,
            packet: VideoPacket::CodedFramesX(vec![0x01, 0x02, 0x03, 0x04, 0x05, 0x06, 0x07, 0x08]),
        })
    );
}

#[test]
fn test_video_data_demux_enhanced() {
    let mut reader = ByteCursor::new(vec![
        0b1001_0010, // enhanced + keyframe + SequenceEnd
        b'a',
        b'v',
        b'0',
        b'1', // video codec
    ]);

    let video = VideoData::demux(&mut reader).unwrap();

    assert_eq!(
        video.header,
        VideoTagHeader {
            frame_type: VideoFrameType::KeyFrame,
            data: VideoTagHeaderData::Enhanced(ExVideoTagHeader {
                video_packet_type: VideoPacketType::SequenceEnd,
                video_packet_mod_exs: vec![],
                content: ExVideoTagHeaderContent::NoMultiTrack(VideoFourCc::Av1)
            })
        }
    );

    assert_eq!(
        video.body,
        VideoTagBody::Enhanced(ExVideoTagBody::NoMultitrack {
            video_four_cc: VideoFourCc::Av1,
            packet: VideoPacket::SequenceEnd
        })
    );
}

#[test]
fn test_video_data_demux_h263() {
    let mut reader = ByteCursor::new(vec![
        0b0001_0010, // legacy + keyframe + SorensonH263
        0,           // data
        1,
        2,
        3,
    ]);

    let video = VideoData::demux(&mut reader).unwrap();

    assert_eq!(
        video.header,
        VideoTagHeader {
            frame_type: VideoFrameType::KeyFrame,
            data: VideoTagHeaderData::Legacy(LegacyVideoTagHeader::Other {
                video_codec_id: VideoCodecId::SorensonH263
            })
        }
    );
    assert_eq!(
        video.body,
        VideoTagBody::Legacy(LegacyVideoTagBody::Other {
            data: vec![0, 1, 2, 3]
        })
    );
}

#[test]
fn small_mod_ex_demux() {
    let data = &[
        1,  // size 2
        42, // data
        42,
        0b0001_0001, // type 1, next packet 1
    ];

    let (mod_ex, next_packet) = VideoPacketModEx::demux(&mut ByteCursor::new(data.to_vec())).unwrap();

    assert_eq!(
        mod_ex,
        VideoPacketModEx::Other {
            video_packet_mod_ex_type: VideoPacketModExType::Unknown(1),
            mod_ex_data: [42, 42].to_vec()
        }
    );
    assert_eq!(next_packet, VideoPacketType::CodedFrames);
}

#[test]
fn timestamp_offset_mod_ex_demux() {
    let data = &[
        2, // size 3
        0, // data
        0,
        1,
        0b0000_0000, // type 0, next packet 0
    ];

    let (mod_ex, next_packet) = VideoPacketModEx::demux(&mut ByteCursor::new(data.to_vec())).unwrap();

    assert_eq!(
        mod_ex,
        VideoPacketModEx::TimestampOffsetNano {
            video_timestamp_nano_offset: 1
        },
    );
    assert_eq!(next_packet, VideoPacketType::SequenceStart);
}

#[test]
fn big_mod_ex_demux() {
    let data = &[
        255, // size 2
        0,
        1,
        42, // data
        42,
        0b0001_0001, // type 1, next packet 1
    ];

    let (mod_ex, next_packet) = VideoPacketModEx::demux(&mut ByteCursor::new(data.to_vec())).unwrap();

    assert_eq!(
        mod_ex,
        VideoPacketModEx::Other {
            video_packet_mod_ex_type: VideoPacketModExType::Unknown(1),
            mod_ex_data: [42, 42].to_vec()
        }
    );
    assert_eq!(next_packet, VideoPacketType::CodedFrames);
}

#[test]
fn mod_ex_demux_error() {
    let data = &[
        0, // size 1
        42,
        0b0000_0010, // type 0, next packet 2
    ];

    let err = VideoPacketModEx::demux(&mut ByteCursor::new(data.to_vec())).unwrap_err();

    assert!(matches!(err, FlvError::InvalidModExData { expected_bytes: 3 },));
}

#[test]
fn minimal_header() {
    let data = &[
        0b0000_0000, // type 0
        b'a',        // four cc
        b'v',
        b'c',
        b'1',
    ];

    let header = ExVideoTagHeader::demux(&mut ByteCursor::new(data.to_vec())).unwrap();

    assert_eq!(header.video_packet_mod_exs.len(), 0);
    assert_eq!(header.video_packet_type, VideoPacketType::SequenceStart);
    assert_eq!(header.content, ExVideoTagHeaderContent::NoMultiTrack(VideoFourCc::Avc));
}

#[test]
fn header_small_mod_ex() {
    let data = &[
        0b0000_0111, // type 7
        1,           // modex size 2
        42,          // modex data
        42,
        0b0001_0001, // type 1, next packet 1
        b'a',        // four cc
        b'v',
        b'c',
        b'1',
    ];

    let header = ExVideoTagHeader::demux(&mut ByteCursor::new(data.to_vec())).unwrap();

    assert_eq!(header.video_packet_mod_exs.len(), 1);
    assert_eq!(
        header.video_packet_mod_exs[0],
        VideoPacketModEx::Other {
            video_packet_mod_ex_type: VideoPacketModExType::Unknown(1),
            mod_ex_data: [42, 42].to_vec()
        }
    );
    assert_eq!(header.video_packet_type, VideoPacketType::CodedFrames);
    assert_eq!(header.content, ExVideoTagHeaderContent::NoMultiTrack(VideoFourCc::Avc));
}

#[test]
fn header_multitrack_one_track() {
    let data = &[
        0b0000_0110, // type 6
        0b0000_0000, // one track, type 0
        b'a',        // four cc
        b'v',
        b'c',
        b'1',
    ];

    let header = ExVideoTagHeader::demux(&mut ByteCursor::new(data.to_vec())).unwrap();

    assert_eq!(header.video_packet_mod_exs.len(), 0);
    assert_eq!(header.video_packet_type, VideoPacketType::SequenceStart);
    assert_eq!(header.content, ExVideoTagHeaderContent::OneTrack(VideoFourCc::Avc));
}

#[test]
fn header_multitrack_many_tracks() {
    let data = &[
        0b0000_0110, // type 6
        0b0001_0000, // many tracks, type 0
        b'a',        // four cc
        b'v',
        b'c',
        b'1',
    ];

    let header = ExVideoTagHeader::demux(&mut ByteCursor::new(data.to_vec())).unwrap();

    assert_eq!(header.video_packet_mod_exs.len(), 0);
    assert_eq!(header.video_packet_type, VideoPacketType::SequenceStart);
    assert_eq!(header.content, ExVideoTagHeaderContent::ManyTracks(VideoFourCc::Avc));
}

#[test]
fn header_multitrack_many_tracks_many_codecs() {
    let data = &[
        0b0000_0110, // type 6
        0b0010_0000, // many tracks many codecs, type 0
        b'a',        // four cc, should be ignored
        b'v',
        b'c',
        b'1',
    ];

    let header = ExVideoTagHeader::demux(&mut ByteCursor::new(data.to_vec())).unwrap();

    assert_eq!(header.video_packet_mod_exs.len(), 0);
    assert_eq!(header.video_packet_type, VideoPacketType::SequenceStart);
    assert_eq!(header.content, ExVideoTagHeaderContent::ManyTracksManyCodecs);
}

#[test]
fn header_multitrack_unknown() {
    let data = &[
        0b0000_0110, // type 6
        0b0011_0000, // unknown, type 0
        b'a',        // four cc
        b'v',
        b'c',
        b'1',
    ];

    let header = ExVideoTagHeader::demux(&mut ByteCursor::new(data.to_vec())).unwrap();

    assert_eq!(header.video_packet_mod_exs.len(), 0);
    assert_eq!(header.video_packet_type, VideoPacketType::SequenceStart);
    assert_eq!(
        header.content,
        ExVideoTagHeaderContent::Unknown {
            video_multitrack_type: AvMultitrackType::Unknown(3),
            video_four_cc: VideoFourCc::Avc,
        }
    );
}

#[test]
fn nested_multitrack_error() {
    let data = &[
        0b0000_0110, // type 6
        0b0000_0110, // one track, type 5
    ];

    let err = ExVideoTagHeader::demux(&mut ByteCursor::new(data.to_vec())).unwrap_err();
    assert!(matches!(err, FlvError::NestedMultitracks));
}

#[test]
fn simple_video_packets_demux() {
    let data = &[42, 42, 42, 42];

    let packet = VideoPacket::demux(
        &ExVideoTagHeader {
            video_packet_mod_exs: vec![],
            video_packet_type: VideoPacketType::SequenceStart,
            content: ExVideoTagHeaderContent::NoMultiTrack(VideoFourCc::Unknown([0, 0, 0, 0])),
        },
        VideoFourCc::Unknown([0, 0, 0, 0]),
        &mut ByteCursor::new(data.to_vec()),
    )
    .unwrap();
    assert_eq!(
        packet,
        VideoPacket::SequenceStart(VideoPacketSequenceStart::Other(data.to_vec())),
    );

    let packet = VideoPacket::demux(
        &ExVideoTagHeader {
            video_packet_mod_exs: vec![],
            video_packet_type: VideoPacketType::CodedFrames,
            content: ExVideoTagHeaderContent::NoMultiTrack(VideoFourCc::Unknown([0, 0, 0, 0])),
        },
        VideoFourCc::Unknown([0, 0, 0, 0]),
        &mut ByteCursor::new(data.to_vec()),
    )
    .unwrap();
    assert_eq!(
        packet,
        VideoPacket::CodedFrames(VideoPacketCodedFrames::Other(data.to_vec())),
    );

    let packet = VideoPacket::demux(
        &ExVideoTagHeader {
            video_packet_mod_exs: vec![],
            video_packet_type: VideoPacketType::SequenceEnd,
            content: ExVideoTagHeaderContent::NoMultiTrack(VideoFourCc::Unknown([0, 0, 0, 0])),
        },
        VideoFourCc::Unknown([0, 0, 0, 0]),
        &mut ByteCursor::new(data.to_vec()),
    )
    .unwrap();
    assert_eq!(packet, VideoPacket::SequenceEnd);

    let packet = VideoPacket::demux(
        &ExVideoTagHeader {
            video_packet_mod_exs: vec![],
            video_packet_type: VideoPacketType::Unknown(8),
            content: ExVideoTagHeaderContent::NoMultiTrack(VideoFourCc::Unknown([0, 0, 0, 0])),
        },
        VideoFourCc::Unknown([0, 0, 0, 0]),
        &mut ByteCursor::new(data.to_vec()),
    )
    .unwrap();
    assert_eq!(
        packet,
        VideoPacket::Unknown {
            packet_type: VideoPacketType::Unknown(8),
            data: data.to_vec()
        },
    );
}

#[test]
fn video_packet_with_size_demux() {
    let data = &[
        0, 0, 5, // size
        0, 0, 1, // composition time offset
        42, 42, // data
        13, 37, // should be ignored
    ];

    let header = ExVideoTagHeader {
        video_packet_mod_exs: vec![],
        video_packet_type: VideoPacketType::CodedFrames,
        content: ExVideoTagHeaderContent::ManyTracks(VideoFourCc::Avc),
    };

    let packet =
        VideoPacket::demux(&header, VideoFourCc::Avc, &mut ByteCursor::new(data.to_vec())).unwrap();

    assert_eq!(
        packet,
        VideoPacket::CodedFrames(VideoPacketCodedFrames::Avc {
            composition_time_offset: 1,
            data: [42, 42].to_vec(),
        }),
    );
}

#[test]
fn video_packet_mpeg2_ts_demux() {
    let data = &[
        42, 42, // data
    ];

    let header = ExVideoTagHeader {
        video_packet_mod_exs: vec![],
        video_packet_type: VideoPacketType::Mpeg2TsSequenceStart,
        content: ExVideoTagHeaderContent::NoMultiTrack(VideoFourCc::Avc),
    };

    let packet =
        VideoPacket::demux(&header, VideoFourCc::Avc, &mut ByteCursor::new(data.to_vec())).unwrap();

    assert_eq!(
        packet,
        VideoPacket::Mpeg2TsSequenceStart(VideoPacketMpeg2TsSequenceStart::Other(data.to_vec())),
    );
}

#[test]
fn mod_simple_body_demux() {
    let data = &[
        42, 42, // data
    ];

    let header = ExVideoTagHeader {
        video_packet_mod_exs: vec![],
        video_packet_type: VideoPacketType::CodedFrames,
        content: ExVideoTagHeaderContent::NoMultiTrack(VideoFourCc::Unknown([0, 0, 0, 0])),
    };

    let packet = ExVideoTagBody::demux(&header, &mut ByteCursor::new(data.to_vec())).unwrap();

    assert_eq!(
        packet,
        ExVideoTagBody::NoMultitrack {
            video_four_cc: VideoFourCc::Unknown([0, 0, 0, 0]),
            packet: VideoPacket::CodedFrames(VideoPacketCodedFrames::Other(data.to_vec())),
        },
    );
}

#[test]
fn mod_multitrack_many_codecs_body_demux() {
    let data = &[
        0, 0, 0, 0, // video four cc
        1, // video track id
        0, 0, 2, // size
        42, 42, // data
        0, 1, 0, 1, // video four cc
        2, // video track id
        0, 0, 2, // size
        13, 37, // data
    ];

    let header = ExVideoTagHeader {
        video_packet_mod_exs: vec![],
        video_packet_type: VideoPacketType::CodedFrames,
        content: ExVideoTagHeaderContent::ManyTracksManyCodecs,
    };

    let packet = ExVideoTagBody::demux(&header, &mut ByteCursor::new(data.to_vec())).unwrap();

    assert_eq!(
        packet,
        ExVideoTagBody::ManyTracks(vec![
            VideoTrack {
                video_four_cc: VideoFourCc::Unknown([0, 0, 0, 0]),
                video_track_id: 1,
                packet: VideoPacket::CodedFrames(VideoPacketCodedFrames::Other([42, 42].to_vec())),
            },
            VideoTrack {
                video_four_cc: VideoFourCc::Unknown([0, 1, 0, 1]),
                video_track_id: 2,
                packet: VideoPacket::CodedFrames(VideoPacketCodedFrames::Other([13, 37].to_vec())),
            }
        ]),
    );
}

#[test]
fn mod_multitrack_body_demux() {
    let data = &[
        1, // video track id
        0, 0, 2, // size
        42, 42, // data
        2,  // video track id
        0, 0, 2, // size
        13, 37, // data
    ];

    let header = ExVideoTagHeader {
        video_packet_mod_exs: vec![],
        video_packet_type: VideoPacketType::CodedFrames,
        content: ExVideoTagHeaderContent::ManyTracks(VideoFourCc::Unknown([0, 0, 0, 0])),
    };

    let packet = ExVideoTagBody::demux(&header, &mut ByteCursor::new(data.to_vec())).unwrap();

    assert_eq!(
        packet,
        ExVideoTagBody::ManyTracks(vec![
            VideoTrack {
                video_four_cc: VideoFourCc::Unknown([0, 0, 0, 0]),
                video_track_id: 1,
                packet: VideoPacket::CodedFrames(VideoPacketCodedFrames::Other([42, 42].to_vec())),
            },
            VideoTrack {
                video_four_cc: VideoFourCc::Unknown([0, 0, 0, 0]),
                video_track_id: 2,
                packet: VideoPacket::CodedFrames(VideoPacketCodedFrames::Other([13, 37].to_vec())),
            }
        ]),
    );
}

#[test]
fn mod_multitrack_one_track_body_demux() {
    let data = &[
        1, // video track id
        42, 42, // data
    ];

    let header = ExVideoTagHeader {
        video_packet_mod_exs: vec![],
        video_packet_type: VideoPacketType::CodedFrames,
        content: ExVideoTagHeaderContent::OneTrack(VideoFourCc::Unknown([0, 0, 0, 0])),
    };

    let packet = ExVideoTagBody::demux(&header, &mut ByteCursor::new(data.to_vec())).unwrap();

    assert_eq!(
        packet,
        ExVideoTagBody::ManyTracks(vec![VideoTrack {
            video_four_cc: VideoFourCc::Unknown([0, 0, 0, 0]),
            video_track_id: 1,
            packet: VideoPacket::CodedFrames(VideoPacketCodedFrames::Other([42, 42].to_vec())),
        }]),
    );
}

#[test]
fn mod_multitrack_unknown_body_demux() {
    let data = &[
        1, // video track id
        0, 0, 2, // size
        42, 42, // data
    ];

    let header = ExVideoTagHeader {
        video_packet_mod_exs: vec![],
        video_packet_type: VideoPacketType::CodedFrames,
        content: ExVideoTagHeaderContent::Unknown {
            video_four_cc: VideoFourCc::Unknown([0, 0, 0, 0]),
            video_multitrack_type: AvMultitrackType::Unknown(4),
        },
    };

    let packet = ExVideoTagBody::demux(&header, &mut ByteCursor::new(data.to_vec())).unwrap();

    assert_eq!(
        packet,
        ExVideoTagBody::ManyTracks(vec![VideoTrack {
            video_track_id: 1,
            video_four_cc: VideoFourCc::Unknown([0, 0, 0, 0]),
            packet: VideoPacket::CodedFrames(VideoPacketCodedFrames::Other([42, 42].to_vec())),
        }]),
    );
}

#[test]
fn mod_video_command() {
    let data = &[
        42, // should be ignored
    ];

    let header = ExVideoTagHeader {
        video_packet_mod_exs: vec![],
        video_packet_type: VideoPacketType::SequenceStart,
        content: ExVideoTagHeaderContent::VideoCommand(VideoCommand::StartSeek),
    };

    let packet = ExVideoTagBody::demux(&header, &mut ByteCursor::new(data.to_vec())).unwrap();

    assert_eq!(packet, ExVideoTagBody::Command);
}


#[test]
fn video_data_metadata_entry_with_empty_key() {
    let mut reader = ByteCursor::new(vec![
        0b1001_0100, // enhanced + keyframe + metadata
        1,
        2,
        3,
        4,
        Amf0Marker::String as u8,
        0,
        0,
        Amf0Marker::Object as u8,
        0,
        0,
        Amf0Marker::ObjectEnd as u8,
    ]);
    let video = VideoData::demux(&mut reader).unwrap();

    let VideoTagBody::Enhanced(ExVideoTagBody::NoMultitrack {
        video_four_cc: VideoFourCc::Unknown([1, 2, 3, 4]),
        packet: VideoPacket::Metadata(metadata),
    }) = video.body
    else {
        panic!("unexpected body: {:?}", video.body);
    };

    assert_eq!(
        metadata,
        vec![VideoPacketMetadataEntry {
            key: "".to_string(),
            object: vec![],
        }]
    );
}

#[test]
fn enhanced_video_command() {
    let data = &[
        0b0101_0000, // frame type 5, type 0
        0,           // video command 0
        42,          // should be ignored
    ];

    let mut reader = ByteCursor::new(data.to_vec());
    let header = ExVideoTagHeader::demux(&mut reader).unwrap();

    assert_eq!(header.video_packet_mod_exs.len(), 0);
    assert_eq!(header.video_packet_type, VideoPacketType::SequenceStart);
    assert_eq!(header.content, ExVideoTagHeaderContent::VideoCommand(VideoCommand::StartSeek));
    assert_eq!(reader.position(), 2);
}

#[test]
fn video_commands_are_numbered_from_zero() {
    let cases = [
        (0, VideoCommand::StartSeek, "VideoCommand::StartSeek"),
        (1, VideoCommand::EndSeek, "VideoCommand::EndSeek"),
        (2, VideoCommand::Unknown(2), "VideoCommand(2)"),
        (3, VideoCommand::Unknown(3), "VideoCommand(3)"),
        (4, VideoCommand::Unknown(4), "VideoCommand(4)"),
    ];
    for (value, expected, name) in cases {
        assert_eq!(VideoCommand::from(value), expected);
        assert_eq!(expected.value(), value);
        assert_eq!(VideoCommand::from(value).debug_name(), name);
    }
}

#[test]
fn legacy_command_packet_reads_its_command() {
    let mut reader = ByteCursor::new(vec![
        0b0101_0000, // legacy + command
        0x01,
    ]);
    let video = VideoData::demux(&mut reader).unwrap();
    assert_eq!(
        video.header,
        VideoTagHeader {
            frame_type: VideoFrameType::Command,
            data: VideoTagHeaderData::Legacy(LegacyVideoTagHeader::VideoCommand(VideoCommand::EndSeek))
        }
    );
    assert_eq!(video.body, VideoTagBody::Legacy(LegacyVideoTagBody::Command));
}
