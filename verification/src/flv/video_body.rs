//! FLV video tag bodies: the legacy body (an AVC sequence header or raw data) and the enhanced
//! body with its packets and tracks.
use vstd::prelude::*;

use crate::amf0::decoder::{spec_object, spec_string, Amf0Decoder};
use crate::amf0::error::Amf0Error;
use crate::amf0::value::{props_view, Amf0Value, Amf0ValueView};
use crate::cursor::{be24, be_i24, ByteCursor};
use crate::error::IoError;
use crate::flv::audio_body::spec_packet_data;
use crate::flv::audio_header::fourcc_at;
use crate::flv::error::FlvError;
use crate::flv::video_enums::{VideoFourCc, VideoPacketType};
use crate::flv::video_header::{
    spec_video_tag_header, ExVideoTagHeader, ExVideoTagHeaderContent, LegacyVideoTagHeader,
    LegacyVideoTagHeaderAvcPacket, VideoTagHeader, VideoTagHeaderDataView, VideoTagHeaderView,
};
use crate::h264::config::{spec_config, AVCDecoderConfigurationRecord, AvcConfigView};

verus! {

broadcast use vstd::array::group_array_axioms;

/// The legacy FLV video tag body.
#[derive(Debug, Clone, PartialEq, Eq)]
pub enum LegacyVideoTagBody {
    /// The body of a video command: nothing.
    Command,
    /// An AVC sequence header: the decoder configuration record.
    AvcVideoPacketSeqHdr(AVCDecoderConfigurationRecord),
    /// Any other video data.
    Other {
        /// The data.
        data: Vec<u8>,
    },
}

/// The mathematical value of a [`LegacyVideoTagBody`].
pub enum LegacyVideoTagBodyView {
    Command,
    AvcVideoPacketSeqHdr(AvcConfigView),
    Other { data: Seq<u8> },
}

impl View for LegacyVideoTagBody {
    type V = LegacyVideoTagBodyView;

    open spec fn view(&self) -> LegacyVideoTagBodyView {
        match self {
            LegacyVideoTagBody::Command => LegacyVideoTagBodyView::Command,
            LegacyVideoTagBody::AvcVideoPacketSeqHdr(c) => LegacyVideoTagBodyView::AvcVideoPacketSeqHdr(c@),
            LegacyVideoTagBody::Other { data } => LegacyVideoTagBodyView::Other { data: data@ },
        }
    }
}

/// Reads a legacy video body: nothing for a command, the decoder configuration record for an
/// AVC sequence header, else all of `s`.
pub open spec fn spec_legacy_video_body(h: LegacyVideoTagHeader, s: Seq<u8>) -> Result<
    (LegacyVideoTagBodyView, nat),
    IoError,
> {
    match h {
        LegacyVideoTagHeader::VideoCommand(_) => Ok((LegacyVideoTagBodyView::Command, 0)),
        LegacyVideoTagHeader::AvcPacket(LegacyVideoTagHeaderAvcPacket::SequenceHeader) => match spec_config(s) {
            Ok((c, n)) => Ok((LegacyVideoTagBodyView::AvcVideoPacketSeqHdr(c), n)),
            Err(e) => Err(e),
        },
        _ => Ok((LegacyVideoTagBodyView::Other { data: s }, s.len())),
    }
}

impl LegacyVideoTagBody {
    /// Reads a legacy video body.
    pub fn demux(header: &LegacyVideoTagHeader, reader: &mut ByteCursor) -> (r: Result<Self, IoError>)
        requires
            old(reader).wf(),
        ensures
            final(reader).wf(),
            final(reader).data@ == old(reader).data@,
            match r {
                Ok(b) => final(reader).pos >= old(reader).pos && spec_legacy_video_body(*header, old(reader).rest())
                    == Ok::<(LegacyVideoTagBodyView, nat), IoError>(
                    (b@, (final(reader).pos - old(reader).pos) as nat),
                ),
                Err(e) => spec_legacy_video_body(*header, old(reader).rest()) == Err::<
                    (LegacyVideoTagBodyView, nat),
                    IoError,
                >(e),
            },
    {
        match header {
            LegacyVideoTagHeader::VideoCommand(_) => Ok(LegacyVideoTagBody::Command),
            LegacyVideoTagHeader::AvcPacket(LegacyVideoTagHeaderAvcPacket::SequenceHeader) => {
                let record = AVCDecoderConfigurationRecord::parse(reader)?;
                Ok(LegacyVideoTagBody::AvcVideoPacketSeqHdr(record))
            },
            _ => {
                let data = reader.extract_remaining();
                Ok(LegacyVideoTagBody::Other { data })
            },
        }
    }
}

/// One entry of a metadata video packet: a key and its AMF0 object.
#[derive(Debug, PartialEq)]
pub struct VideoPacketMetadataEntry {
    /// The key, such as `colorInfo`.
    pub key: String,
    /// The object's properties.
    pub object: Vec<(String, Amf0Value)>,
}

/// The mathematical value of a [`VideoPacketMetadataEntry`].
pub struct VideoPacketMetadataEntryView {
    pub key: Seq<char>,
    pub object: Seq<(Seq<char>, Amf0ValueView)>,
}

impl View for VideoPacketMetadataEntry {
    type V = VideoPacketMetadataEntryView;

    open spec fn view(&self) -> VideoPacketMetadataEntryView {
        VideoPacketMetadataEntryView { key: self.key@, object: props_view(self.object@) }
    }
}

/// The views of metadata entries.
pub open spec fn entries_view(v: Seq<VideoPacketMetadataEntry>) -> Seq<VideoPacketMetadataEntryView> {
    v.map_values(|e: VideoPacketMetadataEntry| e@)
}

/// Reads a metadata entry: an AMF0 string and an AMF0 object.
#[verifier::opaque]
pub open spec fn spec_metadata_entry(d: Seq<u8>) -> Result<(VideoPacketMetadataEntryView, nat), Amf0Error> {
    match spec_string(d) {
        Err(e) => Err(e),
        Ok((k, kn)) => if kn > d.len() {
            Err(Amf0Error::Io(IoError::UnexpectedEof))
        } else {
            match spec_object(d.subrange(kn as int, d.len() as int)) {
                Err(e) => Err(e),
                Ok((o, on)) => Ok((VideoPacketMetadataEntryView { key: k, object: o }, kn + on)),
            }
        },
    }
}

/// Reads metadata entries after `acc` until `d` is used up.
pub open spec fn spec_metadata(d: Seq<u8>, acc: Seq<VideoPacketMetadataEntryView>) -> Result<
    Seq<VideoPacketMetadataEntryView>,
    FlvError,
>
    decreases d.len(),
{
    if d.len() == 0 {
        Ok(acc)
    } else {
        match spec_metadata_entry(d) {
            Err(e) => Err(FlvError::Amf0Read(e)),
            Ok((ev, n)) => if n < 1 || n > d.len() {
                Err(FlvError::Io(IoError::UnexpectedEof))
            } else {
                spec_metadata(d.subrange(n as int, d.len() as int), acc.push(ev))
            },
        }
    }
}

/// Reads one metadata entry.
fn demux_metadata_entry(decoder: &mut Amf0Decoder) -> (r: Result<VideoPacketMetadataEntry, Amf0Error>)
    requires
        old(decoder).wf(),
    ensures
        decoder_steps(*old(decoder), *final(decoder), spec_metadata_entry(old(decoder).input()), r),
{
    reveal(spec_metadata_entry);
    let ghost d = decoder.input();
    let key = decoder.decode_string()?;
    let ghost kn = (d.len() - decoder.input().len()) as nat;
    assert(decoder.input() =~= d.subrange(kn as int, d.len() as int));
    let object = decoder.decode_object()?;
    assert(decoder.input() =~= d.subrange(d.len() - decoder.input().len(), d.len() as int));
    Ok(VideoPacketMetadataEntry { key, object })
}

/// The decoder took the bytes of the entry that the spec reads, or both give the same error.
pub open spec fn decoder_steps(
    old_d: Amf0Decoder,
    new_d: Amf0Decoder,
    spec_r: Result<(VideoPacketMetadataEntryView, nat), Amf0Error>,
    r: Result<VideoPacketMetadataEntry, Amf0Error>,
) -> bool {
    &&& new_d.wf()
    &&& match r {
        Ok(x) => spec_r matches Ok((y, n)) && y == x@ && 1 <= n <= old_d.input().len() && new_d.input()
            == old_d.input().subrange(n as int, old_d.input().len() as int),
        Err(e) => spec_r == Err::<(VideoPacketMetadataEntryView, nat), Amf0Error>(e),
    }
}

/// Reads metadata entries until the data is used up.
fn demux_metadata(data: Vec<u8>) -> (r: Result<Vec<VideoPacketMetadataEntry>, FlvError>)
    ensures
        match r {
            Ok(v) => spec_metadata(data@, seq![]) == Ok::<Seq<VideoPacketMetadataEntryView>, FlvError>(
                entries_view(v@),
            ),
            Err(e) => spec_metadata(data@, seq![]) == Err::<Seq<VideoPacketMetadataEntryView>, FlvError>(
                e,
            ),
        },
{
    let ghost d = data@;
    let mut decoder = Amf0Decoder::new(data);
    let mut entries: Vec<VideoPacketMetadataEntry> = Vec::new();
    assert(entries_view(entries@) =~= Seq::<VideoPacketMetadataEntryView>::empty());
    while decoder.has_remaining()
        invariant
            decoder.wf(),
            d == data@,
            spec_metadata(d, seq![]) == spec_metadata(decoder.input(), entries_view(entries@)),
        decreases decoder.input().len(),
    {
        let ghost acc = entries_view(entries@);
        let ghost cur = decoder.input();
        let entry = match demux_metadata_entry(&mut decoder) {
            Ok(e) => e,
            Err(e) => {
                assert(cur.len() != 0);
                assert(spec_metadata(cur, acc) == Err::<Seq<VideoPacketMetadataEntryView>, FlvError>(
                    FlvError::Amf0Read(e),
                ));
                return Err(FlvError::Amf0Read(e));
            },
        };
        entries.push(entry);
        assert(entries_view(entries@) =~= acc.push(entry@));
    }
    Ok(entries)
}

/// The sequence start data of an enhanced video packet.
#[derive(Debug, Clone, PartialEq, Eq)]
pub enum VideoPacketSequenceStart {
    /// The bytes of an AV1 codec configuration record.
    Av1(Vec<u8>),
    /// An AVC decoder configuration record.
    Avc(AVCDecoderConfigurationRecord),
    /// The bytes of an HEVC decoder configuration record.
    Hevc(Vec<u8>),
    /// The data of any other codec.
    Other(Vec<u8>),
}

/// The mathematical value of a [`VideoPacketSequenceStart`].
pub enum VideoPacketSequenceStartView {
    Av1(Seq<u8>),
    Avc(AvcConfigView),
    Hevc(Seq<u8>),
    Other(Seq<u8>),
}

impl View for VideoPacketSequenceStart {
    type V = VideoPacketSequenceStartView;

    open spec fn view(&self) -> VideoPacketSequenceStartView {
        match self {
            VideoPacketSequenceStart::Av1(d) => VideoPacketSequenceStartView::Av1(d@),
            VideoPacketSequenceStart::Avc(c) => VideoPacketSequenceStartView::Avc(c@),
            VideoPacketSequenceStart::Hevc(d) => VideoPacketSequenceStartView::Hevc(d@),
            VideoPacketSequenceStart::Other(d) => VideoPacketSequenceStartView::Other(d@),
        }
    }
}

/// The MPEG-2 TS sequence start data of an enhanced video packet.
#[derive(Debug, Clone, PartialEq, Eq)]
pub enum VideoPacketMpeg2TsSequenceStart {
    /// The bytes of an AV1 video descriptor.
    Av1(Vec<u8>),
    /// The data of any other codec.
    Other(Vec<u8>),
}

/// The mathematical value of a [`VideoPacketMpeg2TsSequenceStart`].
pub enum VideoPacketMpeg2TsSequenceStartView {
    Av1(Seq<u8>),
    Other(Seq<u8>),
}

impl View for VideoPacketMpeg2TsSequenceStart {
    type V = VideoPacketMpeg2TsSequenceStartView;

    open spec fn view(&self) -> VideoPacketMpeg2TsSequenceStartView {
        match self {
            VideoPacketMpeg2TsSequenceStart::Av1(d) => VideoPacketMpeg2TsSequenceStartView::Av1(d@),
            VideoPacketMpeg2TsSequenceStart::Other(d) => VideoPacketMpeg2TsSequenceStartView::Other(d@),
        }
    }
}

/// The coded frames of an enhanced video packet.
#[derive(Debug, Clone, PartialEq, Eq)]
pub enum VideoPacketCodedFrames {
    /// AVC frames.
    Avc {
        /// The composition time offset.
        composition_time_offset: i32,
        /// The frames.
        data: Vec<u8>,
    },
    /// HEVC frames.
    Hevc {
        /// The composition time offset.
        composition_time_offset: i32,
        /// The frames.
        data: Vec<u8>,
    },
    /// Frames of any other codec.
    Other(Vec<u8>),
}

/// The mathematical value of a [`VideoPacketCodedFrames`].
pub enum VideoPacketCodedFramesView {
    Avc { composition_time_offset: i32, data: Seq<u8> },
    Hevc { composition_time_offset: i32, data: Seq<u8> },
    Other(Seq<u8>),
}

impl View for VideoPacketCodedFrames {
    type V = VideoPacketCodedFramesView;

    open spec fn view(&self) -> VideoPacketCodedFramesView {
        match self {
            VideoPacketCodedFrames::Avc { composition_time_offset, data } => VideoPacketCodedFramesView::Avc {
                composition_time_offset: *composition_time_offset,
                data: data@,
            },
            VideoPacketCodedFrames::Hevc { composition_time_offset, data } =>
                VideoPacketCodedFramesView::Hevc {
                composition_time_offset: *composition_time_offset,
                data: data@,
            },
            VideoPacketCodedFrames::Other(d) => VideoPacketCodedFramesView::Other(d@),
        }
    }
}

/// An enhanced video packet.
#[derive(Debug, PartialEq)]
pub enum VideoPacket {
    /// Metadata entries.
    Metadata(Vec<VideoPacketMetadataEntry>),
    /// The end of a sequence.
    SequenceEnd,
    /// The start of a sequence.
    SequenceStart(VideoPacketSequenceStart),
    /// The start of an MPEG-2 TS sequence.
    Mpeg2TsSequenceStart(VideoPacketMpeg2TsSequenceStart),
    /// Coded frames.
    CodedFrames(VideoPacketCodedFrames),
    /// Coded frames whose composition time offset is zero.
    CodedFramesX(Vec<u8>),
    /// A packet of an unknown type.
    Unknown {
        /// The packet type.
        packet_type: VideoPacketType,
        /// The data.
        data: Vec<u8>,
    },
}

/// The mathematical value of a [`VideoPacket`].
pub enum VideoPacketView {
    Metadata(Seq<VideoPacketMetadataEntryView>),
    SequenceEnd,
    SequenceStart(VideoPacketSequenceStartView),
    Mpeg2TsSequenceStart(VideoPacketMpeg2TsSequenceStartView),
    CodedFrames(VideoPacketCodedFramesView),
    CodedFramesX(Seq<u8>),
    Unknown { packet_type: VideoPacketType, data: Seq<u8> },
}

impl View for VideoPacket {
    type V = VideoPacketView;

    open spec fn view(&self) -> VideoPacketView {
        match self {
            VideoPacket::Metadata(e) => VideoPacketView::Metadata(entries_view(e@)),
            VideoPacket::SequenceEnd => VideoPacketView::SequenceEnd,
            VideoPacket::SequenceStart(x) => VideoPacketView::SequenceStart(x@),
            VideoPacket::Mpeg2TsSequenceStart(x) => VideoPacketView::Mpeg2TsSequenceStart(x@),
            VideoPacket::CodedFrames(x) => VideoPacketView::CodedFrames(x@),
            VideoPacket::CodedFramesX(d) => VideoPacketView::CodedFramesX(d@),
            VideoPacket::Unknown { packet_type, data } => VideoPacketView::Unknown {
                packet_type: *packet_type,
                data: data@,
            },
        }
    }
}

/// Whether the packets of a body carry a track size: every configuration but no multitrack
/// and a single track.
pub open spec fn video_has_track_size(c: ExVideoTagHeaderContent) -> bool {
    !(c is NoMultiTrack || c is OneTrack)
}

/// The track size less three, or zero.
pub open spec fn minus_cto(size: Option<nat>) -> Option<nat> {
    match size {
        Some(k) => Some(if k >= 3 {
            (k - 3) as nat
        } else {
            0
        }),
        None => None,
    }
}

/// Reads the rest of an enhanced video packet of type `pt` for a codec, given the track size
/// when one was read: the data, then for each packet type what the data holds.
#[verifier::opaque]
pub open spec fn spec_video_packet_body(
    cc: VideoFourCc,
    pt: VideoPacketType,
    size: Option<nat>,
    t: Seq<u8>,
) -> Result<(VideoPacketView, nat), FlvError> {
    if pt == VideoPacketType::SequenceEnd {
        Ok((VideoPacketView::SequenceEnd, 0))
    } else if pt == VideoPacketType::CodedFrames && (cc == VideoFourCc::Avc || cc == VideoFourCc::Hevc) {
        if t.len() < 3 {
            Err(FlvError::Io(IoError::UnexpectedEof))
        } else {
            let cto = be_i24(t) as i32;
            match spec_packet_data(t.subrange(3, t.len() as int), minus_cto(size)) {
                Err(e) => Err(FlvError::Io(e)),
                Ok((d, n)) => Ok(
                    (
                        VideoPacketView::CodedFrames(
                            if cc == VideoFourCc::Avc {
                                VideoPacketCodedFramesView::Avc { composition_time_offset: cto, data: d }
                            } else {
                                VideoPacketCodedFramesView::Hevc { composition_time_offset: cto, data: d }
                            },
                        ),
                        3 + n,
                    ),
                ),
            }
        }
    } else {
        match spec_packet_data(t, size) {
            Err(e) => Err(FlvError::Io(e)),
            Ok((d, n)) => if pt == VideoPacketType::Metadata {
                match spec_metadata(d, seq![]) {
                    Ok(es) => Ok((VideoPacketView::Metadata(es), n)),
                    Err(e) => Err(e),
                }
            } else if pt == VideoPacketType::SequenceStart {
                if cc == VideoFourCc::Avc {
                    match spec_config(d) {
                        Ok((c, _)) => Ok(
                            (VideoPacketView::SequenceStart(VideoPacketSequenceStartView::Avc(c)), n),
                        ),
                        Err(e) => Err(FlvError::Io(e)),
                    }
                } else {
                    Ok(
                        (
                            VideoPacketView::SequenceStart(
                                if cc == VideoFourCc::Av1 {
                                    VideoPacketSequenceStartView::Av1(d)
                                } else if cc == VideoFourCc::Hevc {
                                    VideoPacketSequenceStartView::Hevc(d)
                                } else {
                                    VideoPacketSequenceStartView::Other(d)
                                },
                            ),
                            n,
                        ),
                    )
                }
            } else if pt == VideoPacketType::Mpeg2TsSequenceStart {
                Ok(
                    (
                        VideoPacketView::Mpeg2TsSequenceStart(
                            if cc == VideoFourCc::Av1 {
                                VideoPacketMpeg2TsSequenceStartView::Av1(d)
                            } else {
                                VideoPacketMpeg2TsSequenceStartView::Other(d)
                            },
                        ),
                        n,
                    ),
                )
            } else if pt == VideoPacketType::CodedFrames {
                Ok((VideoPacketView::CodedFrames(VideoPacketCodedFramesView::Other(d)), n))
            } else if pt == VideoPacketType::CodedFramesX {
                Ok((VideoPacketView::CodedFramesX(d), n))
            } else {
                Ok((VideoPacketView::Unknown { packet_type: pt, data: d }, n))
            }
        }
    }
}

/// Reads an enhanced video packet: a 24-bit track size first when the body has many tracks,
/// then the packet.
pub open spec fn spec_video_packet(
    c: ExVideoTagHeaderContent,
    cc: VideoFourCc,
    pt: VideoPacketType,
    s: Seq<u8>,
) -> Result<(VideoPacketView, nat), FlvError> {
    if video_has_track_size(c) {
        if s.len() < 3 {
            Err(FlvError::Io(IoError::UnexpectedEof))
        } else {
            match spec_video_packet_body(cc, pt, Some(be24(s)), s.subrange(3, s.len() as int)) {
                Ok((p, n)) => Ok((p, 3 + n)),
                Err(e) => Err(e),
            }
        }
    } else {
        spec_video_packet_body(cc, pt, None, s)
    }
}

/// The two's-complement number of 24 bits whose big-endian bytes are `a`, `b` and `c`.
pub open spec fn signed24(a: u8, b: u8, c: u8) -> int {
    let u = a as int * 65536 + b as int * 256 + c as int;
    if a < 128 {
        u
    } else {
        u - 16777216
    }
}

/// Coded frames of AVC and HEVC, in a body without track sizes: the packet takes all of `s`,
/// reads as long as its three bytes of composition time offset are there, and holds that
/// offset, a signed big-endian 24-bit number, with the bytes after it as the data, tagged with
/// its codec. Coded frames of any other codec are the data as they are, and so are coded frames
/// without a composition time offset, of any codec; the end of a sequence takes no byte.
pub proof fn lemma_coded_frames_from_bytes(c: ExVideoTagHeaderContent, cc: VideoFourCc, s: Seq<u8>)
    requires
        c is NoMultiTrack || c is OneTrack,
    ensures
        cc == VideoFourCc::Avc || cc == VideoFourCc::Hevc ==> (spec_video_packet(c, cc, VideoPacketType::CodedFrames, s) is Ok <==> s.len() >= 3),
        cc == VideoFourCc::Avc && s.len() >= 3 ==> spec_video_packet(c, cc, VideoPacketType::CodedFrames, s)->Ok_0.1 == s.len() && (spec_video_packet(c, cc, VideoPacketType::CodedFrames, s)->Ok_0.0 matches VideoPacketView::CodedFrames(VideoPacketCodedFramesView::Avc { composition_time_offset, data })
            && composition_time_offset as int == signed24(s[0], s[1], s[2]) && data == s.subrange(3, s.len() as int)),
        cc == VideoFourCc::Hevc && s.len() >= 3 ==> spec_video_packet(c, cc, VideoPacketType::CodedFrames, s)->Ok_0.1 == s.len() && (spec_video_packet(c, cc, VideoPacketType::CodedFrames, s)->Ok_0.0 matches VideoPacketView::CodedFrames(VideoPacketCodedFramesView::Hevc { composition_time_offset, data })
            && composition_time_offset as int == signed24(s[0], s[1], s[2]) && data == s.subrange(3, s.len() as int)),
        cc != VideoFourCc::Avc && cc != VideoFourCc::Hevc ==> spec_video_packet(c, cc, VideoPacketType::CodedFrames, s) is Ok && spec_video_packet(c, cc, VideoPacketType::CodedFrames, s)->Ok_0.1 == s.len() && (spec_video_packet(c, cc, VideoPacketType::CodedFrames, s)->Ok_0.0 matches VideoPacketView::CodedFrames(VideoPacketCodedFramesView::Other(data))
            && data == s),
        spec_video_packet(c, cc, VideoPacketType::CodedFramesX, s) == Ok::<(VideoPacketView, nat), FlvError>(
            (VideoPacketView::CodedFramesX(s), s.len()),
        ),
        spec_video_packet(c, cc, VideoPacketType::SequenceEnd, s) == Ok::<(VideoPacketView, nat), FlvError>(
            (VideoPacketView::SequenceEnd, 0),
        ),
{
    reveal(spec_video_packet_body);
    if s.len() >= 3 {
        assert(s.subrange(3, s.len() as int).subrange(0, s.len() - 3) =~= s.subrange(3, s.len() as int));
    }
    assert(s.subrange(0, s.len() as int) =~= s);
}

/// Coded frames of AVC and HEVC in a body with track sizes: after the 24-bit track size come the
/// composition time offset, a signed big-endian 24-bit number, and the data, which takes the
/// rest of the track, three bytes less than its size (none where the size is below three).
pub proof fn lemma_coded_frames_in_track(c: ExVideoTagHeaderContent, cc: VideoFourCc, s: Seq<u8>)
    requires
        !(c is NoMultiTrack || c is OneTrack),
        cc == VideoFourCc::Avc || cc == VideoFourCc::Hevc,
    ensures
        spec_video_packet(c, cc, VideoPacketType::CodedFrames, s) is Ok ==> {
            let size = s[0] as int * 65536 + s[1] as int * 256 + s[2] as int;
            let len = if size >= 3 { size - 3 } else { 0 };
            &&& s.len() >= 6 + len
            &&& spec_video_packet(c, cc, VideoPacketType::CodedFrames, s)->Ok_0.1 == 6 + len
            &&& cc == VideoFourCc::Avc ==> (spec_video_packet(c, cc, VideoPacketType::CodedFrames, s)->Ok_0.0 matches VideoPacketView::CodedFrames(VideoPacketCodedFramesView::Avc { composition_time_offset, data })
                && composition_time_offset as int == signed24(s[3], s[4], s[5]) && data == s.subrange(6, 6 + len))
            &&& cc == VideoFourCc::Hevc ==> (spec_video_packet(c, cc, VideoPacketType::CodedFrames, s)->Ok_0.0 matches VideoPacketView::CodedFrames(VideoPacketCodedFramesView::Hevc { composition_time_offset, data })
                && composition_time_offset as int == signed24(s[3], s[4], s[5]) && data == s.subrange(6, 6 + len))
        },
{
    reveal(spec_video_packet_body);
    if s.len() >= 6 {
        let t = s.subrange(3, s.len() as int);
        let u = t.subrange(3, t.len() as int);
        let size = s[0] as int * 65536 + s[1] as int * 256 + s[2] as int;
        let len = if size >= 3 { size - 3 } else { 0 };
        if u.len() >= len {
            assert(u.subrange(0, len) =~= s.subrange(6, 6 + len));
        }
    }
}

/// Reads the data of a packet: `size` bytes, or all that remains.
fn demux_video_data(reader: &mut ByteCursor, size: Option<usize>) -> (r: Result<Vec<u8>, FlvError>)
    requires
        old(reader).wf(),
    ensures
        final(reader).wf(),
        final(reader).data@ == old(reader).data@,
        match r {
            Ok(d) => final(reader).pos >= old(reader).pos && spec_packet_data(
                old(reader).rest(),
                match size {
                    Some(k) => Some(k as nat),
                    None => None,
                },
            ) == Ok::<(Seq<u8>, nat), IoError>((d@, (final(reader).pos - old(reader).pos) as nat)),
            Err(e) => e is Io && spec_packet_data(
                old(reader).rest(),
                match size {
                    Some(k) => Some(k as nat),
                    None => None,
                },
            ) == Err::<(Seq<u8>, nat), IoError>(e->Io_0),
        },
{
    let n = match size {
        Some(k) => k,
        None => reader.remaining(),
    };
    match reader.extract_bytes(n) {
        Ok(d) => Ok(d),
        Err(e) => Err(FlvError::Io(e)),
    }
}

/// Reads the rest of an enhanced video packet after its track size.
fn demux_video_packet_body(
    cc: VideoFourCc,
    pt: VideoPacketType,
    size: Option<usize>,
    reader: &mut ByteCursor,
) -> (r: Result<VideoPacket, FlvError>)
    requires
        old(reader).wf(),
    ensures
        final(reader).wf(),
        final(reader).data@ == old(reader).data@,
        match r {
            Ok(p) => final(reader).pos >= old(reader).pos && spec_video_packet_body(
                cc,
                pt,
                match size {
                    Some(k) => Some(k as nat),
                    None => None,
                },
                old(reader).rest(),
            ) == Ok::<(VideoPacketView, nat), FlvError>((p@, (final(reader).pos - old(reader).pos) as nat)),
            Err(e) => spec_video_packet_body(
                cc,
                pt,
                match size {
                    Some(k) => Some(k as nat),
                    None => None,
                },
                old(reader).rest(),
            ) == Err::<(VideoPacketView, nat), FlvError>(e),
        },
{
    reveal(spec_video_packet_body);
    let ghost t = reader.rest();
    if pt == VideoPacketType::SequenceEnd {
        return Ok(VideoPacket::SequenceEnd);
    }
    let is_avc = match cc {
        VideoFourCc::Avc => true,
        _ => false,
    };
    let is_hevc = match cc {
        VideoFourCc::Hevc => true,
        _ => false,
    };
    if pt == VideoPacketType::CodedFrames && (is_avc || is_hevc) {
        let composition_time_offset = match reader.read_i24_be() {
            Ok(v) => v,
            Err(e) => return Err(FlvError::Io(e)),
        };
        assert(reader.rest() =~= t.subrange(3, t.len() as int));
        let rest_size: Option<usize> = match size {
            Some(k) => Some(if k >= 3 {
                k - 3
            } else {
                0
            }),
            None => None,
        };
        let data = demux_video_data(reader, rest_size)?;
        if is_avc {
            return Ok(VideoPacket::CodedFrames(VideoPacketCodedFrames::Avc { composition_time_offset, data }));
        } else {
            return Ok(VideoPacket::CodedFrames(VideoPacketCodedFrames::Hevc { composition_time_offset, data }));
        }
    }
    let data = demux_video_data(reader, size)?;
    if pt == VideoPacketType::Metadata {
        let entries = demux_metadata(data)?;
        Ok(VideoPacket::Metadata(entries))
    } else if pt == VideoPacketType::SequenceStart {
        match cc {
            VideoFourCc::Avc => {
                let mut inner = ByteCursor::new(data);
                match AVCDecoderConfigurationRecord::parse(&mut inner) {
                    Ok(record) => Ok(VideoPacket::SequenceStart(VideoPacketSequenceStart::Avc(record))),
                    Err(e) => Err(FlvError::Io(e)),
                }
            },
            VideoFourCc::Av1 => Ok(VideoPacket::SequenceStart(VideoPacketSequenceStart::Av1(data))),
            VideoFourCc::Hevc => Ok(VideoPacket::SequenceStart(VideoPacketSequenceStart::Hevc(data))),
            _ => Ok(VideoPacket::SequenceStart(VideoPacketSequenceStart::Other(data))),
        }
    } else if pt == VideoPacketType::Mpeg2TsSequenceStart {
        match cc {
            VideoFourCc::Av1 => Ok(VideoPacket::Mpeg2TsSequenceStart(VideoPacketMpeg2TsSequenceStart::Av1(data))),
            _ => Ok(VideoPacket::Mpeg2TsSequenceStart(VideoPacketMpeg2TsSequenceStart::Other(data))),
        }
    } else if pt == VideoPacketType::CodedFrames {
        Ok(VideoPacket::CodedFrames(VideoPacketCodedFrames::Other(data)))
    } else if pt == VideoPacketType::CodedFramesX {
        Ok(VideoPacket::CodedFramesX(data))
    } else {
        Ok(VideoPacket::Unknown { packet_type: pt, data })
    }
}

impl VideoPacket {
    /// Reads an enhanced video packet for the header's multitrack configuration and packet
    /// type, of the codec `video_four_cc`.
    pub fn demux(header: &ExVideoTagHeader, video_four_cc: VideoFourCc, reader: &mut ByteCursor) -> (r: Result<Self, FlvError>)
        requires
            old(reader).wf(),
        ensures
            final(reader).wf(),
            final(reader).data@ == old(reader).data@,
            match r {
                Ok(p) => final(reader).pos >= old(reader).pos && spec_video_packet(
                    header.content,
                    video_four_cc,
                    header.video_packet_type,
                    old(reader).rest(),
                ) == Ok::<(VideoPacketView, nat), FlvError>(
                    (p@, (final(reader).pos - old(reader).pos) as nat),
                ),
                Err(e) => spec_video_packet(header.content, video_four_cc, header.video_packet_type, old(reader).rest())
                    == Err::<(VideoPacketView, nat), FlvError>(e),
            },
    {
        let ghost s = reader.rest();
        let has_size = match header.content {
            ExVideoTagHeaderContent::NoMultiTrack(_) | ExVideoTagHeaderContent::OneTrack(_) => false,
            _ => true,
        };
        if has_size {
            let size = match reader.read_u24_be() {
                Ok(v) => v,
                Err(e) => return Err(FlvError::Io(e)),
            };
            assert(reader.rest() =~= s.subrange(3, s.len() as int));
            demux_video_packet_body(video_four_cc, header.video_packet_type, Some(size as usize), reader)
        } else {
            demux_video_packet_body(video_four_cc, header.video_packet_type, None, reader)
        }
    }
}

/// One track of a multitrack video body.
#[derive(Debug, PartialEq)]
pub struct VideoTrack {
    /// The track's FOURCC.
    pub video_four_cc: VideoFourCc,
    /// The track id.
    pub video_track_id: u8,
    /// The track's packet.
    pub packet: VideoPacket,
}

/// The mathematical value of a [`VideoTrack`].
pub struct VideoTrackView {
    pub video_four_cc: VideoFourCc,
    pub video_track_id: u8,
    pub packet: VideoPacketView,
}

impl View for VideoTrack {
    type V = VideoTrackView;

    open spec fn view(&self) -> VideoTrackView {
        VideoTrackView {
            video_four_cc: self.video_four_cc,
            video_track_id: self.video_track_id,
            packet: self.packet@,
        }
    }
}

/// The enhanced video tag body.
#[derive(Debug, PartialEq)]
pub enum ExVideoTagBody {
    /// The body of a video command: nothing.
    Command,
    /// A body that is not multitrack.
    NoMultitrack {
        /// The FOURCC of the header.
        video_four_cc: VideoFourCc,
        /// The packet.
        packet: VideoPacket,
    },
    /// A multitrack body.
    ManyTracks(Vec<VideoTrack>),
}

/// The mathematical value of an [`ExVideoTagBody`].
pub enum ExVideoTagBodyView {
    Command,
    NoMultitrack { video_four_cc: VideoFourCc, packet: VideoPacketView },
    ManyTracks(Seq<VideoTrackView>),
}

/// The views of tracks.
pub open spec fn video_tracks_view(v: Seq<VideoTrack>) -> Seq<VideoTrackView> {
    v.map_values(|t: VideoTrack| t@)
}

impl View for ExVideoTagBody {
    type V = ExVideoTagBodyView;

    open spec fn view(&self) -> ExVideoTagBodyView {
        match self {
            ExVideoTagBody::Command => ExVideoTagBodyView::Command,
            ExVideoTagBody::NoMultitrack { video_four_cc, packet } => ExVideoTagBodyView::NoMultitrack {
                video_four_cc: *video_four_cc,
                packet: packet@,
            },
            ExVideoTagBody::ManyTracks(t) => ExVideoTagBodyView::ManyTracks(video_tracks_view(t@)),
        }
    }
}

/// Reads one video track: a FOURCC when the tracks have many codecs, a track id and a packet.
#[verifier::opaque]
pub open spec fn spec_video_track(c: ExVideoTagHeaderContent, pt: VideoPacketType, s: Seq<u8>) -> Result<
    (VideoTrackView, nat),
    FlvError,
> {
    let fourcc = match c {
        ExVideoTagHeaderContent::ManyTracksManyCodecs => if s.len() < 4 {
            Err(FlvError::Io(IoError::UnexpectedEof))
        } else {
            Ok((VideoFourCc::spec_from(fourcc_at(s)), 4nat))
        },
        ExVideoTagHeaderContent::OneTrack(cc) => Ok((cc, 0nat)),
        ExVideoTagHeaderContent::ManyTracks(cc) => Ok((cc, 0nat)),
        ExVideoTagHeaderContent::NoMultiTrack(cc) => Ok((cc, 0nat)),
        ExVideoTagHeaderContent::Unknown { video_four_cc, .. } => Ok((video_four_cc, 0nat)),
        ExVideoTagHeaderContent::VideoCommand(_) => Ok((VideoFourCc::Unknown([0u8, 0u8, 0u8, 0u8]), 0nat)),
    };
    match fourcc {
        Err(e) => Err(e),
        Ok((cc, k1)) => if s.len() < k1 + 1 {
            Err(FlvError::Io(IoError::UnexpectedEof))
        } else {
            match spec_video_packet(c, cc, pt, s.subrange((k1 + 1) as int, s.len() as int)) {
                Err(e) => Err(e),
                Ok((p, k3)) => Ok(
                    (
                        VideoTrackView { video_four_cc: cc, video_track_id: s[k1 as int], packet: p },
                        k1 + 1 + k3,
                    ),
                ),
            }
        },
    }
}

/// A track that reads takes at least one byte.
pub proof fn lemma_video_track_takes_bytes(c: ExVideoTagHeaderContent, pt: VideoPacketType, s: Seq<u8>)
    requires
        spec_video_track(c, pt, s) is Ok,
    ensures
        spec_video_track(c, pt, s)->Ok_0.1 >= 1,
{
    reveal(spec_video_track);
}

/// Where a track's codec and id stand: when the tracks have many codecs the track starts with
/// its FOURCC and the id is the byte after it; otherwise the codec is the header's and the id
/// is the first byte.
pub proof fn lemma_video_track_ids_from_bytes(c: ExVideoTagHeaderContent, pt: VideoPacketType, s: Seq<u8>)
    ensures
        spec_video_track(c, pt, s) is Ok && c is ManyTracksManyCodecs ==> s.len() >= 5 && spec_video_track(c, pt, s)->Ok_0.0.video_four_cc.spec_value()
            == [s[0], s[1], s[2], s[3]] && spec_video_track(c, pt, s)->Ok_0.0.video_track_id == s[4],
        spec_video_track(c, pt, s) is Ok && c is OneTrack ==> spec_video_track(c, pt, s)->Ok_0.0.video_four_cc == c->OneTrack_0
            && spec_video_track(c, pt, s)->Ok_0.0.video_track_id == s[0],
        spec_video_track(c, pt, s) is Ok && c is ManyTracks ==> spec_video_track(c, pt, s)->Ok_0.0.video_four_cc == c->ManyTracks_0
            && spec_video_track(c, pt, s)->Ok_0.0.video_track_id == s[0],
{
    reveal(spec_video_track);
    if s.len() >= 4 {
        crate::flv::video_enums::lemma_video_numbers_kept(0u8, [s[0], s[1], s[2], s[3]]);
        assert(fourcc_at(s) =~= [s[0], s[1], s[2], s[3]]);
    }
}

/// Reads video tracks after `acc`; after each, more follow while bytes remain, unless the
/// header says one track.
pub open spec fn spec_video_tracks(
    c: ExVideoTagHeaderContent,
    pt: VideoPacketType,
    s: Seq<u8>,
    acc: Seq<VideoTrackView>,
) -> Result<(Seq<VideoTrackView>, nat), FlvError>
    decreases s.len(),
{
    match spec_video_track(c, pt, s) {
        Err(e) => Err(e),
        Ok((t, used)) => {
            let acc2 = acc.push(t);
            if 1 <= used <= s.len() && !(c is OneTrack) && s.len() > used {
                match spec_video_tracks(c, pt, s.subrange(used as int, s.len() as int), acc2) {
                    Ok((ts, n)) => Ok((ts, used + n)),
                    Err(e) => Err(e),
                }
            } else {
                Ok((acc2, used))
            }
        },
    }
}

/// Reads an enhanced video body: nothing for a command, one packet when not multitrack, else
/// the tracks.
pub open spec fn spec_ex_video_body(c: ExVideoTagHeaderContent, pt: VideoPacketType, s: Seq<u8>) -> Result<
    (ExVideoTagBodyView, nat),
    FlvError,
> {
    match c {
        ExVideoTagHeaderContent::VideoCommand(_) => Ok((ExVideoTagBodyView::Command, 0)),
        ExVideoTagHeaderContent::NoMultiTrack(cc) => match spec_video_packet(c, cc, pt, s) {
            Ok((p, n)) => Ok((ExVideoTagBodyView::NoMultitrack { video_four_cc: cc, packet: p }, n)),
            Err(e) => Err(e),
        },
        _ => match spec_video_tracks(c, pt, s, seq![]) {
            Ok((ts, n)) => Ok((ExVideoTagBodyView::ManyTracks(ts), n)),
            Err(e) => Err(e),
        },
    }
}

/// A result of reading tracks with `c` more bytes taken.
pub open spec fn shifted_video_tracks(r: Result<(Seq<VideoTrackView>, nat), FlvError>, c: nat) -> Result<
    (Seq<VideoTrackView>, nat),
    FlvError,
> {
    match r {
        Ok((ts, n)) => Ok((ts, n + c)),
        Err(e) => Err(e),
    }
}

/// Reads one track of a multitrack video body.
fn demux_video_track(header: &ExVideoTagHeader, reader: &mut ByteCursor) -> (r: Result<VideoTrack, FlvError>)
    requires
        old(reader).wf(),
        !(header.content is VideoCommand),
    ensures
        final(reader).wf(),
        final(reader).data@ == old(reader).data@,
        match r {
            Ok(t) => final(reader).pos >= old(reader).pos && spec_video_track(
                header.content,
                header.video_packet_type,
                old(reader).rest(),
            ) == Ok::<(VideoTrackView, nat), FlvError>((t@, (final(reader).pos - old(reader).pos) as nat)),
            Err(e) => spec_video_track(header.content, header.video_packet_type, old(reader).rest())
                == Err::<(VideoTrackView, nat), FlvError>(e),
        },
{
    reveal(spec_video_track);
    let ghost cur = reader.rest();
    let video_four_cc = match header.content {
        ExVideoTagHeaderContent::ManyTracksManyCodecs => {
            let raw = match reader.read_array4() {
                Ok(a) => a,
                Err(e) => return Err(FlvError::Io(e)),
            };
            assert(raw@ =~= fourcc_at(cur)@);
            assert(raw == fourcc_at(cur));
            VideoFourCc::from(raw)
        },
        ExVideoTagHeaderContent::OneTrack(cc) => cc,
        ExVideoTagHeaderContent::ManyTracks(cc) => cc,
        ExVideoTagHeaderContent::NoMultiTrack(cc) => cc,
        ExVideoTagHeaderContent::Unknown { video_four_cc, .. } => video_four_cc,
        ExVideoTagHeaderContent::VideoCommand(_) => VideoFourCc::Unknown([0u8, 0u8, 0u8, 0u8]),
    };
    let ghost k1 = (reader.pos - old(reader).pos) as nat;
    assert(reader.rest() =~= cur.subrange(k1 as int, cur.len() as int));
    let video_track_id = match reader.read_u8() {
        Ok(b) => b,
        Err(e) => return Err(FlvError::Io(e)),
    };
    assert(reader.rest() =~= cur.subrange((k1 + 1) as int, cur.len() as int));
    let packet = VideoPacket::demux(header, video_four_cc, reader)?;
    Ok(VideoTrack { video_four_cc, video_track_id, packet })
}

impl ExVideoTagBody {
    /// Reads an enhanced video body.
    pub fn demux(header: &ExVideoTagHeader, reader: &mut ByteCursor) -> (r: Result<Self, FlvError>)
        requires
            old(reader).wf(),
        ensures
            final(reader).wf(),
            final(reader).data@ == old(reader).data@,
            match r {
                Ok(b) => final(reader).pos >= old(reader).pos && spec_ex_video_body(
                    header.content,
                    header.video_packet_type,
                    old(reader).rest(),
                ) == Ok::<(ExVideoTagBodyView, nat), FlvError>(
                    (b@, (final(reader).pos - old(reader).pos) as nat),
                ),
                Err(e) => spec_ex_video_body(header.content, header.video_packet_type, old(reader).rest())
                    == Err::<(ExVideoTagBodyView, nat), FlvError>(e),
            },
    {
        if let ExVideoTagHeaderContent::VideoCommand(_) = header.content {
            return Ok(ExVideoTagBody::Command);
        }
        if let ExVideoTagHeaderContent::NoMultiTrack(video_four_cc) = header.content {
            let packet = VideoPacket::demux(header, video_four_cc, reader)?;
            return Ok(ExVideoTagBody::NoMultitrack { video_four_cc, packet });
        }
        let ghost u = reader.rest();
        let ghost c = header.content;
        let ghost pt = header.video_packet_type;
        let mut tracks: Vec<VideoTrack> = Vec::new();
        assert(video_tracks_view(tracks@) =~= Seq::<VideoTrackView>::empty());
        loop
            invariant_except_break
                reader.wf(),
                reader.data@ == old(reader).data@,
                u.len() >= reader.rest().len(),
                reader.rest() == u.subrange(u.len() - reader.rest().len(), u.len() as int),
                reader.pos == old(reader).pos + (u.len() - reader.rest().len()),
                spec_video_tracks(c, pt, u, seq![]) == shifted_video_tracks(
                    spec_video_tracks(c, pt, reader.rest(), video_tracks_view(tracks@)),
                    (u.len() - reader.rest().len()) as nat,
                ),
            invariant
                u == old(reader).rest(),
                c == header.content,
                pt == header.video_packet_type,
                !(c is NoMultiTrack),
                !(c is VideoCommand),
            ensures
                reader.wf(),
                reader.data@ == old(reader).data@,
                u.len() >= reader.rest().len(),
                reader.pos == old(reader).pos + (u.len() - reader.rest().len()),
                spec_video_tracks(c, pt, u, seq![]) == Ok::<(Seq<VideoTrackView>, nat), FlvError>(
                    (video_tracks_view(tracks@), (u.len() - reader.rest().len()) as nat),
                ),
            decreases reader.rest().len(),
        {
            let ghost cur = reader.rest();
            let ghost pos0 = reader.pos;
            let ghost acc = video_tracks_view(tracks@);
            let track = demux_video_track(header, reader)?;
            proof {
                lemma_video_track_takes_bytes(c, pt, cur);
            }
            let ghost used = (reader.pos - pos0) as nat;
            assert(reader.rest() =~= cur.subrange(used as int, cur.len() as int));
            let ghost tv = track@;
            tracks.push(track);
            assert(video_tracks_view(tracks@) =~= acc.push(tv));
            assert(reader.rest() =~= u.subrange(u.len() - reader.rest().len(), u.len() as int));
            let one_track = match header.content {
                ExVideoTagHeaderContent::OneTrack(_) => true,
                _ => false,
            };
            if !one_track && reader.has_remaining() {
                continue;
            }
            break;
        }
        Ok(ExVideoTagBody::ManyTracks(tracks))
    }
}

/// An FLV video tag body, legacy or enhanced.
#[derive(Debug, PartialEq)]
pub enum VideoTagBody {
    /// A legacy body.
    Legacy(LegacyVideoTagBody),
    /// An enhanced body.
    Enhanced(ExVideoTagBody),
}

/// The mathematical value of a [`VideoTagBody`].
pub enum VideoTagBodyView {
    Legacy(LegacyVideoTagBodyView),
    Enhanced(ExVideoTagBodyView),
}

impl View for VideoTagBody {
    type V = VideoTagBodyView;

    open spec fn view(&self) -> VideoTagBodyView {
        match self {
            VideoTagBody::Legacy(b) => VideoTagBodyView::Legacy(b@),
            VideoTagBody::Enhanced(b) => VideoTagBodyView::Enhanced(b@),
        }
    }
}

/// Reads the body of a video tag with header `h`.
pub open spec fn spec_video_tag_body(h: VideoTagHeaderView, s: Seq<u8>) -> Result<
    (VideoTagBodyView, nat),
    FlvError,
> {
    match h.data {
        VideoTagHeaderDataView::Legacy(l) => match spec_legacy_video_body(l, s) {
            Ok((b, n)) => Ok((VideoTagBodyView::Legacy(b), n)),
            Err(e) => Err(FlvError::Io(e)),
        },
        VideoTagHeaderDataView::Enhanced(x) => match spec_ex_video_body(x.content, x.video_packet_type, s) {
            Ok((b, n)) => Ok((VideoTagBodyView::Enhanced(b), n)),
            Err(e) => Err(e),
        },
    }
}

impl VideoTagBody {
    /// Reads the body of a video tag with the given header.
    pub fn demux(header: &VideoTagHeader, reader: &mut ByteCursor) -> (r: Result<Self, FlvError>)
        requires
            old(reader).wf(),
        ensures
            final(reader).wf(),
            final(reader).data@ == old(reader).data@,
            match r {
                Ok(b) => final(reader).pos >= old(reader).pos && spec_video_tag_body(header@, old(reader).rest())
                    == Ok::<(VideoTagBodyView, nat), FlvError>(
                    (b@, (final(reader).pos - old(reader).pos) as nat),
                ),
                Err(e) => spec_video_tag_body(header@, old(reader).rest()) == Err::<
                    (VideoTagBodyView, nat),
                    FlvError,
                >(e),
            },
    {
        match &header.data {
            crate::flv::video_header::VideoTagHeaderData::Legacy(h) => match LegacyVideoTagBody::demux(h, reader) {
                Ok(b) => Ok(VideoTagBody::Legacy(b)),
                Err(e) => Err(FlvError::Io(e)),
            },
            crate::flv::video_header::VideoTagHeaderData::Enhanced(h) => {
                let b = ExVideoTagBody::demux(h, reader)?;
                Ok(VideoTagBody::Enhanced(b))
            },
        }
    }
}

/// The `VIDEODATA` of an FLV video tag: its header and body.
#[derive(Debug, PartialEq)]
pub struct VideoData {
    /// The header.
    pub header: VideoTagHeader,
    /// The body.
    pub body: VideoTagBody,
}

/// The mathematical value of a [`VideoData`].
pub struct VideoDataView {
    pub header: VideoTagHeaderView,
    pub body: VideoTagBodyView,
}

impl View for VideoData {
    type V = VideoDataView;

    open spec fn view(&self) -> VideoDataView {
        VideoDataView { header: self.header@, body: self.body@ }
    }
}

/// Reads the video data of a tag: its header, then the body that the header calls for.
pub open spec fn spec_video_data(s: Seq<u8>) -> Result<(VideoDataView, nat), FlvError> {
    match spec_video_tag_header(s) {
        Err(e) => Err(e),
        Ok((h, n)) => if n > s.len() {
            Err(FlvError::Io(IoError::UnexpectedEof))
        } else {
            match spec_video_tag_body(h, s.subrange(n as int, s.len() as int)) {
                Err(e) => Err(e),
                Ok((b, m)) => Ok((VideoDataView { header: h, body: b }, n + m)),
            }
        },
    }
}

impl VideoData {
    /// Reads the video data of a tag.
    pub fn demux(reader: &mut ByteCursor) -> (r: Result<Self, FlvError>)
        requires
            old(reader).wf(),
        ensures
            final(reader).wf(),
            final(reader).data@ == old(reader).data@,
            match r {
                Ok(d) => final(reader).pos >= old(reader).pos && spec_video_data(old(reader).rest())
                    == Ok::<(VideoDataView, nat), FlvError>(
                    (d@, (final(reader).pos - old(reader).pos) as nat),
                ),
                Err(e) => spec_video_data(old(reader).rest()) == Err::<(VideoDataView, nat), FlvError>(
                    e,
                ),
            },
    {
        let ghost s = reader.rest();
        let header = VideoTagHeader::demux(reader)?;
        let ghost n = (reader.pos - old(reader).pos) as nat;
        assert(reader.rest() =~= s.subrange(n as int, s.len() as int));
        let body = VideoTagBody::demux(&header, reader)?;
        Ok(VideoData { header, body })
    }
}

} // verus!
