//! FLV video tag headers: the legacy header (with its AVC packet header or video command) and
//! the enhanced header with its modifier extensions and multitrack configuration.
use vstd::prelude::*;

use crate::cursor::{be24, ByteCursor};
use crate::error::IoError;
use crate::flv::audio_header::{demux_mod_ex_parts, fourcc_at, spec_mod_ex_parts};
use crate::flv::common::AvMultitrackType;
use crate::flv::error::FlvError;
use crate::flv::video_enums::{
    lemma_video_numbers_kept, AvcPacketType, VideoCodecId, VideoCommand, VideoFourCc, VideoFrameType,
    VideoPacketModExType, VideoPacketType,
};

verus! {

broadcast use vstd::array::group_array_axioms;

/// The AVC packet header of a legacy AVC video tag.
#[derive(Debug, Clone, Copy, PartialEq, Eq, Structural)]
pub enum LegacyVideoTagHeaderAvcPacket {
    /// An AVC sequence header.
    SequenceHeader,
    /// AVC NAL units.
    Nalu {
        /// The composition time: the offset of the presentation time from the decoding time.
        composition_time: u32,
    },
    /// The end of the AVC sequence.
    EndOfSequence,
    /// An unknown AVC packet type.
    Unknown {
        /// The packet type.
        avc_packet_type: AvcPacketType,
        /// The composition time: the offset of the presentation time from the decoding time.
        composition_time: u32,
    },
}

/// Reads an AVC packet header: the packet type and a 24-bit composition time offset.
pub open spec fn spec_avc_packet(s: Seq<u8>) -> Result<(LegacyVideoTagHeaderAvcPacket, nat), IoError> {
    if s.len() < 4 {
        Err(IoError::UnexpectedEof)
    } else {
        let t = AvcPacketType::spec_from(s[0]);
        let cto = be24(s.subrange(1, 4)) as u32;
        Ok(
            (
                match t {
                    AvcPacketType::SeqHdr => LegacyVideoTagHeaderAvcPacket::SequenceHeader,
                    AvcPacketType::Nalu => LegacyVideoTagHeaderAvcPacket::Nalu {
                        composition_time: cto,
                    },
                    AvcPacketType::EndOfSequence => LegacyVideoTagHeaderAvcPacket::EndOfSequence,
                    _ => LegacyVideoTagHeaderAvcPacket::Unknown {
                        avc_packet_type: t,
                        composition_time: cto,
                    },
                },
                4,
            ),
        )
    }
}

impl LegacyVideoTagHeaderAvcPacket {
    /// Reads an AVC packet header.
    pub fn demux(reader: &mut ByteCursor) -> (r: Result<Self, IoError>)
        requires
            old(reader).wf(),
        ensures
            final(reader).wf(),
            final(reader).data@ == old(reader).data@,
            match r {
                Ok(p) => final(reader).pos >= old(reader).pos && spec_avc_packet(old(reader).rest())
                    == Ok::<(LegacyVideoTagHeaderAvcPacket, nat), IoError>(
                    (p, (final(reader).pos - old(reader).pos) as nat),
                ),
                Err(e) => spec_avc_packet(old(reader).rest()) == Err::<
                    (LegacyVideoTagHeaderAvcPacket, nat),
                    IoError,
                >(e),
            },
    {
        let ghost s = reader.rest();
        if reader.remaining() < 4 {
            return Err(IoError::UnexpectedEof);
        }
        let avc_packet_type = AvcPacketType::from(reader.read_u8()?);
        let ghost at1 = reader.rest();
        let composition_time = reader.read_u24_be()?;
        assert(at1.subrange(0, 3) =~= s.subrange(1, 4));
        match avc_packet_type {
            AvcPacketType::SeqHdr => Ok(LegacyVideoTagHeaderAvcPacket::SequenceHeader),
            AvcPacketType::Nalu => Ok(LegacyVideoTagHeaderAvcPacket::Nalu { composition_time }),
            AvcPacketType::EndOfSequence => Ok(LegacyVideoTagHeaderAvcPacket::EndOfSequence),
            _ => Ok(LegacyVideoTagHeaderAvcPacket::Unknown { avc_packet_type, composition_time }),
        }
    }
}

/// The legacy FLV video tag header.
#[derive(Debug, Clone, Copy, PartialEq, Eq, Structural)]
pub enum LegacyVideoTagHeader {
    /// A video command.
    VideoCommand(VideoCommand),
    /// An AVC packet.
    AvcPacket(LegacyVideoTagHeaderAvcPacket),
    /// Video of another codec.
    Other {
        /// The codec.
        video_codec_id: VideoCodecId,
    },
}

/// Reads a legacy video header: the frame type (high four bits) and codec (low four bits) of
/// the first byte, then the AVC packet header for AVC, or a command byte for a command frame.
pub open spec fn spec_legacy_video_header(s: Seq<u8>) -> Result<(LegacyVideoTagHeader, nat), IoError> {
    if s.len() < 1 {
        Err(IoError::UnexpectedEof)
    } else {
        let ft = VideoFrameType::spec_from(s[0] / 16);
        let codec = VideoCodecId::spec_from(s[0] % 16);
        let t = s.subrange(1, s.len() as int);
        if codec == VideoCodecId::Avc {
            match spec_avc_packet(t) {
                Ok((p, n)) => Ok((LegacyVideoTagHeader::AvcPacket(p), 1 + n)),
                Err(e) => Err(e),
            }
        } else if ft == VideoFrameType::Command {
            if t.len() < 1 {
                Err(IoError::UnexpectedEof)
            } else {
                Ok((LegacyVideoTagHeader::VideoCommand(VideoCommand::spec_from(t[0])), 2))
            }
        } else {
            Ok((LegacyVideoTagHeader::Other { video_codec_id: codec }, 1))
        }
    }
}

impl LegacyVideoTagHeader {
    /// Reads a legacy video header.
    pub fn demux(reader: &mut ByteCursor) -> (r: Result<Self, IoError>)
        requires
            old(reader).wf(),
        ensures
            final(reader).wf(),
            final(reader).data@ == old(reader).data@,
            match r {
                Ok(h) => final(reader).pos >= old(reader).pos && spec_legacy_video_header(old(reader).rest())
                    == Ok::<(LegacyVideoTagHeader, nat), IoError>(
                    (h, (final(reader).pos - old(reader).pos) as nat),
                ),
                Err(e) => spec_legacy_video_header(old(reader).rest()) == Err::<
                    (LegacyVideoTagHeader, nat),
                    IoError,
                >(e),
            },
    {
        let ghost s = reader.rest();
        let first_byte = reader.read_u8()?;
        assert(first_byte >> 4 == first_byte / 16) by (bit_vector);
        assert(first_byte & 0b0000_1111 == first_byte % 16) by (bit_vector);
        let frame_type = VideoFrameType::from(first_byte >> 4);
        let video_codec_id = VideoCodecId::from(first_byte & 0b0000_1111);
        assert(reader.rest() =~= s.subrange(1, s.len() as int));
        if video_codec_id == VideoCodecId::Avc {
            let avc_packet = LegacyVideoTagHeaderAvcPacket::demux(reader)?;
            return Ok(LegacyVideoTagHeader::AvcPacket(avc_packet));
        }
        if frame_type == VideoFrameType::Command {
            let c = reader.read_u8()?;
            return Ok(LegacyVideoTagHeader::VideoCommand(VideoCommand::from(c)));
        }
        Ok(LegacyVideoTagHeader::Other { video_codec_id })
    }
}

/// A modifier extension of an enhanced video packet.
#[derive(Debug, Clone, PartialEq, Eq)]
pub enum VideoPacketModEx {
    /// A timestamp offset in nanoseconds.
    TimestampOffsetNano {
        /// The offset, from the first three data bytes.
        video_timestamp_nano_offset: u32,
    },
    /// Any other modifier extension.
    Other {
        /// Its type.
        video_packet_mod_ex_type: VideoPacketModExType,
        /// Its data.
        mod_ex_data: Vec<u8>,
    },
}

/// The mathematical value of a [`VideoPacketModEx`].
pub enum VideoPacketModExView {
    TimestampOffsetNano { video_timestamp_nano_offset: u32 },
    Other { video_packet_mod_ex_type: VideoPacketModExType, mod_ex_data: Seq<u8> },
}

impl View for VideoPacketModEx {
    type V = VideoPacketModExView;

    open spec fn view(&self) -> VideoPacketModExView {
        match self {
            VideoPacketModEx::TimestampOffsetNano { video_timestamp_nano_offset } =>
                VideoPacketModExView::TimestampOffsetNano {
                video_timestamp_nano_offset: *video_timestamp_nano_offset,
            },
            VideoPacketModEx::Other { video_packet_mod_ex_type, mod_ex_data } =>
                VideoPacketModExView::Other {
                video_packet_mod_ex_type: *video_packet_mod_ex_type,
                mod_ex_data: mod_ex_data@,
            },
        }
    }
}

/// Reads a video modifier extension and the packet type that follows it; a timestamp offset
/// needs three data bytes.
pub open spec fn spec_video_mod_ex(s: Seq<u8>) -> Result<
    ((VideoPacketModExView, VideoPacketType), nat),
    FlvError,
> {
    match spec_mod_ex_parts(s) {
        Err(e) => Err(e),
        Ok((data, b, n)) => {
            let t = VideoPacketModExType::spec_from(b / 16);
            let next = VideoPacketType::spec_from(b % 16);
            if t == VideoPacketModExType::TimestampOffsetNano {
                if data.len() < 3 {
                    Err(FlvError::InvalidModExData { expected_bytes: 3 })
                } else {
                    Ok(
                        (
                            (
                                VideoPacketModExView::TimestampOffsetNano {
                                    video_timestamp_nano_offset: be24(data) as u32,
                                },
                                next,
                            ),
                            n,
                        ),
                    )
                }
            } else {
                Ok(
                    (
                        (
                            VideoPacketModExView::Other {
                                video_packet_mod_ex_type: t,
                                mod_ex_data: data,
                            },
                            next,
                        ),
                        n,
                    ),
                )
            }
        },
    }
}

impl VideoPacketModEx {
    /// Reads a modifier extension; gives it and the packet type that follows.
    pub fn demux(reader: &mut ByteCursor) -> (r: Result<(Self, VideoPacketType), FlvError>)
        requires
            old(reader).wf(),
        ensures
            final(reader).wf(),
            final(reader).data@ == old(reader).data@,
            match r {
                Ok((m, t)) => final(reader).pos >= old(reader).pos && spec_video_mod_ex(
                    old(reader).rest(),
                ) == Ok::<((VideoPacketModExView, VideoPacketType), nat), FlvError>(
                    ((m@, t), (final(reader).pos - old(reader).pos) as nat),
                ),
                Err(e) => spec_video_mod_ex(old(reader).rest()) == Err::<
                    ((VideoPacketModExView, VideoPacketType), nat),
                    FlvError,
                >(e),
            },
    {
        let (data, next_byte) = demux_mod_ex_parts(reader)?;
        assert(next_byte >> 4 == next_byte / 16) by (bit_vector);
        assert(next_byte & 0b0000_1111 == next_byte % 16) by (bit_vector);
        let mod_ex_type = VideoPacketModExType::from(next_byte >> 4);
        let packet_type = VideoPacketType::from(next_byte & 0b0000_1111);
        if mod_ex_type == VideoPacketModExType::TimestampOffsetNano {
            if data.len() < 3 {
                return Err(FlvError::InvalidModExData { expected_bytes: 3 });
            }
            let mut inner = ByteCursor::new(data);
            let offset = match inner.read_u24_be() {
                Ok(v) => v,
                Err(e) => return Err(FlvError::Io(e)),
            };
            Ok((VideoPacketModEx::TimestampOffsetNano { video_timestamp_nano_offset: offset }, packet_type))
        } else {
            Ok(
                (
                    VideoPacketModEx::Other { video_packet_mod_ex_type: mod_ex_type, mod_ex_data: data },
                    packet_type,
                ),
            )
        }
    }
}

/// The command or multitrack configuration of an enhanced video header.
#[derive(Debug, Clone, Copy, PartialEq, Eq)]
pub enum ExVideoTagHeaderContent {
    /// A video command.
    VideoCommand(VideoCommand),
    /// Not multitrack.
    NoMultiTrack(VideoFourCc),
    /// Multitrack with one track.
    OneTrack(VideoFourCc),
    /// Multitrack with many tracks of one codec.
    ManyTracks(VideoFourCc),
    /// Multitrack with many tracks of different codecs.
    ManyTracksManyCodecs,
    /// An unknown multitrack type.
    Unknown {
        /// The multitrack type.
        video_multitrack_type: AvMultitrackType,
        /// The FOURCC that followed it.
        video_four_cc: VideoFourCc,
    },
}

/// The enhanced video tag header.
#[derive(Debug, Clone, PartialEq, Eq)]
pub struct ExVideoTagHeader {
    /// The modifier extensions, in order; empty when there are none.
    pub video_packet_mod_exs: Vec<VideoPacketModEx>,
    /// The packet type.
    pub video_packet_type: VideoPacketType,
    /// The command or multitrack configuration.
    pub content: ExVideoTagHeaderContent,
}

/// The mathematical value of an [`ExVideoTagHeader`].
pub struct ExVideoTagHeaderView {
    pub video_packet_mod_exs: Seq<VideoPacketModExView>,
    pub video_packet_type: VideoPacketType,
    pub content: ExVideoTagHeaderContent,
}

/// The views of modifier extensions.
pub open spec fn video_mod_exs_view(v: Seq<VideoPacketModEx>) -> Seq<VideoPacketModExView> {
    v.map_values(|m: VideoPacketModEx| m@)
}

impl View for ExVideoTagHeader {
    type V = ExVideoTagHeaderView;

    open spec fn view(&self) -> ExVideoTagHeaderView {
        ExVideoTagHeaderView {
            video_packet_mod_exs: video_mod_exs_view(self.video_packet_mod_exs@),
            video_packet_type: self.video_packet_type,
            content: self.content,
        }
    }
}

/// Reads modifier extensions after `acc` while the packet type `pt` is `ModEx`; gives them, the
/// final packet type and the bytes they take.
pub open spec fn spec_video_mod_exs(s: Seq<u8>, acc: Seq<VideoPacketModExView>, pt: VideoPacketType) -> Result<
    (Seq<VideoPacketModExView>, VideoPacketType, nat),
    FlvError,
>
    decreases s.len(),
{
    if pt != VideoPacketType::ModEx {
        Ok((acc, pt, 0))
    } else {
        match spec_video_mod_ex(s) {
            Err(e) => Err(e),
            Ok(((m, next), n)) => if n < 1 || n > s.len() {
                Err(FlvError::Io(IoError::UnexpectedEof))
            } else {
                match spec_video_mod_exs(s.subrange(n as int, s.len() as int), acc.push(m), next) {
                    Ok((ms, t, k)) => Ok((ms, t, n + k)),
                    Err(e) => Err(e),
                }
            },
        }
    }
}

/// Reads the multitrack part of an enhanced video header: the multitrack type (high four
/// bits) and packet type (low four bits) of one byte, then a FOURCC unless the tracks have many
/// codecs.
pub open spec fn spec_video_multitrack(t: Seq<u8>) -> Result<
    (VideoPacketType, ExVideoTagHeaderContent, nat),
    FlvError,
> {
    if t.len() < 1 {
        Err(FlvError::Io(IoError::UnexpectedEof))
    } else {
        let mt = AvMultitrackType::spec_from(t[0] / 16);
        let pt = VideoPacketType::spec_from(t[0] % 16);
        if pt == VideoPacketType::Multitrack {
            Err(FlvError::NestedMultitracks)
        } else if mt == AvMultitrackType::ManyTracksManyCodecs {
            Ok((pt, ExVideoTagHeaderContent::ManyTracksManyCodecs, 1))
        } else if t.len() < 5 {
            Err(FlvError::Io(IoError::UnexpectedEof))
        } else {
            let cc = VideoFourCc::spec_from(fourcc_at(t.subrange(1, 5)));
            let content = match mt {
                AvMultitrackType::OneTrack => ExVideoTagHeaderContent::OneTrack(cc),
                AvMultitrackType::ManyTracks => ExVideoTagHeaderContent::ManyTracks(cc),
                _ => ExVideoTagHeaderContent::Unknown { video_multitrack_type: mt, video_four_cc: cc },
            };
            Ok((pt, content, 5))
        }
    }
}

/// Reads the part of an enhanced video header after its modifier extensions: a command byte
/// for a command frame (unless the packet is metadata), the multitrack part, or a FOURCC.
pub open spec fn spec_video_content(t: Seq<u8>, ft: VideoFrameType, pt: VideoPacketType) -> Result<
    (VideoPacketType, ExVideoTagHeaderContent, nat),
    FlvError,
> {
    if pt != VideoPacketType::Metadata && ft == VideoFrameType::Command {
        if t.len() < 1 {
            Err(FlvError::Io(IoError::UnexpectedEof))
        } else {
            Ok((pt, ExVideoTagHeaderContent::VideoCommand(VideoCommand::spec_from(t[0])), 1))
        }
    } else if pt == VideoPacketType::Multitrack {
        spec_video_multitrack(t)
    } else if t.len() < 4 {
        Err(FlvError::Io(IoError::UnexpectedEof))
    } else {
        Ok((pt, ExVideoTagHeaderContent::NoMultiTrack(VideoFourCc::spec_from(fourcc_at(t))), 4))
    }
}

/// Reads an enhanced video header: the frame type (bits 4 to 6) and packet type (low four
/// bits) of the first byte, the modifier extensions, then the rest.
pub open spec fn spec_ex_video_header(s: Seq<u8>) -> Result<(ExVideoTagHeaderView, nat), FlvError> {
    if s.len() < 1 {
        Err(FlvError::Io(IoError::UnexpectedEof))
    } else {
        let ft = VideoFrameType::spec_from((s[0] / 16) % 8);
        match spec_video_mod_exs(s.subrange(1, s.len() as int), seq![], VideoPacketType::spec_from(s[0] % 16)) {
            Err(e) => Err(e),
            Ok((mods, pt, n)) => match spec_video_content(s.subrange((1 + n) as int, s.len() as int), ft, pt) {
                Err(e) => Err(e),
                Ok((pt2, content, k)) => Ok(
                    (
                        ExVideoTagHeaderView {
                            video_packet_mod_exs: mods,
                            video_packet_type: pt2,
                            content,
                        },
                        1 + n + k,
                    ),
                ),
            },
        }
    }
}

/// A result of reading modifier extensions with `c` more bytes taken.
pub open spec fn shifted_video_mods(r: Result<(Seq<VideoPacketModExView>, VideoPacketType, nat), FlvError>, c: nat) -> Result<
    (Seq<VideoPacketModExView>, VideoPacketType, nat),
    FlvError,
> {
    match r {
        Ok((ms, t, n)) => Ok((ms, t, n + c)),
        Err(e) => Err(e),
    }
}

/// Reads the part of an enhanced video header after its modifier extensions.
fn demux_video_content(reader: &mut ByteCursor, ft: VideoFrameType, pt: VideoPacketType) -> (r: Result<(VideoPacketType, ExVideoTagHeaderContent), FlvError>)
    requires
        old(reader).wf(),
    ensures
        final(reader).wf(),
        final(reader).data@ == old(reader).data@,
        match r {
            Ok((p, c)) => final(reader).pos >= old(reader).pos && spec_video_content(
                old(reader).rest(),
                ft,
                pt,
            ) == Ok::<(VideoPacketType, ExVideoTagHeaderContent, nat), FlvError>(
                (p, c, (final(reader).pos - old(reader).pos) as nat),
            ),
            Err(e) => spec_video_content(old(reader).rest(), ft, pt) == Err::<
                (VideoPacketType, ExVideoTagHeaderContent, nat),
                FlvError,
            >(e),
        },
{
    let ghost t = reader.rest();
    if pt != VideoPacketType::Metadata && ft == VideoFrameType::Command {
        let c = match reader.read_u8() {
            Ok(b) => b,
            Err(e) => return Err(FlvError::Io(e)),
        };
        return Ok((pt, ExVideoTagHeaderContent::VideoCommand(VideoCommand::from(c))));
    }
    if pt == VideoPacketType::Multitrack {
        let byte = match reader.read_u8() {
            Ok(b) => b,
            Err(e) => return Err(FlvError::Io(e)),
        };
        assert(byte >> 4 == byte / 16) by (bit_vector);
        assert(byte & 0b0000_1111 == byte % 16) by (bit_vector);
        let mt = AvMultitrackType::from(byte >> 4);
        let pt2 = VideoPacketType::from(byte & 0b0000_1111);
        if pt2 == VideoPacketType::Multitrack {
            return Err(FlvError::NestedMultitracks);
        }
        if mt == AvMultitrackType::ManyTracksManyCodecs {
            return Ok((pt2, ExVideoTagHeaderContent::ManyTracksManyCodecs));
        }
        let raw = match reader.read_array4() {
            Ok(a) => a,
            Err(e) => return Err(FlvError::Io(e)),
        };
        assert(raw@ =~= fourcc_at(t.subrange(1, 5))@);
        assert(raw == fourcc_at(t.subrange(1, 5)));
        let cc = VideoFourCc::from(raw);
        let content = match mt {
            AvMultitrackType::OneTrack => ExVideoTagHeaderContent::OneTrack(cc),
            AvMultitrackType::ManyTracks => ExVideoTagHeaderContent::ManyTracks(cc),
            _ => ExVideoTagHeaderContent::Unknown { video_multitrack_type: mt, video_four_cc: cc },
        };
        return Ok((pt2, content));
    }
    let raw = match reader.read_array4() {
        Ok(a) => a,
        Err(e) => return Err(FlvError::Io(e)),
    };
    assert(raw@ =~= fourcc_at(t)@);
    assert(raw == fourcc_at(t));
    Ok((pt, ExVideoTagHeaderContent::NoMultiTrack(VideoFourCc::from(raw))))
}

impl ExVideoTagHeader {
    /// Reads an enhanced video header.
    pub fn demux(reader: &mut ByteCursor) -> (r: Result<Self, FlvError>)
        requires
            old(reader).wf(),
        ensures
            final(reader).wf(),
            final(reader).data@ == old(reader).data@,
            match r {
                Ok(h) => final(reader).pos >= old(reader).pos && spec_ex_video_header(old(reader).rest())
                    == Ok::<(ExVideoTagHeaderView, nat), FlvError>(
                    (h@, (final(reader).pos - old(reader).pos) as nat),
                ),
                Err(e) => spec_ex_video_header(old(reader).rest()) == Err::<
                    (ExVideoTagHeaderView, nat),
                    FlvError,
                >(e),
            },
    {
        let ghost s = reader.rest();
        let first = match reader.read_u8() {
            Ok(b) => b,
            Err(e) => return Err(FlvError::Io(e)),
        };
        assert((first & 0b0111_0000) >> 4 == (first / 16) % 8) by (bit_vector);
        assert(first & 0b0000_1111 == first % 16) by (bit_vector);
        let frame_type = VideoFrameType::from((first & 0b0111_0000) >> 4);
        let mut packet_type = VideoPacketType::from(first & 0b0000_1111);
        let ghost u = reader.rest();
        assert(u =~= s.subrange(1, s.len() as int));
        let mut mod_exs: Vec<VideoPacketModEx> = Vec::new();
        assert(video_mod_exs_view(mod_exs@) =~= Seq::<VideoPacketModExView>::empty());
        while packet_type == VideoPacketType::ModEx
            invariant
                reader.wf(),
                reader.data@ == old(reader).data@,
                u.len() >= reader.rest().len(),
                reader.rest() == u.subrange(u.len() - reader.rest().len(), u.len() as int),
                u == s.subrange(1, s.len() as int),
                s == old(reader).rest(),
                s.len() >= 1,
                s[0] == first,
                reader.pos == old(reader).pos + 1 + (u.len() - reader.rest().len()),
                spec_video_mod_exs(u, seq![], VideoPacketType::spec_from(first % 16)) == shifted_video_mods(
                    spec_video_mod_exs(reader.rest(), video_mod_exs_view(mod_exs@), packet_type),
                    (u.len() - reader.rest().len()) as nat,
                ),
            decreases reader.rest().len(),
        {
            let ghost cur = reader.rest();
            let ghost pos0 = reader.pos;
            let ghost acc = video_mod_exs_view(mod_exs@);
            let (mod_ex, next) = match VideoPacketModEx::demux(reader) {
                Ok(x) => x,
                Err(e) => {
                    assert(spec_video_mod_exs(cur, acc, packet_type) == Err::<
                        (Seq<VideoPacketModExView>, VideoPacketType, nat),
                        FlvError,
                    >(e));
                    assert(spec_video_mod_exs(u, seq![], VideoPacketType::spec_from(first % 16)) == Err::<
                        (Seq<VideoPacketModExView>, VideoPacketType, nat),
                        FlvError,
                    >(e));
                    return Err(e);
                },
            };
            let ghost n = (reader.pos - pos0) as nat;
            assert(reader.rest() =~= cur.subrange(n as int, cur.len() as int));
            assert(spec_video_mod_exs(cur, acc, packet_type) == shifted_video_mods(
                spec_video_mod_exs(reader.rest(), acc.push(mod_ex@), next),
                n,
            ));
            mod_exs.push(mod_ex);
            assert(video_mod_exs_view(mod_exs@) =~= acc.push(mod_ex@));
            assert(reader.rest() =~= u.subrange(u.len() - reader.rest().len(), u.len() as int));
            packet_type = next;
        }
        let ghost n = (u.len() - reader.rest().len()) as nat;
        assert(reader.rest() =~= s.subrange((1 + n) as int, s.len() as int));
        let (pt, content) = demux_video_content(reader, frame_type, packet_type)?;
        Ok(ExVideoTagHeader { video_packet_mod_exs: mod_exs, video_packet_type: pt, content })
    }
}

/// The legacy or enhanced part of a video tag header.
#[derive(Debug, Clone, PartialEq, Eq)]
pub enum VideoTagHeaderData {
    /// A legacy header.
    Legacy(LegacyVideoTagHeader),
    /// An enhanced header.
    Enhanced(ExVideoTagHeader),
}

/// The mathematical value of a [`VideoTagHeaderData`].
pub enum VideoTagHeaderDataView {
    Legacy(LegacyVideoTagHeader),
    Enhanced(ExVideoTagHeaderView),
}

impl View for VideoTagHeaderData {
    type V = VideoTagHeaderDataView;

    open spec fn view(&self) -> VideoTagHeaderDataView {
        match self {
            VideoTagHeaderData::Legacy(h) => VideoTagHeaderDataView::Legacy(*h),
            VideoTagHeaderData::Enhanced(h) => VideoTagHeaderDataView::Enhanced(h@),
        }
    }
}

/// An FLV video tag header.
#[derive(Debug, Clone, PartialEq, Eq)]
pub struct VideoTagHeader {
    /// The frame type (bits 4 to 6 of the first byte).
    pub frame_type: VideoFrameType,
    /// The legacy or enhanced header.
    pub data: VideoTagHeaderData,
}

/// The mathematical value of a [`VideoTagHeader`].
pub struct VideoTagHeaderView {
    pub frame_type: VideoFrameType,
    pub data: VideoTagHeaderDataView,
}

impl View for VideoTagHeader {
    type V = VideoTagHeaderView;

    open spec fn view(&self) -> VideoTagHeaderView {
        VideoTagHeaderView { frame_type: self.frame_type, data: self.data@ }
    }
}

/// Reads a video tag header: enhanced when the high bit of the first byte is set, else
/// legacy; the frame type is bits 4 to 6 of the first byte.
pub open spec fn spec_video_tag_header(s: Seq<u8>) -> Result<(VideoTagHeaderView, nat), FlvError> {
    if s.len() < 1 {
        Err(FlvError::Io(IoError::UnexpectedEof))
    } else {
        let ft = VideoFrameType::spec_from((s[0] / 16) % 8);
        if s[0] / 128 == 0 {
            match spec_legacy_video_header(s) {
                Ok((h, n)) => Ok(
                    (VideoTagHeaderView { frame_type: ft, data: VideoTagHeaderDataView::Legacy(h) }, n),
                ),
                Err(e) => Err(FlvError::Io(e)),
            }
        } else {
            match spec_ex_video_header(s) {
                Ok((h, n)) => Ok(
                    (VideoTagHeaderView { frame_type: ft, data: VideoTagHeaderDataView::Enhanced(h) }, n),
                ),
                Err(e) => Err(e),
            }
        }
    }
}

impl VideoTagHeader {
    /// Reads a video tag header.
    pub fn demux(reader: &mut ByteCursor) -> (r: Result<Self, FlvError>)
        requires
            old(reader).wf(),
        ensures
            final(reader).wf(),
            final(reader).data@ == old(reader).data@,
            match r {
                Ok(h) => final(reader).pos >= old(reader).pos && spec_video_tag_header(old(reader).rest())
                    == Ok::<(VideoTagHeaderView, nat), FlvError>(
                    (h@, (final(reader).pos - old(reader).pos) as nat),
                ),
                Err(e) => spec_video_tag_header(old(reader).rest()) == Err::<
                    (VideoTagHeaderView, nat),
                    FlvError,
                >(e),
            },
    {
        let byte = match reader.peek_u8() {
            Ok(b) => b,
            Err(e) => return Err(FlvError::Io(e)),
        };
        assert((byte & 0b1000_0000 != 0) == (byte / 128 != 0)) by (bit_vector);
        assert((byte & 0b0111_0000) >> 4 == (byte / 16) % 8) by (bit_vector);
        let is_ex_video_header = (byte & 0b1000_0000) != 0;
        let data = if !is_ex_video_header {
            match LegacyVideoTagHeader::demux(reader) {
                Ok(h) => VideoTagHeaderData::Legacy(h),
                Err(e) => return Err(FlvError::Io(e)),
            }
        } else {
            VideoTagHeaderData::Enhanced(ExVideoTagHeader::demux(reader)?)
        };
        Ok(VideoTagHeader { frame_type: VideoFrameType::from((byte & 0b0111_0000) >> 4), data })
    }
}

/// What a video tag header holds, said of its bytes. The high bit of the first byte tells an
/// enhanced header from a legacy one and bits 4 to 6 give the frame type. In a legacy header
/// the low four bits give the codec: for AVC (7) the next byte is the AVC packet type (0 for a
/// sequence header, 1 for NAL units, 2 for the end of a sequence) and the three after it the
/// unsigned big-endian composition time; for a command frame (5) of another codec the next
/// byte is the command. In an enhanced header without modifier extensions or multiple tracks
/// the low four bits give the packet type, and the four bytes after it the FOURCC, or, for a
/// command frame that does not carry metadata, the one byte after it the command.
pub proof fn lemma_video_tag_header_from_bytes(s: Seq<u8>)
    ensures
        spec_video_tag_header(s) is Ok ==> s.len() >= 1 && spec_video_tag_header(s)->Ok_0.0.frame_type.spec_value()
            == (s[0] % 128) / 16 && (spec_video_tag_header(s)->Ok_0.0.data is Legacy <==> s[0] < 128),
        s.len() >= 1 && s[0] < 128 && s[0] % 16 == 7 ==> (spec_video_tag_header(s) is Ok <==> s.len() >= 5),
        s.len() >= 5 && s[0] < 128 && s[0] % 16 == 7 && s[1] == 0 ==> spec_video_tag_header(s)->Ok_0.1 == 5
            && spec_video_tag_header(s)->Ok_0.0.data == VideoTagHeaderDataView::Legacy(
            LegacyVideoTagHeader::AvcPacket(LegacyVideoTagHeaderAvcPacket::SequenceHeader),
        ),
        s.len() >= 5 && s[0] < 128 && s[0] % 16 == 7 && s[1] == 2 ==> spec_video_tag_header(s)->Ok_0.1 == 5
            && spec_video_tag_header(s)->Ok_0.0.data == VideoTagHeaderDataView::Legacy(
            LegacyVideoTagHeader::AvcPacket(LegacyVideoTagHeaderAvcPacket::EndOfSequence),
        ),
        s.len() >= 5 && s[0] < 128 && s[0] % 16 == 7 && s[1] == 1 ==> spec_video_tag_header(s)->Ok_0.1 == 5
            && (spec_video_tag_header(s)->Ok_0.0.data matches VideoTagHeaderDataView::Legacy(
            LegacyVideoTagHeader::AvcPacket(LegacyVideoTagHeaderAvcPacket::Nalu { composition_time }),
        ) && composition_time == s[2] as int * 65536 + s[3] as int * 256 + s[4] as int),
        s.len() >= 2 && s[0] < 128 && s[0] % 16 != 7 && s[0] / 16 == 5 ==> spec_video_tag_header(s)->Ok_0.1 == 2
            && (spec_video_tag_header(s)->Ok_0.0.data matches VideoTagHeaderDataView::Legacy(
            LegacyVideoTagHeader::VideoCommand(c),
        ) && c.spec_value() == s[1]),
        s.len() >= 1 && s[0] < 128 && s[0] % 16 != 7 && s[0] / 16 != 5 ==> spec_video_tag_header(s)->Ok_0.1 == 1
            && (spec_video_tag_header(s)->Ok_0.0.data matches VideoTagHeaderDataView::Legacy(
            LegacyVideoTagHeader::Other { video_codec_id },
        ) && video_codec_id.spec_value() == s[0] % 16),
        s.len() >= 5 && s[0] >= 128 && s[0] % 16 < 6 && ((s[0] / 16) % 8 != 5 || s[0] % 16 == 4)
            ==> spec_video_tag_header(s)->Ok_0.1 == 5 && (spec_video_tag_header(s)->Ok_0.0.data matches VideoTagHeaderDataView::Enhanced(h)
            && h.video_packet_mod_exs.len() == 0 && h.video_packet_type.spec_value() == s[0] % 16 && (
        h.content matches ExVideoTagHeaderContent::NoMultiTrack(cc) && cc.spec_value() == [s[1], s[2], s[3], s[4]])),
        s.len() >= 2 && s[0] >= 128 && s[0] % 16 < 6 && s[0] % 16 != 4 && (s[0] / 16) % 8 == 5
            ==> spec_video_tag_header(s)->Ok_0.1 == 2 && (spec_video_tag_header(s)->Ok_0.0.data matches VideoTagHeaderDataView::Enhanced(h)
            && h.video_packet_mod_exs.len() == 0 && h.video_packet_type.spec_value() == s[0] % 16 && (
        h.content matches ExVideoTagHeaderContent::VideoCommand(c) && c.spec_value() == s[1])),
{
    if s.len() >= 1 {
        lemma_video_numbers_kept((s[0] / 16) % 8, [0u8, 0u8, 0u8, 0u8]);
        lemma_video_numbers_kept(s[0] % 16, [0u8, 0u8, 0u8, 0u8]);
        assert((s[0] / 16) % 8 == (s[0] % 128) / 16);
        if s[0] < 128 {
            assert(s[0] / 16 == (s[0] / 16) % 8);
        }
    }
    if s.len() >= 2 {
        lemma_video_numbers_kept(s[1], [0u8, 0u8, 0u8, 0u8]);
    }
    if s.len() >= 5 {
        let t = s.subrange(1, s.len() as int);
        assert(t.subrange(1, 4)[0] == s[2] && t.subrange(1, 4)[1] == s[3] && t.subrange(1, 4)[2] == s[4]);
        lemma_video_numbers_kept(s[0] % 16, [s[1], s[2], s[3], s[4]]);
        assert(fourcc_at(t) =~= [s[1], s[2], s[3], s[4]]);
        assert(t.subrange(0, t.len() as int) =~= t);
    }
    if s.len() >= 1 {
        assert(s.subrange(1, s.len() as int).subrange(0, s.len() - 1) =~= s.subrange(1, s.len() as int));
    }
}

} // verus!
