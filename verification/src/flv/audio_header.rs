//! FLV audio tag headers: the legacy one-byte header, and the enhanced header with its modifier
//! extensions and multitrack configuration.
use vstd::prelude::*;

use crate::cursor::{be16, be24, ByteCursor};
use crate::error::IoError;
use crate::flv::audio_enums::{
    lemma_audio_numbers_kept,
    AudioFourCc, AudioPacketModExType, AudioPacketType, SoundFormat, SoundRate, SoundSize, SoundType,
};
use crate::flv::common::AvMultitrackType;
use crate::flv::error::FlvError;

verus! {

broadcast use vstd::array::group_array_axioms;

/// The four bytes at the front of `s` as an array.
pub open spec fn fourcc_at(s: Seq<u8>) -> [u8; 4] {
    [s[0], s[1], s[2], s[3]]
}

/// The legacy FLV audio tag header: one byte.
#[derive(Debug, Clone, Copy, PartialEq, Eq, Structural)]
pub struct LegacyAudioTagHeader {
    /// The sound format (high four bits).
    pub sound_format: SoundFormat,
    /// The sound rate (next two bits).
    pub sound_rate: SoundRate,
    /// The sound size (next bit).
    pub sound_size: SoundSize,
    /// The sound type (low bit).
    pub sound_type: SoundType,
}

/// The header that the byte `b` holds.
pub open spec fn legacy_audio_header_of(b: u8) -> LegacyAudioTagHeader {
    LegacyAudioTagHeader {
        sound_format: SoundFormat::spec_from(b / 16),
        sound_rate: SoundRate::spec_from((b / 4) % 4),
        sound_size: SoundSize::spec_from((b / 2) % 2),
        sound_type: SoundType::spec_from(b % 2),
    }
}

impl LegacyAudioTagHeader {
    /// Reads the header byte.
    pub fn demux(reader: &mut ByteCursor) -> (r: Result<Self, FlvError>)
        requires
            old(reader).wf(),
        ensures
            match r {
                Ok(h) => old(reader).rest().len() >= 1 && h == legacy_audio_header_of(
                    old(reader).rest()[0],
                ) && final(reader).advanced(old(reader), 1),
                Err(e) => e == FlvError::Io(IoError::UnexpectedEof) && old(reader).rest().len() < 1
                    && *final(reader) == *old(reader),
            },
    {
        let byte = match reader.read_u8() {
            Ok(b) => b,
            Err(e) => return Err(FlvError::Io(e)),
        };
        assert(byte >> 4 == byte / 16) by (bit_vector);
        assert((byte & 0b0000_1100) >> 2 == (byte / 4) % 4) by (bit_vector);
        assert((byte & 0b0000_0010) >> 1 == (byte / 2) % 2) by (bit_vector);
        assert(byte & 0b0000_0001 == byte % 2) by (bit_vector);
        Ok(
            LegacyAudioTagHeader {
                sound_format: SoundFormat::from(byte >> 4),
                sound_rate: SoundRate::from((byte & 0b0000_1100) >> 2),
                sound_size: SoundSize::from((byte & 0b0000_0010) >> 1),
                sound_type: SoundType::from(byte & 0b0000_0001),
            },
        )
    }
}

/// A modifier extension of an enhanced audio packet.
#[derive(Debug, Clone, PartialEq, Eq)]
pub enum AudioPacketModEx {
    /// A timestamp offset in nanoseconds.
    TimestampOffsetNano {
        /// The offset, from the first three data bytes.
        audio_timestamp_nano_offset: u32,
    },
    /// Any other modifier extension.
    Other {
        /// Its type.
        audio_packet_mod_ex_type: AudioPacketModExType,
        /// Its data.
        mod_ex_data: Vec<u8>,
    },
}

/// The mathematical value of an [`AudioPacketModEx`].
pub enum AudioPacketModExView {
    TimestampOffsetNano { audio_timestamp_nano_offset: u32 },
    Other { audio_packet_mod_ex_type: AudioPacketModExType, mod_ex_data: Seq<u8> },
}

impl View for AudioPacketModEx {
    type V = AudioPacketModExView;

    open spec fn view(&self) -> AudioPacketModExView {
        match self {
            AudioPacketModEx::TimestampOffsetNano { audio_timestamp_nano_offset } =>
                AudioPacketModExView::TimestampOffsetNano {
                audio_timestamp_nano_offset: *audio_timestamp_nano_offset,
            },
            AudioPacketModEx::Other { audio_packet_mod_ex_type, mod_ex_data } =>
                AudioPacketModExView::Other {
                audio_packet_mod_ex_type: *audio_packet_mod_ex_type,
                mod_ex_data: mod_ex_data@,
            },
        }
    }
}

/// The size of a modifier extension's data and the bytes its size field takes: one byte
/// holding the size less one, or, when that byte is 255, a 16-bit size less one after it.
pub open spec fn spec_mod_ex_size(s: Seq<u8>) -> Result<(nat, nat), FlvError> {
    if s.len() < 1 {
        Err(FlvError::Io(IoError::UnexpectedEof))
    } else if s[0] == 255 {
        if s.len() < 3 {
            Err(FlvError::Io(IoError::UnexpectedEof))
        } else {
            Ok((be16(s.subrange(1, 3)) + 1, 3))
        }
    } else {
        Ok(((s[0] + 1) as nat, 1))
    }
}

/// Reads a modifier extension: its size, data and the byte that holds its type (high four
/// bits) and the next packet type (low four bits). A timestamp offset needs three data bytes.
pub open spec fn spec_mod_ex_parts(s: Seq<u8>) -> Result<(Seq<u8>, u8, nat), FlvError> {
    match spec_mod_ex_size(s) {
        Err(e) => Err(e),
        Ok((size, p)) => if s.len() < p + size {
            Err(FlvError::Io(IoError::UnexpectedEof))
        } else if s.len() < p + size + 1 {
            Err(FlvError::Io(IoError::UnexpectedEof))
        } else {
            Ok((s.subrange(p as int, (p + size) as int), s[(p + size) as int], p + size + 1))
        },
    }
}

/// Reads an audio modifier extension and the packet type that follows it.
pub open spec fn spec_audio_mod_ex(s: Seq<u8>) -> Result<
    ((AudioPacketModExView, AudioPacketType), nat),
    FlvError,
> {
    match spec_mod_ex_parts(s) {
        Err(e) => Err(e),
        Ok((data, b, n)) => {
            let t = AudioPacketModExType::spec_from(b / 16);
            let next = AudioPacketType::spec_from(b % 16);
            if t == AudioPacketModExType::TimestampOffsetNano {
                if data.len() < 3 {
                    Err(FlvError::InvalidModExData { expected_bytes: 3 })
                } else {
                    Ok(
                        (
                            (
                                AudioPacketModExView::TimestampOffsetNano {
                                    audio_timestamp_nano_offset: be24(data) as u32,
                                },
                                next,
                            ),
                            n,
                        ),
                    )
                }
            } else {
                Ok(
                    (
                        (
                            AudioPacketModExView::Other {
                                audio_packet_mod_ex_type: t,
                                mod_ex_data: data,
                            },
                            next,
                        ),
                        n,
                    ),
                )
            }
        },
    }
}

/// Reads the size, data and type byte of a modifier extension.
pub fn demux_mod_ex_parts(reader: &mut ByteCursor) -> (r: Result<(Vec<u8>, u8), FlvError>)
    requires
        old(reader).wf(),
    ensures
        final(reader).wf(),
        final(reader).data@ == old(reader).data@,
        match r {
            Ok((d, b)) => final(reader).pos >= old(reader).pos && spec_mod_ex_parts(old(reader).rest())
                == Ok::<(Seq<u8>, u8, nat), FlvError>(
                (d@, b, (final(reader).pos - old(reader).pos) as nat),
            ),
            Err(e) => spec_mod_ex_parts(old(reader).rest()) == Err::<(Seq<u8>, u8, nat), FlvError>(
                e,
            ),
        },
{
    let ghost s = reader.rest();
    let first = match reader.read_u8() {
        Ok(b) => b,
        Err(e) => return Err(FlvError::Io(e)),
    };
    let mut size: usize = first as usize + 1;
    if size == 256 {
        let ghost at1 = reader.rest();
        let wide = match reader.read_u16_be() {
            Ok(v) => v,
            Err(e) => return Err(FlvError::Io(e)),
        };
        assert(at1.subrange(0, 2) =~= s.subrange(1, 3));
        size = wide as usize + 1;
    }
    let ghost p = (reader.pos - old(reader).pos) as nat;
    assert(reader.rest() =~= s.subrange(p as int, s.len() as int));
    let data = match reader.extract_bytes(size) {
        Ok(d) => d,
        Err(e) => return Err(FlvError::Io(e)),
    };
    let next = match reader.read_u8() {
        Ok(b) => b,
        Err(e) => return Err(FlvError::Io(e)),
    };
    assert(data@ =~= s.subrange(p as int, (p + size) as int));
    Ok((data, next))
}

impl AudioPacketModEx {
    /// Reads a modifier extension; gives it and the packet type that follows.
    pub fn demux(reader: &mut ByteCursor) -> (r: Result<(Self, AudioPacketType), FlvError>)
        requires
            old(reader).wf(),
        ensures
            final(reader).wf(),
            final(reader).data@ == old(reader).data@,
            match r {
                Ok((m, t)) => final(reader).pos >= old(reader).pos && spec_audio_mod_ex(
                    old(reader).rest(),
                ) == Ok::<((AudioPacketModExView, AudioPacketType), nat), FlvError>(
                    ((m@, t), (final(reader).pos - old(reader).pos) as nat),
                ),
                Err(e) => spec_audio_mod_ex(old(reader).rest()) == Err::<
                    ((AudioPacketModExView, AudioPacketType), nat),
                    FlvError,
                >(e),
            },
    {
        let (data, next_byte) = demux_mod_ex_parts(reader)?;
        assert(next_byte >> 4 == next_byte / 16) by (bit_vector);
        assert(next_byte & 0b0000_1111 == next_byte % 16) by (bit_vector);
        let mod_ex_type = AudioPacketModExType::from(next_byte >> 4);
        let packet_type = AudioPacketType::from(next_byte & 0b0000_1111);
        if mod_ex_type == AudioPacketModExType::TimestampOffsetNano {
            if data.len() < 3 {
                return Err(FlvError::InvalidModExData { expected_bytes: 3 });
            }
            let mut inner = ByteCursor::new(data);
            let offset = match inner.read_u24_be() {
                Ok(v) => v,
                Err(e) => return Err(FlvError::Io(e)),
            };
            Ok((AudioPacketModEx::TimestampOffsetNano { audio_timestamp_nano_offset: offset }, packet_type))
        } else {
            Ok(
                (
                    AudioPacketModEx::Other { audio_packet_mod_ex_type: mod_ex_type, mod_ex_data: data },
                    packet_type,
                ),
            )
        }
    }
}

/// The multitrack configuration of an enhanced audio header.
#[derive(Debug, Clone, Copy, PartialEq, Eq)]
pub enum ExAudioTagHeaderContent {
    /// Not multitrack.
    NoMultiTrack(AudioFourCc),
    /// Multitrack with one track.
    OneTrack(AudioFourCc),
    /// Multitrack with many tracks of one codec.
    ManyTracks(AudioFourCc),
    /// Multitrack with many tracks of different codecs.
    ManyTracksManyCodecs,
    /// An unknown multitrack type.
    Unknown {
        /// The multitrack type.
        audio_multitrack_type: AvMultitrackType,
        /// The FOURCC that followed it.
        audio_four_cc: AudioFourCc,
    },
}

/// The enhanced audio tag header.
#[derive(Debug, Clone, PartialEq, Eq)]
pub struct ExAudioTagHeader {
    /// The modifier extensions, in order; empty when there are none.
    pub audio_packet_mod_exs: Vec<AudioPacketModEx>,
    /// The packet type.
    pub audio_packet_type: AudioPacketType,
    /// The multitrack configuration.
    pub content: ExAudioTagHeaderContent,
}

/// The mathematical value of an [`ExAudioTagHeader`].
pub struct ExAudioTagHeaderView {
    pub audio_packet_mod_exs: Seq<AudioPacketModExView>,
    pub audio_packet_type: AudioPacketType,
    pub content: ExAudioTagHeaderContent,
}

/// The views of modifier extensions.
pub open spec fn audio_mod_exs_view(v: Seq<AudioPacketModEx>) -> Seq<AudioPacketModExView> {
    v.map_values(|m: AudioPacketModEx| m@)
}

impl View for ExAudioTagHeader {
    type V = ExAudioTagHeaderView;

    open spec fn view(&self) -> ExAudioTagHeaderView {
        ExAudioTagHeaderView {
            audio_packet_mod_exs: audio_mod_exs_view(self.audio_packet_mod_exs@),
            audio_packet_type: self.audio_packet_type,
            content: self.content,
        }
    }
}

/// Reads modifier extensions after `acc` while the packet type `pt` is `ModEx`; gives them, the
/// final packet type and the bytes they take.
pub open spec fn spec_audio_mod_exs(s: Seq<u8>, acc: Seq<AudioPacketModExView>, pt: AudioPacketType) -> Result<
    (Seq<AudioPacketModExView>, AudioPacketType, nat),
    FlvError,
>
    decreases s.len(),
{
    if pt != AudioPacketType::ModEx {
        Ok((acc, pt, 0))
    } else {
        match spec_audio_mod_ex(s) {
            Err(e) => Err(e),
            Ok(((m, next), n)) => if n < 1 || n > s.len() {
                Err(FlvError::Io(IoError::UnexpectedEof))
            } else {
                match spec_audio_mod_exs(s.subrange(n as int, s.len() as int), acc.push(m), next) {
                    Ok((ms, t, k)) => Ok((ms, t, n + k)),
                    Err(e) => Err(e),
                }
            },
        }
    }
}

/// Reads the multitrack part of an enhanced audio header: the multitrack type (high four
/// bits) and the packet type (low four bits) of one byte, then a FOURCC unless the tracks have
/// many codecs.
pub open spec fn spec_audio_multitrack(t: Seq<u8>) -> Result<
    (AudioPacketType, ExAudioTagHeaderContent, nat),
    FlvError,
> {
    if t.len() < 1 {
        Err(FlvError::Io(IoError::UnexpectedEof))
    } else {
        let mt = AvMultitrackType::spec_from(t[0] / 16);
        let pt = AudioPacketType::spec_from(t[0] % 16);
        if pt == AudioPacketType::Multitrack {
            Err(FlvError::NestedMultitracks)
        } else if mt == AvMultitrackType::ManyTracksManyCodecs {
            Ok((pt, ExAudioTagHeaderContent::ManyTracksManyCodecs, 1))
        } else if t.len() < 5 {
            Err(FlvError::Io(IoError::UnexpectedEof))
        } else {
            let cc = AudioFourCc::spec_from(fourcc_at(t.subrange(1, 5)));
            let content = match mt {
                AvMultitrackType::OneTrack => ExAudioTagHeaderContent::OneTrack(cc),
                AvMultitrackType::ManyTracks => ExAudioTagHeaderContent::ManyTracks(cc),
                _ => ExAudioTagHeaderContent::Unknown { audio_multitrack_type: mt, audio_four_cc: cc },
            };
            Ok((pt, content, 5))
        }
    }
}

/// Reads an enhanced audio header: the packet type from the low four bits of the first byte,
/// the modifier extensions, then the multitrack part or a FOURCC.
pub open spec fn spec_ex_audio_header(s: Seq<u8>) -> Result<(ExAudioTagHeaderView, nat), FlvError> {
    if s.len() < 1 {
        Err(FlvError::Io(IoError::UnexpectedEof))
    } else {
        match spec_audio_mod_exs(s.subrange(1, s.len() as int), seq![], AudioPacketType::spec_from(s[0] % 16)) {
            Err(e) => Err(e),
            Ok((mods, pt, n)) => {
                let t = s.subrange((1 + n) as int, s.len() as int);
                if pt == AudioPacketType::Multitrack {
                    match spec_audio_multitrack(t) {
                        Err(e) => Err(e),
                        Ok((pt2, content, k)) => Ok(
                            (
                                ExAudioTagHeaderView {
                                    audio_packet_mod_exs: mods,
                                    audio_packet_type: pt2,
                                    content,
                                },
                                1 + n + k,
                            ),
                        ),
                    }
                } else if t.len() < 4 {
                    Err(FlvError::Io(IoError::UnexpectedEof))
                } else {
                    Ok(
                        (
                            ExAudioTagHeaderView {
                                audio_packet_mod_exs: mods,
                                audio_packet_type: pt,
                                content: ExAudioTagHeaderContent::NoMultiTrack(
                                    AudioFourCc::spec_from(fourcc_at(t)),
                                ),
                            },
                            1 + n + 4,
                        ),
                    )
                }
            },
        }
    }
}

/// A result of reading modifier extensions with `c` more bytes taken.
pub open spec fn shifted_mods<M, T>(r: Result<(Seq<M>, T, nat), FlvError>, c: nat) -> Result<
    (Seq<M>, T, nat),
    FlvError,
> {
    match r {
        Ok((ms, t, n)) => Ok((ms, t, n + c)),
        Err(e) => Err(e),
    }
}

/// Reads the multitrack byte and, unless the tracks have many codecs, the FOURCC.
fn demux_audio_multitrack(reader: &mut ByteCursor) -> (r: Result<(AudioPacketType, ExAudioTagHeaderContent), FlvError>)
    requires
        old(reader).wf(),
    ensures
        final(reader).wf(),
        final(reader).data@ == old(reader).data@,
        match r {
            Ok((pt, c)) => final(reader).pos >= old(reader).pos && spec_audio_multitrack(
                old(reader).rest(),
            ) == Ok::<(AudioPacketType, ExAudioTagHeaderContent, nat), FlvError>(
                (pt, c, (final(reader).pos - old(reader).pos) as nat),
            ),
            Err(e) => spec_audio_multitrack(old(reader).rest()) == Err::<
                (AudioPacketType, ExAudioTagHeaderContent, nat),
                FlvError,
            >(e),
        },
{
    let ghost t = reader.rest();
    let byte = match reader.read_u8() {
        Ok(b) => b,
        Err(e) => return Err(FlvError::Io(e)),
    };
    assert(byte >> 4 == byte / 16) by (bit_vector);
    assert(byte & 0b0000_1111 == byte % 16) by (bit_vector);
    let mt = AvMultitrackType::from(byte >> 4);
    let pt = AudioPacketType::from(byte & 0b0000_1111);
    if pt == AudioPacketType::Multitrack {
        return Err(FlvError::NestedMultitracks);
    }
    if mt == AvMultitrackType::ManyTracksManyCodecs {
        return Ok((pt, ExAudioTagHeaderContent::ManyTracksManyCodecs));
    }
    let ghost at1 = reader.rest();
    let raw = match reader.read_array4() {
        Ok(a) => a,
        Err(e) => return Err(FlvError::Io(e)),
    };
    assert(raw@ =~= fourcc_at(t.subrange(1, 5))@);
    assert(raw == fourcc_at(t.subrange(1, 5)));
    let cc = AudioFourCc::from(raw);
    let content = match mt {
        AvMultitrackType::OneTrack => ExAudioTagHeaderContent::OneTrack(cc),
        AvMultitrackType::ManyTracks => ExAudioTagHeaderContent::ManyTracks(cc),
        _ => ExAudioTagHeaderContent::Unknown { audio_multitrack_type: mt, audio_four_cc: cc },
    };
    Ok((pt, content))
}

impl ExAudioTagHeader {
    /// Reads an enhanced audio header.
    pub fn demux(reader: &mut ByteCursor) -> (r: Result<Self, FlvError>)
        requires
            old(reader).wf(),
        ensures
            final(reader).wf(),
            final(reader).data@ == old(reader).data@,
            match r {
                Ok(h) => final(reader).pos >= old(reader).pos && spec_ex_audio_header(old(reader).rest())
                    == Ok::<(ExAudioTagHeaderView, nat), FlvError>(
                    (h@, (final(reader).pos - old(reader).pos) as nat),
                ),
                Err(e) => spec_ex_audio_header(old(reader).rest()) == Err::<
                    (ExAudioTagHeaderView, nat),
                    FlvError,
                >(e),
            },
    {
        let ghost s = reader.rest();
        let first = match reader.read_u8() {
            Ok(b) => b,
            Err(e) => return Err(FlvError::Io(e)),
        };
        assert(first & 0b0000_1111 == first % 16) by (bit_vector);
        let mut packet_type = AudioPacketType::from(first & 0b0000_1111);
        let ghost u = reader.rest();
        assert(u =~= s.subrange(1, s.len() as int));
        let mut mod_exs: Vec<AudioPacketModEx> = Vec::new();
        assert(audio_mod_exs_view(mod_exs@) =~= Seq::<AudioPacketModExView>::empty());
        while packet_type == AudioPacketType::ModEx
            invariant
                reader.wf(),
                reader.data@ == old(reader).data@,
                u.len() >= reader.rest().len(),
                reader.rest() == u.subrange(u.len() - reader.rest().len(), u.len() as int),
                u == s.subrange(1, s.len() as int),
                s == old(reader).rest(),
                s.len() >= 1,
                s[0] == first,
                reader.pos == old(reader).pos + 1 + (u.len() - reader.rest().len()),
                spec_audio_mod_exs(u, seq![], AudioPacketType::spec_from(first % 16)) == shifted_mods(
                    spec_audio_mod_exs(reader.rest(), audio_mod_exs_view(mod_exs@), packet_type),
                    (u.len() - reader.rest().len()) as nat,
                ),
            decreases reader.rest().len(),
        {
            let ghost cur = reader.rest();
            let ghost pos0 = reader.pos;
            let ghost acc = audio_mod_exs_view(mod_exs@);
            let (mod_ex, next) = match AudioPacketModEx::demux(reader) {
                Ok(x) => x,
                Err(e) => {
                    assert(spec_audio_mod_exs(cur, acc, packet_type) == Err::<
                        (Seq<AudioPacketModExView>, AudioPacketType, nat),
                        FlvError,
                    >(e));
                    assert(spec_audio_mod_exs(u, seq![], AudioPacketType::spec_from(first % 16)) == Err::<
                        (Seq<AudioPacketModExView>, AudioPacketType, nat),
                        FlvError,
                    >(e));
                    assert(s[0] == first);
                    return Err(e);
                },
            };
            let ghost n = (reader.pos - pos0) as nat;
            assert(reader.rest() =~= cur.subrange(n as int, cur.len() as int));
            assert(spec_audio_mod_exs(cur, acc, packet_type) == shifted_mods(
                spec_audio_mod_exs(reader.rest(), acc.push(mod_ex@), next),
                n,
            ));
            let ghost before = mod_exs@;
            mod_exs.push(mod_ex);
            assert(audio_mod_exs_view(mod_exs@) =~= audio_mod_exs_view(before).push(mod_ex@));
            assert(reader.rest() =~= u.subrange(u.len() - reader.rest().len(), u.len() as int));
            packet_type = next;
        }
        let ghost n = (u.len() - reader.rest().len()) as nat;
        assert(reader.rest() =~= s.subrange((1 + n) as int, s.len() as int));
        if packet_type == AudioPacketType::Multitrack {
            let (pt, content) = demux_audio_multitrack(reader)?;
            Ok(ExAudioTagHeader { audio_packet_mod_exs: mod_exs, audio_packet_type: pt, content })
        } else {
            let ghost t = reader.rest();
            let raw = match reader.read_array4() {
                Ok(a) => a,
                Err(e) => return Err(FlvError::Io(e)),
            };
            assert(raw@ =~= fourcc_at(t)@);
            assert(raw == fourcc_at(t));
            Ok(
                ExAudioTagHeader {
                    audio_packet_mod_exs: mod_exs,
                    audio_packet_type: packet_type,
                    content: ExAudioTagHeaderContent::NoMultiTrack(AudioFourCc::from(raw)),
                },
            )
        }
    }
}

/// An FLV audio tag header, legacy or enhanced.
#[derive(Debug, Clone, PartialEq, Eq)]
pub enum AudioTagHeader {
    /// A legacy header.
    Legacy(LegacyAudioTagHeader),
    /// An enhanced header.
    Enhanced(ExAudioTagHeader),
}

/// The mathematical value of an [`AudioTagHeader`].
pub enum AudioTagHeaderView {
    Legacy(LegacyAudioTagHeader),
    Enhanced(ExAudioTagHeaderView),
}

impl View for AudioTagHeader {
    type V = AudioTagHeaderView;

    open spec fn view(&self) -> AudioTagHeaderView {
        match self {
            AudioTagHeader::Legacy(h) => AudioTagHeaderView::Legacy(*h),
            AudioTagHeader::Enhanced(h) => AudioTagHeaderView::Enhanced(h@),
        }
    }
}

/// Reads an audio tag header: enhanced when the sound format of the first byte is `ExHeader`,
/// else legacy.
pub open spec fn spec_audio_tag_header(s: Seq<u8>) -> Result<(AudioTagHeaderView, nat), FlvError> {
    if s.len() < 1 {
        Err(FlvError::Io(IoError::UnexpectedEof))
    } else if SoundFormat::spec_from(s[0] / 16) == SoundFormat::ExHeader {
        match spec_ex_audio_header(s) {
            Ok((h, n)) => Ok((AudioTagHeaderView::Enhanced(h), n)),
            Err(e) => Err(e),
        }
    } else {
        Ok((AudioTagHeaderView::Legacy(legacy_audio_header_of(s[0])), 1))
    }
}

impl AudioTagHeader {
    /// Reads an audio tag header, legacy or enhanced as its first byte says.
    pub fn demux(reader: &mut ByteCursor) -> (r: Result<Self, FlvError>)
        requires
            old(reader).wf(),
        ensures
            final(reader).wf(),
            final(reader).data@ == old(reader).data@,
            match r {
                Ok(h) => final(reader).pos >= old(reader).pos && spec_audio_tag_header(old(reader).rest())
                    == Ok::<(AudioTagHeaderView, nat), FlvError>(
                    (h@, (final(reader).pos - old(reader).pos) as nat),
                ),
                Err(e) => spec_audio_tag_header(old(reader).rest()) == Err::<
                    (AudioTagHeaderView, nat),
                    FlvError,
                >(e),
            },
    {
        let byte = match reader.peek_u8() {
            Ok(b) => b,
            Err(e) => return Err(FlvError::Io(e)),
        };
        assert((byte & 0b1111_0000) >> 4 == byte / 16) by (bit_vector);
        let sound_format = SoundFormat::from((byte & 0b1111_0000) >> 4);
        if sound_format == SoundFormat::ExHeader {
            let h = ExAudioTagHeader::demux(reader)?;
            Ok(AudioTagHeader::Enhanced(h))
        } else {
            let h = LegacyAudioTagHeader::demux(reader)?;
            Ok(AudioTagHeader::Legacy(h))
        }
    }
}

/// What an audio tag header holds, said of its bytes. A first byte whose high four bits are
/// not 9 is a legacy header of that byte alone: the sound format in the high four bits, the
/// rate in the next two, the sample size in the next one and the channel type in the low bit.
/// High bits 9 start an enhanced header; without modifier extensions or multiple tracks its
/// packet type is the low four bits and the FOURCC the four bytes after them.
pub proof fn lemma_audio_tag_header_from_bytes(s: Seq<u8>)
    ensures
        s.len() >= 1 && s[0] / 16 != 9 ==> spec_audio_tag_header(s) is Ok && spec_audio_tag_header(s)->Ok_0.1 == 1 && (
        spec_audio_tag_header(s)->Ok_0.0 matches AudioTagHeaderView::Legacy(h) && h.sound_format.spec_value() == s[0] / 16
            && h.sound_rate.spec_value() == (s[0] / 4) % 4 && h.sound_size.spec_value() == (s[0] / 2) % 2
            && h.sound_type.spec_value() == s[0] % 2),
        s.len() >= 1 && s[0] / 16 == 9 && s[0] % 16 != 5 && s[0] % 16 != 7 ==> (spec_audio_tag_header(s) is Ok <==> s.len() >= 5),
        s.len() >= 5 && s[0] / 16 == 9 && s[0] % 16 != 5 && s[0] % 16 != 7 ==> spec_audio_tag_header(s)->Ok_0.1 == 5 && (
        spec_audio_tag_header(s)->Ok_0.0 matches AudioTagHeaderView::Enhanced(h) && h.audio_packet_mod_exs.len() == 0
            && h.audio_packet_type.spec_value() == s[0] % 16 && (h.content matches ExAudioTagHeaderContent::NoMultiTrack(cc)
            && cc.spec_value() == [s[1], s[2], s[3], s[4]])),
{
    if s.len() >= 1 {
        lemma_audio_numbers_kept(s[0] / 16, [0u8, 0u8, 0u8, 0u8]);
        lemma_audio_numbers_kept((s[0] / 4) % 4, [0u8, 0u8, 0u8, 0u8]);
        lemma_audio_numbers_kept((s[0] / 2) % 2, [0u8, 0u8, 0u8, 0u8]);
        lemma_audio_numbers_kept(s[0] % 2, [0u8, 0u8, 0u8, 0u8]);
        let t = s.subrange(1, s.len() as int);
        assert(t.subrange(0, t.len() as int) =~= t);
    }
    if s.len() >= 5 {
        let t = s.subrange(1, s.len() as int);
        lemma_audio_numbers_kept(s[0] % 16, [s[1], s[2], s[3], s[4]]);
        assert(fourcc_at(t) =~= [s[1], s[2], s[3], s[4]]);
    }
}

} // verus!
