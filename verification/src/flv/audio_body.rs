//! FLV audio tag bodies: the legacy body (AAC or raw sound data) and the enhanced body with
//! its packets and tracks.
use vstd::prelude::*;

use crate::cursor::{be24, be32, ByteCursor};
use crate::error::IoError;
use crate::flv::audio_enums::{
    AacPacketType, AudioChannel, AudioChannelOrder, AudioFourCc, AudioPacketType, SoundFormat,
};
use crate::flv::audio_header::{
    fourcc_at, spec_audio_tag_header, AudioTagHeader, AudioTagHeaderView, ExAudioTagHeader,
    ExAudioTagHeaderContent, LegacyAudioTagHeader,
};
use crate::flv::error::FlvError;

verus! {

broadcast use vstd::array::group_array_axioms;

/// The data of an AAC audio packet, by its packet type.
#[derive(Debug, Clone, PartialEq, Eq)]
pub enum AacAudioData {
    /// The AudioSpecificConfig.
    SequenceHeader(Vec<u8>),
    /// Raw AAC frame data.
    Raw(Vec<u8>),
    /// Data of an unknown packet type.
    Unknown {
        /// The packet type.
        aac_packet_type: AacPacketType,
        /// The data.
        data: Vec<u8>,
    },
}

/// The mathematical value of an [`AacAudioData`].
pub enum AacAudioDataView {
    SequenceHeader(Seq<u8>),
    Raw(Seq<u8>),
    Unknown { aac_packet_type: AacPacketType, data: Seq<u8> },
}

impl View for AacAudioData {
    type V = AacAudioDataView;

    open spec fn view(&self) -> AacAudioDataView {
        match self {
            AacAudioData::SequenceHeader(d) => AacAudioDataView::SequenceHeader(d@),
            AacAudioData::Raw(d) => AacAudioDataView::Raw(d@),
            AacAudioData::Unknown { aac_packet_type, data } => AacAudioDataView::Unknown {
                aac_packet_type: *aac_packet_type,
                data: data@,
            },
        }
    }
}

/// The AAC data of a packet type.
pub open spec fn aac_data_of(t: AacPacketType, d: Seq<u8>) -> AacAudioDataView {
    match t {
        AacPacketType::SequenceHeader => AacAudioDataView::SequenceHeader(d),
        AacPacketType::Raw => AacAudioDataView::Raw(d),
        _ => AacAudioDataView::Unknown { aac_packet_type: t, data: d },
    }
}

impl AacAudioData {
    /// The data of an AAC packet of type `aac_packet_type`.
    pub fn new(aac_packet_type: AacPacketType, data: Vec<u8>) -> (r: Self)
        ensures
            r@ == aac_data_of(aac_packet_type, data@),
    {
        match aac_packet_type {
            AacPacketType::SequenceHeader => AacAudioData::SequenceHeader(data),
            AacPacketType::Raw => AacAudioData::Raw(data),
            _ => AacAudioData::Unknown { aac_packet_type, data },
        }
    }
}

/// The legacy FLV audio tag body.
#[derive(Debug, Clone, PartialEq, Eq)]
pub enum LegacyAudioTagBody {
    /// An AAC packet.
    Aac(AacAudioData),
    /// The sound data of any other format.
    Other {
        /// The sound data.
        sound_data: Vec<u8>,
    },
}

/// The mathematical value of a [`LegacyAudioTagBody`].
pub enum LegacyAudioTagBodyView {
    Aac(AacAudioDataView),
    Other { sound_data: Seq<u8> },
}

impl View for LegacyAudioTagBody {
    type V = LegacyAudioTagBodyView;

    open spec fn view(&self) -> LegacyAudioTagBodyView {
        match self {
            LegacyAudioTagBody::Aac(a) => LegacyAudioTagBodyView::Aac(a@),
            LegacyAudioTagBody::Other { sound_data } => LegacyAudioTagBodyView::Other {
                sound_data: sound_data@,
            },
        }
    }
}

/// Reads a legacy audio body, which takes all of `s`: for AAC, the packet type byte and the
/// data; for any other format, the sound data.
pub open spec fn spec_legacy_audio_body(h: LegacyAudioTagHeader, s: Seq<u8>) -> Result<
    LegacyAudioTagBodyView,
    IoError,
> {
    if h.sound_format == SoundFormat::Aac {
        if s.len() < 1 {
            Err(IoError::UnexpectedEof)
        } else {
            Ok(
                LegacyAudioTagBodyView::Aac(
                    aac_data_of(AacPacketType::spec_from(s[0]), s.subrange(1, s.len() as int)),
                ),
            )
        }
    } else {
        Ok(LegacyAudioTagBodyView::Other { sound_data: s })
    }
}

impl LegacyAudioTagBody {
    /// Reads the body; the cursor is used up on success.
    pub fn demux(header: &LegacyAudioTagHeader, reader: &mut ByteCursor) -> (r: Result<Self, IoError>)
        requires
            old(reader).wf(),
        ensures
            final(reader).wf(),
            final(reader).data@ == old(reader).data@,
            match r {
                Ok(b) => spec_legacy_audio_body(*header, old(reader).rest()) == Ok::<
                    LegacyAudioTagBodyView,
                    IoError,
                >(b@) && final(reader).rest().len() == 0,
                Err(e) => spec_legacy_audio_body(*header, old(reader).rest()) == Err::<
                    LegacyAudioTagBodyView,
                    IoError,
                >(e),
            },
    {
        let ghost s = reader.rest();
        if header.sound_format == SoundFormat::Aac {
            let t = reader.read_u8()?;
            assert(reader.rest() =~= s.subrange(1, s.len() as int));
            let data = reader.extract_remaining();
            Ok(LegacyAudioTagBody::Aac(AacAudioData::new(AacPacketType::from(t), data)))
        } else {
            let data = reader.extract_remaining();
            Ok(LegacyAudioTagBody::Other { sound_data: data })
        }
    }
}

/// The channel flags of a native multichannel configuration, one bit per speaker.
#[derive(Debug, Clone, Copy, PartialEq, Eq, Structural)]
pub struct AudioChannelMask {
    /// The flags.
    pub bits: u32,
}

impl AudioChannelMask {
    /// The flag of the speaker: Front left.
    pub const FRONT_LEFT: u32 = 0x000001;

    /// The flag of the speaker: Front right.
    pub const FRONT_RIGHT: u32 = 0x000002;

    /// The flag of the speaker: Front center.
    pub const FRONT_CENTER: u32 = 0x000004;

    /// The flag of the speaker: Low frequency.
    pub const LOW_FREQUENCY1: u32 = 0x000008;

    /// The flag of the speaker: Back left.
    pub const BACK_LEFT: u32 = 0x000010;

    /// The flag of the speaker: Back right.
    pub const BACK_RIGHT: u32 = 0x000020;

    /// The flag of the speaker: Front left of center.
    pub const FRONT_LEFT_CENTER: u32 = 0x000040;

    /// The flag of the speaker: Front right of center.
    pub const FRONT_RIGHT_CENTER: u32 = 0x000080;

    /// The flag of the speaker: Back center.
    pub const BACK_CENTER: u32 = 0x000100;

    /// The flag of the speaker: Side left.
    pub const SIDE_LEFT: u32 = 0x000200;

    /// The flag of the speaker: Side right.
    pub const SIDE_RIGHT: u32 = 0x000400;

    /// The flag of the speaker: Top center.
    pub const TOP_CENTER: u32 = 0x000800;

    /// The flag of the speaker: Front left height.
    pub const TOP_FRONT_LEFT: u32 = 0x001000;

    /// The flag of the speaker: Front center height.
    pub const TOP_FRONT_CENTER: u32 = 0x002000;

    /// The flag of the speaker: Front right height.
    pub const TOP_FRONT_RIGHT: u32 = 0x004000;

    /// The flag of the speaker: Rear left height.
    pub const TOP_BACK_LEFT: u32 = 0x008000;

    /// The flag of the speaker: Rear center height.
    pub const TOP_BACK_CENTER: u32 = 0x010000;

    /// The flag of the speaker: Rear right height.
    pub const TOP_BACK_RIGHT: u32 = 0x020000;

    /// The flag of the speaker: Low frequency 2.
    pub const LOW_FREQUENCY2: u32 = 0x040000;

    /// The flag of the speaker: Top side left.
    pub const TOP_SIDE_LEFT: u32 = 0x080000;

    /// The flag of the speaker: Top side right.
    pub const TOP_SIDE_RIGHT: u32 = 0x100000;

    /// The flag of the speaker: Bottom front center.
    pub const BOTTOM_FRONT_CENTER: u32 = 0x200000;

    /// The flag of the speaker: Bottom front left.
    pub const BOTTOM_FRONT_LEFT: u32 = 0x400000;

    /// The flag of the speaker: Bottom front right.
    pub const BOTTOM_FRONT_RIGHT: u32 = 0x800000;

    /// The mask with the given flags.
    pub fn from(bits: u32) -> (r: Self)
        ensures
            r.bits == bits,
    {
        AudioChannelMask { bits }
    }

    /// Whether all flags of `other` are set.
    pub fn contains(&self, other: AudioChannelMask) -> (r: bool)
        ensures
            r == (self.bits & other.bits == other.bits),
    {
        self.bits & other.bits == other.bits
    }

    /// The mask with the flags of both masks.
    pub fn union(&self, other: AudioChannelMask) -> (r: Self)
        ensures
            r.bits == self.bits | other.bits,
    {
        AudioChannelMask { bits: self.bits | other.bits }
    }
}

/// The channel order of a multichannel configuration.
#[derive(Debug, Clone, PartialEq, Eq)]
pub enum MultichannelConfigOrder {
    /// An explicit speaker for each channel.
    Custom(Vec<AudioChannel>),
    /// The native order of the flagged channels.
    Native(AudioChannelMask),
    /// Only the channel count is known.
    Unspecified,
    /// An unknown channel order.
    Unknown(AudioChannelOrder),
}

/// The mathematical value of a [`MultichannelConfigOrder`].
pub enum MultichannelConfigOrderView {
    Custom(Seq<AudioChannel>),
    Native(AudioChannelMask),
    Unspecified,
    Unknown(AudioChannelOrder),
}

impl View for MultichannelConfigOrder {
    type V = MultichannelConfigOrderView;

    open spec fn view(&self) -> MultichannelConfigOrderView {
        match self {
            MultichannelConfigOrder::Custom(c) => MultichannelConfigOrderView::Custom(c@),
            MultichannelConfigOrder::Native(m) => MultichannelConfigOrderView::Native(*m),
            MultichannelConfigOrder::Unspecified => MultichannelConfigOrderView::Unspecified,
            MultichannelConfigOrder::Unknown(o) => MultichannelConfigOrderView::Unknown(*o),
        }
    }
}

/// An enhanced audio packet.
#[derive(Debug, Clone, PartialEq, Eq)]
pub enum AudioPacket {
    /// A multichannel configuration.
    MultichannelConfig {
        /// The number of channels.
        channel_count: u8,
        /// The channel order.
        multichannel_config: MultichannelConfigOrder,
    },
    /// The end of a sequence.
    SequenceEnd,
    /// The start of a sequence.
    SequenceStart {
        /// The codec's header data.
        header_data: Vec<u8>,
    },
    /// Coded audio frames.
    CodedFrames {
        /// The frames.
        data: Vec<u8>,
    },
    /// A packet of an unknown type.
    Unknown {
        /// The packet type.
        audio_packet_type: AudioPacketType,
        /// The data.
        data: Vec<u8>,
    },
}

/// The mathematical value of an [`AudioPacket`].
pub enum AudioPacketView {
    MultichannelConfig { channel_count: u8, multichannel_config: MultichannelConfigOrderView },
    SequenceEnd,
    SequenceStart { header_data: Seq<u8> },
    CodedFrames { data: Seq<u8> },
    Unknown { audio_packet_type: AudioPacketType, data: Seq<u8> },
}

impl View for AudioPacket {
    type V = AudioPacketView;

    open spec fn view(&self) -> AudioPacketView {
        match self {
            AudioPacket::MultichannelConfig { channel_count, multichannel_config } =>
                AudioPacketView::MultichannelConfig {
                channel_count: *channel_count,
                multichannel_config: multichannel_config@,
            },
            AudioPacket::SequenceEnd => AudioPacketView::SequenceEnd,
            AudioPacket::SequenceStart { header_data } => AudioPacketView::SequenceStart {
                header_data: header_data@,
            },
            AudioPacket::CodedFrames { data } => AudioPacketView::CodedFrames { data: data@ },
            AudioPacket::Unknown { audio_packet_type, data } => AudioPacketView::Unknown {
                audio_packet_type: *audio_packet_type,
                data: data@,
            },
        }
    }
}

/// Whether the packets of a body carry a track size: every multitrack configuration but a
/// single track.
pub open spec fn audio_has_track_size(c: ExAudioTagHeaderContent) -> bool {
    !(c is NoMultiTrack || c is OneTrack)
}

/// Reads the data of a packet: the track's size when one was given, else all that remains.
pub open spec fn spec_packet_data(s: Seq<u8>, size: Option<nat>) -> Result<(Seq<u8>, nat), IoError> {
    let n = match size {
        Some(k) => k,
        None => s.len(),
    };
    if s.len() < n {
        Err(IoError::UnexpectedEof)
    } else {
        Ok((s.subrange(0, n as int), n))
    }
}

/// Reads a multichannel configuration: the channel order, the channel count, then a speaker
/// byte for each channel (custom order) or a 32-bit channel mask (native order).
pub open spec fn spec_multichannel(s: Seq<u8>) -> Result<(AudioPacketView, nat), IoError> {
    if s.len() < 2 {
        Err(IoError::UnexpectedEof)
    } else {
        let order = AudioChannelOrder::spec_from(s[0]);
        let count = s[1];
        let t = s.subrange(2, s.len() as int);
        if order == AudioChannelOrder::Custom {
            if t.len() < count {
                Err(IoError::UnexpectedEof)
            } else {
                Ok(
                    (
                        AudioPacketView::MultichannelConfig {
                            channel_count: count,
                            multichannel_config: MultichannelConfigOrderView::Custom(
                                t.subrange(0, count as int).map_values(|b: u8| AudioChannel::spec_from(b)),
                            ),
                        },
                        (2 + count) as nat,
                    ),
                )
            }
        } else if order == AudioChannelOrder::Native {
            if t.len() < 4 {
                Err(IoError::UnexpectedEof)
            } else {
                Ok(
                    (
                        AudioPacketView::MultichannelConfig {
                            channel_count: count,
                            multichannel_config: MultichannelConfigOrderView::Native(
                                AudioChannelMask { bits: be32(t) as u32 },
                            ),
                        },
                        6,
                    ),
                )
            }
        } else if order == AudioChannelOrder::Unspecified {
            Ok(
                (
                    AudioPacketView::MultichannelConfig {
                        channel_count: count,
                        multichannel_config: MultichannelConfigOrderView::Unspecified,
                    },
                    2,
                ),
            )
        } else {
            Ok(
                (
                    AudioPacketView::MultichannelConfig {
                        channel_count: count,
                        multichannel_config: MultichannelConfigOrderView::Unknown(order),
                    },
                    2,
                ),
            )
        }
    }
}

/// A multichannel configuration, said of its bytes: the channel order is the first byte and the
/// channel count the second. Native order (1) is followed by the 32-bit big-endian channel mask;
/// custom order (2) by one speaker byte for each channel; unspecified order (0) by nothing.
pub proof fn lemma_multichannel_from_bytes(s: Seq<u8>)
    ensures
        s.len() < 2 ==> spec_multichannel(s) is Err,
        s.len() >= 6 && s[0] == 1 ==> spec_multichannel(s) is Ok && spec_multichannel(s)->Ok_0.1 == 6 && (
        spec_multichannel(s)->Ok_0.0 matches AudioPacketView::MultichannelConfig { channel_count, multichannel_config }
            && channel_count == s[1] && multichannel_config == MultichannelConfigOrderView::Native(
            AudioChannelMask { bits: (s[2] as int * 0x100_0000 + s[3] as int * 0x1_0000 + s[4] as int * 0x100 + s[5] as int) as u32 },
        )),
        s.len() >= 2 && s[0] == 2 && s.len() >= 2 + s[1] ==> spec_multichannel(s) is Ok && spec_multichannel(s)->Ok_0.1 == 2 + s[1]
            && (spec_multichannel(s)->Ok_0.0 matches AudioPacketView::MultichannelConfig { channel_count, multichannel_config }
            && channel_count == s[1] && (multichannel_config matches MultichannelConfigOrderView::Custom(chs)
            && chs.len() == s[1] && forall|i: int| 0 <= i < chs.len() ==> (#[trigger] chs[i]).spec_value() == s[2 + i])),
        s.len() >= 2 && s[0] == 0 ==> spec_multichannel(s) == Ok::<(AudioPacketView, nat), IoError>(
            (
                AudioPacketView::MultichannelConfig {
                    channel_count: s[1],
                    multichannel_config: MultichannelConfigOrderView::Unspecified,
                },
                2,
            ),
        ),
{
    if s.len() >= 2 {
        let t = s.subrange(2, s.len() as int);
        if s[0] == 2 && t.len() >= s[1] {
            let chs = t.subrange(0, s[1] as int).map_values(|b: u8| AudioChannel::spec_from(b));
            assert forall|i: int| 0 <= i < chs.len() implies (#[trigger] chs[i]).spec_value() == s[2 + i] by {
                crate::flv::audio_enums::lemma_audio_numbers_kept(s[2 + i], [0u8, 0u8, 0u8, 0u8]);
            }
        }
    }
}

/// Reads an enhanced audio packet of type `pt`: a 24-bit track size first when the body has
/// many tracks, then the packet.
pub open spec fn spec_audio_packet(c: ExAudioTagHeaderContent, pt: AudioPacketType, s: Seq<u8>) -> Result<
    (AudioPacketView, nat),
    IoError,
> {
    let (size, k) = if audio_has_track_size(c) {
        (if s.len() < 3 {
            None
        } else {
            Some(be24(s))
        }, 3nat)
    } else {
        (Some(0nat), 0nat)
    };
    if audio_has_track_size(c) && s.len() < 3 {
        Err(IoError::UnexpectedEof)
    } else {
        let t = s.subrange(k as int, s.len() as int);
        let track = if audio_has_track_size(c) {
            size
        } else {
            None
        };
        let r = if pt == AudioPacketType::MultichannelConfig {
            spec_multichannel(t)
        } else if pt == AudioPacketType::SequenceEnd {
            Ok((AudioPacketView::SequenceEnd, 0))
        } else {
            match spec_packet_data(t, track) {
                Err(e) => Err(e),
                Ok((d, n)) => Ok(
                    (
                        if pt == AudioPacketType::SequenceStart {
                            AudioPacketView::SequenceStart { header_data: d }
                        } else if pt == AudioPacketType::CodedFrames {
                            AudioPacketView::CodedFrames { data: d }
                        } else {
                            AudioPacketView::Unknown { audio_packet_type: pt, data: d }
                        },
                        n,
                    ),
                ),
            }
        };
        match r {
            Ok((p, n)) => Ok((p, k + n)),
            Err(e) => Err(e),
        }
    }
}

/// Reads the data of a packet: `size` bytes, or all that remains.
fn demux_packet_data(reader: &mut ByteCursor, size: Option<usize>) -> (r: Result<Vec<u8>, IoError>)
    requires
        old(reader).wf(),
    ensures
        final(reader).wf(),
        final(reader).data@ == old(reader).data@,
        match r {
            Ok(d) => final(reader).pos >= old(reader).pos && spec_packet_data(
                old(reader).rest(),
                match size {
                    Some(k) => Some(k as nat),
                    None => None,
                },
            ) == Ok::<(Seq<u8>, nat), IoError>((d@, (final(reader).pos - old(reader).pos) as nat)),
            Err(e) => spec_packet_data(
                old(reader).rest(),
                match size {
                    Some(k) => Some(k as nat),
                    None => None,
                },
            ) == Err::<(Seq<u8>, nat), IoError>(e),
        },
{
    let n = match size {
        Some(k) => k,
        None => reader.remaining(),
    };
    reader.extract_bytes(n)
}

/// Reads a multichannel configuration.
fn demux_multichannel(reader: &mut ByteCursor) -> (r: Result<AudioPacket, IoError>)
    requires
        old(reader).wf(),
    ensures
        final(reader).wf(),
        final(reader).data@ == old(reader).data@,
        match r {
            Ok(p) => final(reader).pos >= old(reader).pos && spec_multichannel(old(reader).rest())
                == Ok::<(AudioPacketView, nat), IoError>(
                (p@, (final(reader).pos - old(reader).pos) as nat),
            ),
            Err(e) => spec_multichannel(old(reader).rest()) == Err::<(AudioPacketView, nat), IoError>(
                e,
            ),
        },
{
    let ghost s = reader.rest();
    if reader.remaining() < 2 {
        return Err(IoError::UnexpectedEof);
    }
    let order = AudioChannelOrder::from(reader.read_u8()?);
    let channel_count = reader.read_u8()?;
    let ghost t = reader.rest();
    assert(t =~= s.subrange(2, s.len() as int));
    let multichannel_config = match order {
        AudioChannelOrder::Custom => {
            let bytes = reader.extract_bytes(channel_count as usize)?;
            let mut channels: Vec<AudioChannel> = Vec::new();
            let mut i: usize = 0;
            while i < bytes.len()
                invariant
                    i <= bytes.len(),
                    channels@ =~= bytes@.subrange(0, i as int).map_values(
                        |b: u8| AudioChannel::spec_from(b),
                    ),
                decreases bytes.len() - i,
            {
                channels.push(AudioChannel::from(bytes[i]));
                i = i + 1;
                assert(channels@ =~= bytes@.subrange(0, i as int).map_values(
                    |b: u8| AudioChannel::spec_from(b),
                ));
            }
            assert(bytes@.subrange(0, bytes.len() as int) =~= bytes@);
            MultichannelConfigOrder::Custom(channels)
        },
        AudioChannelOrder::Native => {
            let flags = reader.read_u32_be()?;
            MultichannelConfigOrder::Native(AudioChannelMask::from(flags))
        },
        AudioChannelOrder::Unspecified => MultichannelConfigOrder::Unspecified,
        _ => MultichannelConfigOrder::Unknown(order),
    };
    Ok(AudioPacket::MultichannelConfig { channel_count, multichannel_config })
}

impl AudioPacket {
    /// Reads an enhanced audio packet for the header's multitrack configuration and packet type.
    pub fn demux(header: &ExAudioTagHeader, reader: &mut ByteCursor) -> (r: Result<Self, IoError>)
        requires
            old(reader).wf(),
        ensures
            final(reader).wf(),
            final(reader).data@ == old(reader).data@,
            match r {
                Ok(p) => final(reader).pos >= old(reader).pos && spec_audio_packet(
                    header.content,
                    header.audio_packet_type,
                    old(reader).rest(),
                ) == Ok::<(AudioPacketView, nat), IoError>(
                    (p@, (final(reader).pos - old(reader).pos) as nat),
                ),
                Err(e) => spec_audio_packet(header.content, header.audio_packet_type, old(reader).rest())
                    == Err::<(AudioPacketView, nat), IoError>(e),
            },
    {
        let ghost s = reader.rest();
        let has_multiple_tracks = match header.content {
            ExAudioTagHeaderContent::NoMultiTrack(_) | ExAudioTagHeaderContent::OneTrack(_) => false,
            _ => true,
        };
        let size: Option<usize> = if has_multiple_tracks {
            Some(reader.read_u24_be()? as usize)
        } else {
            None
        };
        let ghost k: int = if has_multiple_tracks {
            3
        } else {
            0
        };
        assert(reader.rest() =~= s.subrange(k, s.len() as int));
        match header.audio_packet_type {
            AudioPacketType::MultichannelConfig => demux_multichannel(reader),
            AudioPacketType::SequenceEnd => Ok(AudioPacket::SequenceEnd),
            AudioPacketType::SequenceStart => {
                let header_data = demux_packet_data(reader, size)?;
                Ok(AudioPacket::SequenceStart { header_data })
            },
            AudioPacketType::CodedFrames => {
                let data = demux_packet_data(reader, size)?;
                Ok(AudioPacket::CodedFrames { data })
            },
            _ => {
                let data = demux_packet_data(reader, size)?;
                Ok(AudioPacket::Unknown { audio_packet_type: header.audio_packet_type, data })
            },
        }
    }
}

/// One track of a multitrack audio body.
#[derive(Debug, Clone, PartialEq, Eq)]
pub struct AudioTrack {
    /// The track's FOURCC.
    pub audio_four_cc: AudioFourCc,
    /// The track id.
    pub audio_track_id: u8,
    /// The track's packet.
    pub packet: AudioPacket,
}

/// The mathematical value of an [`AudioTrack`].
pub struct AudioTrackView {
    pub audio_four_cc: AudioFourCc,
    pub audio_track_id: u8,
    pub packet: AudioPacketView,
}

impl View for AudioTrack {
    type V = AudioTrackView;

    open spec fn view(&self) -> AudioTrackView {
        AudioTrackView {
            audio_four_cc: self.audio_four_cc,
            audio_track_id: self.audio_track_id,
            packet: self.packet@,
        }
    }
}

/// The enhanced audio tag body.
#[derive(Debug, Clone, PartialEq, Eq)]
pub enum ExAudioTagBody {
    /// A body that is not multitrack.
    NoMultitrack {
        /// The FOURCC of the header.
        audio_four_cc: AudioFourCc,
        /// The packet.
        packet: AudioPacket,
    },
    /// A multitrack body.
    ManyTracks(Vec<AudioTrack>),
}

/// The mathematical value of an [`ExAudioTagBody`].
pub enum ExAudioTagBodyView {
    NoMultitrack { audio_four_cc: AudioFourCc, packet: AudioPacketView },
    ManyTracks(Seq<AudioTrackView>),
}

/// The views of tracks.
pub open spec fn audio_tracks_view(v: Seq<AudioTrack>) -> Seq<AudioTrackView> {
    v.map_values(|t: AudioTrack| t@)
}

impl View for ExAudioTagBody {
    type V = ExAudioTagBodyView;

    open spec fn view(&self) -> ExAudioTagBodyView {
        match self {
            ExAudioTagBody::NoMultitrack { audio_four_cc, packet } => ExAudioTagBodyView::NoMultitrack {
                audio_four_cc: *audio_four_cc,
                packet: packet@,
            },
            ExAudioTagBody::ManyTracks(t) => ExAudioTagBodyView::ManyTracks(audio_tracks_view(t@)),
        }
    }
}

/// Reads a track's FOURCC: from the stream when the tracks have many codecs, else the one of
/// the header.
pub open spec fn spec_track_fourcc(c: ExAudioTagHeaderContent, s: Seq<u8>) -> Result<
    (AudioFourCc, nat),
    IoError,
> {
    match c {
        ExAudioTagHeaderContent::ManyTracksManyCodecs => if s.len() < 4 {
            Err(IoError::UnexpectedEof)
        } else {
            Ok((AudioFourCc::spec_from(fourcc_at(s)), 4))
        },
        ExAudioTagHeaderContent::OneTrack(cc) => Ok((cc, 0)),
        ExAudioTagHeaderContent::ManyTracks(cc) => Ok((cc, 0)),
        ExAudioTagHeaderContent::NoMultiTrack(cc) => Ok((cc, 0)),
        ExAudioTagHeaderContent::Unknown { audio_four_cc, .. } => Ok((audio_four_cc, 0)),
    }
}

/// Reads one track: a FOURCC when the tracks have many codecs, a track id and a packet.
#[verifier::opaque]
pub open spec fn spec_audio_track(c: ExAudioTagHeaderContent, pt: AudioPacketType, s: Seq<u8>) -> Result<
    (AudioTrackView, nat),
    IoError,
> {
    match spec_track_fourcc(c, s) {
        Err(e) => Err(e),
        Ok((cc, k1)) => if s.len() < k1 + 1 {
            Err(IoError::UnexpectedEof)
        } else {
            match spec_audio_packet(c, pt, s.subrange((k1 + 1) as int, s.len() as int)) {
                Err(e) => Err(e),
                Ok((p, k3)) => Ok(
                    (
                        AudioTrackView { audio_four_cc: cc, audio_track_id: s[k1 as int], packet: p },
                        k1 + 1 + k3,
                    ),
                ),
            }
        },
    }
}

/// A track that reads takes at least one byte.
pub proof fn lemma_audio_track_takes_bytes(c: ExAudioTagHeaderContent, pt: AudioPacketType, s: Seq<u8>)
    requires
        spec_audio_track(c, pt, s) is Ok,
    ensures
        spec_audio_track(c, pt, s)->Ok_0.1 >= 1,
{
    reveal(spec_audio_track);
}

/// Where a track's codec and id stand: when the tracks have many codecs the track starts with
/// its FOURCC and the id is the byte after it; otherwise the codec is the header's and the id
/// is the first byte.
pub proof fn lemma_audio_track_ids_from_bytes(c: ExAudioTagHeaderContent, pt: AudioPacketType, s: Seq<u8>)
    ensures
        spec_audio_track(c, pt, s) is Ok && c is ManyTracksManyCodecs ==> s.len() >= 5 && spec_audio_track(c, pt, s)->Ok_0.0.audio_four_cc.spec_value()
            == [s[0], s[1], s[2], s[3]] && spec_audio_track(c, pt, s)->Ok_0.0.audio_track_id == s[4],
        spec_audio_track(c, pt, s) is Ok && c is OneTrack ==> spec_audio_track(c, pt, s)->Ok_0.0.audio_four_cc == c->OneTrack_0
            && spec_audio_track(c, pt, s)->Ok_0.0.audio_track_id == s[0],
        spec_audio_track(c, pt, s) is Ok && c is ManyTracks ==> spec_audio_track(c, pt, s)->Ok_0.0.audio_four_cc == c->ManyTracks_0
            && spec_audio_track(c, pt, s)->Ok_0.0.audio_track_id == s[0],
{
    reveal(spec_audio_track);
    if s.len() >= 4 {
        crate::flv::audio_enums::lemma_audio_numbers_kept(0u8, [s[0], s[1], s[2], s[3]]);
        assert(fourcc_at(s) =~= [s[0], s[1], s[2], s[3]]);
    }
}

/// Reads tracks after `acc`; after each, more follow while bytes remain, unless the header
/// says one track.
pub open spec fn spec_audio_tracks(
    c: ExAudioTagHeaderContent,
    pt: AudioPacketType,
    s: Seq<u8>,
    acc: Seq<AudioTrackView>,
) -> Result<(Seq<AudioTrackView>, nat), IoError>
    decreases s.len(),
{
    match spec_audio_track(c, pt, s) {
        Err(e) => Err(e),
        Ok((t, used)) => {
            let acc2 = acc.push(t);
            if 1 <= used <= s.len() && !(c is OneTrack) && s.len() > used {
                match spec_audio_tracks(c, pt, s.subrange(used as int, s.len() as int), acc2) {
                    Ok((ts, n)) => Ok((ts, used + n)),
                    Err(e) => Err(e),
                }
            } else {
                Ok((acc2, used))
            }
        },
    }
}

/// Reads an enhanced audio body for the header's multitrack configuration and packet type.
pub open spec fn spec_ex_audio_body(c: ExAudioTagHeaderContent, pt: AudioPacketType, s: Seq<u8>) -> Result<
    (ExAudioTagBodyView, nat),
    IoError,
> {
    match c {
        ExAudioTagHeaderContent::NoMultiTrack(cc) => match spec_audio_packet(c, pt, s) {
            Ok((p, n)) => Ok((ExAudioTagBodyView::NoMultitrack { audio_four_cc: cc, packet: p }, n)),
            Err(e) => Err(e),
        },
        _ => match spec_audio_tracks(c, pt, s, seq![]) {
            Ok((ts, n)) => Ok((ExAudioTagBodyView::ManyTracks(ts), n)),
            Err(e) => Err(e),
        },
    }
}

/// A result of reading tracks with `c` more bytes taken.
pub open spec fn shifted_tracks<T>(r: Result<(Seq<T>, nat), IoError>, c: nat) -> Result<(Seq<T>, nat), IoError> {
    match r {
        Ok((ts, n)) => Ok((ts, n + c)),
        Err(e) => Err(e),
    }
}

/// Reads one track of a multitrack body.
fn demux_audio_track(header: &ExAudioTagHeader, reader: &mut ByteCursor) -> (r: Result<AudioTrack, IoError>)
    requires
        old(reader).wf(),
    ensures
        final(reader).wf(),
        final(reader).data@ == old(reader).data@,
        match r {
            Ok(t) => final(reader).pos >= old(reader).pos && spec_audio_track(
                header.content,
                header.audio_packet_type,
                old(reader).rest(),
            ) == Ok::<(AudioTrackView, nat), IoError>((t@, (final(reader).pos - old(reader).pos) as nat)),
            Err(e) => spec_audio_track(header.content, header.audio_packet_type, old(reader).rest())
                == Err::<(AudioTrackView, nat), IoError>(e),
        },
{
    reveal(spec_audio_track);
    let ghost cur = reader.rest();
    let audio_four_cc = match header.content {
        ExAudioTagHeaderContent::ManyTracksManyCodecs => {
            let raw = reader.read_array4()?;
            assert(raw@ =~= fourcc_at(cur)@);
            assert(raw == fourcc_at(cur));
            AudioFourCc::from(raw)
        },
        ExAudioTagHeaderContent::OneTrack(cc) => cc,
        ExAudioTagHeaderContent::ManyTracks(cc) => cc,
        ExAudioTagHeaderContent::NoMultiTrack(cc) => cc,
        ExAudioTagHeaderContent::Unknown { audio_four_cc, .. } => audio_four_cc,
    };
    let ghost k1 = (reader.pos - old(reader).pos) as nat;
    assert(reader.rest() =~= cur.subrange(k1 as int, cur.len() as int));
    let audio_track_id = reader.read_u8()?;
    assert(reader.rest() =~= cur.subrange((k1 + 1) as int, cur.len() as int));
    let packet = AudioPacket::demux(header, reader)?;
    Ok(AudioTrack { audio_four_cc, audio_track_id, packet })
}

impl ExAudioTagBody {
    /// Reads an enhanced audio body.
    pub fn demux(header: &ExAudioTagHeader, reader: &mut ByteCursor) -> (r: Result<Self, IoError>)
        requires
            old(reader).wf(),
        ensures
            final(reader).wf(),
            final(reader).data@ == old(reader).data@,
            match r {
                Ok(b) => final(reader).pos >= old(reader).pos && spec_ex_audio_body(
                    header.content,
                    header.audio_packet_type,
                    old(reader).rest(),
                ) == Ok::<(ExAudioTagBodyView, nat), IoError>(
                    (b@, (final(reader).pos - old(reader).pos) as nat),
                ),
                Err(e) => spec_ex_audio_body(header.content, header.audio_packet_type, old(reader).rest())
                    == Err::<(ExAudioTagBodyView, nat), IoError>(e),
            },
    {
        if let ExAudioTagHeaderContent::NoMultiTrack(audio_four_cc) = header.content {
            let packet = AudioPacket::demux(header, reader)?;
            return Ok(ExAudioTagBody::NoMultitrack { audio_four_cc, packet });
        }
        let ghost u = reader.rest();
        let ghost c = header.content;
        let ghost pt = header.audio_packet_type;
        let mut tracks: Vec<AudioTrack> = Vec::new();
        assert(audio_tracks_view(tracks@) =~= Seq::<AudioTrackView>::empty());
        loop
            invariant_except_break
                reader.wf(),
                reader.data@ == old(reader).data@,
                u.len() >= reader.rest().len(),
                reader.rest() == u.subrange(u.len() - reader.rest().len(), u.len() as int),
                reader.pos == old(reader).pos + (u.len() - reader.rest().len()),
                spec_audio_tracks(c, pt, u, seq![]) == shifted_tracks(
                    spec_audio_tracks(c, pt, reader.rest(), audio_tracks_view(tracks@)),
                    (u.len() - reader.rest().len()) as nat,
                ),
            invariant
                u == old(reader).rest(),
                c == header.content,
                pt == header.audio_packet_type,
                !(c is NoMultiTrack),
            ensures
                reader.wf(),
                reader.data@ == old(reader).data@,
                u.len() >= reader.rest().len(),
                reader.pos == old(reader).pos + (u.len() - reader.rest().len()),
                spec_audio_tracks(c, pt, u, seq![]) == Ok::<(Seq<AudioTrackView>, nat), IoError>(
                    (audio_tracks_view(tracks@), (u.len() - reader.rest().len()) as nat),
                ),
            decreases reader.rest().len(),
        {
            let ghost cur = reader.rest();
            let ghost pos0 = reader.pos;
            let ghost acc = audio_tracks_view(tracks@);
            let track = demux_audio_track(header, reader)?;
            proof {
                lemma_audio_track_takes_bytes(c, pt, cur);
            }
            let ghost used = (reader.pos - pos0) as nat;
            assert(reader.rest() =~= cur.subrange(used as int, cur.len() as int));
            tracks.push(track);
            assert(audio_tracks_view(tracks@) =~= acc.push(track@));
            assert(reader.rest() =~= u.subrange(u.len() - reader.rest().len(), u.len() as int));
            let one_track = match header.content {
                ExAudioTagHeaderContent::OneTrack(_) => true,
                _ => false,
            };
            if !one_track && reader.has_remaining() {
                continue;
            }
            break;
        }
        Ok(ExAudioTagBody::ManyTracks(tracks))
    }
}

/// An FLV audio tag body, legacy or enhanced.
#[derive(Debug, Clone, PartialEq, Eq)]
pub enum AudioTagBody {
    /// A legacy body.
    Legacy(LegacyAudioTagBody),
    /// An enhanced body.
    Enhanced(ExAudioTagBody),
}

/// The mathematical value of an [`AudioTagBody`].
pub enum AudioTagBodyView {
    Legacy(LegacyAudioTagBodyView),
    Enhanced(ExAudioTagBodyView),
}

impl View for AudioTagBody {
    type V = AudioTagBodyView;

    open spec fn view(&self) -> AudioTagBodyView {
        match self {
            AudioTagBody::Legacy(b) => AudioTagBodyView::Legacy(b@),
            AudioTagBody::Enhanced(b) => AudioTagBodyView::Enhanced(b@),
        }
    }
}

/// Reads the body of an audio tag with header `h`.
pub open spec fn spec_audio_tag_body(h: AudioTagHeaderView, s: Seq<u8>) -> Result<
    (AudioTagBodyView, nat),
    IoError,
> {
    match h {
        AudioTagHeaderView::Legacy(l) => match spec_legacy_audio_body(l, s) {
            Ok(b) => Ok((AudioTagBodyView::Legacy(b), s.len())),
            Err(e) => Err(e),
        },
        AudioTagHeaderView::Enhanced(x) => match spec_ex_audio_body(x.content, x.audio_packet_type, s) {
            Ok((b, n)) => Ok((AudioTagBodyView::Enhanced(b), n)),
            Err(e) => Err(e),
        },
    }
}

impl AudioTagBody {
    /// Reads the body of an audio tag with the given header.
    pub fn demux(header: &AudioTagHeader, reader: &mut ByteCursor) -> (r: Result<Self, IoError>)
        requires
            old(reader).wf(),
        ensures
            final(reader).wf(),
            final(reader).data@ == old(reader).data@,
            match r {
                Ok(b) => final(reader).pos >= old(reader).pos && spec_audio_tag_body(header@, old(reader).rest())
                    == Ok::<(AudioTagBodyView, nat), IoError>(
                    (b@, (final(reader).pos - old(reader).pos) as nat),
                ),
                Err(e) => spec_audio_tag_body(header@, old(reader).rest()) == Err::<
                    (AudioTagBodyView, nat),
                    IoError,
                >(e),
            },
    {
        match header {
            AudioTagHeader::Legacy(h) => {
                let b = LegacyAudioTagBody::demux(h, reader)?;
                Ok(AudioTagBody::Legacy(b))
            },
            AudioTagHeader::Enhanced(h) => {
                let b = ExAudioTagBody::demux(h, reader)?;
                Ok(AudioTagBody::Enhanced(b))
            },
        }
    }
}

/// The `AUDIODATA` of an FLV audio tag: its header and body.
#[derive(Debug, Clone, PartialEq, Eq)]
pub struct AudioData {
    /// The header.
    pub header: AudioTagHeader,
    /// The body.
    pub body: AudioTagBody,
}

/// The mathematical value of an [`AudioData`].
pub struct AudioDataView {
    pub header: AudioTagHeaderView,
    pub body: AudioTagBodyView,
}

impl View for AudioData {
    type V = AudioDataView;

    open spec fn view(&self) -> AudioDataView {
        AudioDataView { header: self.header@, body: self.body@ }
    }
}

/// Reads the audio data of a tag: its header, then the body that the header calls for.
pub open spec fn spec_audio_data(s: Seq<u8>) -> Result<(AudioDataView, nat), FlvError> {
    match spec_audio_tag_header(s) {
        Err(e) => Err(e),
        Ok((h, n)) => if n > s.len() {
            Err(FlvError::Io(IoError::UnexpectedEof))
        } else {
            match spec_audio_tag_body(h, s.subrange(n as int, s.len() as int)) {
                Err(e) => Err(FlvError::Io(e)),
                Ok((b, m)) => Ok((AudioDataView { header: h, body: b }, n + m)),
            }
        },
    }
}

impl AudioData {
    /// Reads the audio data of a tag.
    pub fn demux(reader: &mut ByteCursor) -> (r: Result<Self, FlvError>)
        requires
            old(reader).wf(),
        ensures
            final(reader).wf(),
            final(reader).data@ == old(reader).data@,
            match r {
                Ok(d) => final(reader).pos >= old(reader).pos && spec_audio_data(old(reader).rest())
                    == Ok::<(AudioDataView, nat), FlvError>(
                    (d@, (final(reader).pos - old(reader).pos) as nat),
                ),
                Err(e) => spec_audio_data(old(reader).rest()) == Err::<(AudioDataView, nat), FlvError>(
                    e,
                ),
            },
    {
        let ghost s = reader.rest();
        let header = AudioTagHeader::demux(reader)?;
        let ghost n = (reader.pos - old(reader).pos) as nat;
        assert(reader.rest() =~= s.subrange(n as int, s.len() as int));
        let body = match AudioTagBody::demux(&header, reader) {
            Ok(b) => b,
            Err(e) => return Err(FlvError::Io(e)),
        };
        Ok(AudioData { header, body })
    }
}

} // verus!
