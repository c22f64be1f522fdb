//! The codec ids of the `onMetaData` script object: a legacy codec number or an enhanced
//! FOURCC, told apart by size.
use vstd::prelude::*;

use crate::flv::audio_enums::{AudioFourCc, SoundFormat};
use crate::flv::video_enums::{VideoCodecId, VideoFourCc};

verus! {

/// The four big-endian bytes of `n`.
pub open spec fn be_bytes4(n: u32) -> [u8; 4] {
    [(n / 0x100_0000) as u8, ((n / 0x1_0000) % 0x100) as u8, ((n / 0x100) % 0x100) as u8, (n % 0x100) as u8]
}

/// The four big-endian bytes of `n`.
fn to_be_bytes4(n: u32) -> (r: [u8; 4])
    ensures
        r == be_bytes4(n),
{
    [(n / 0x100_0000) as u8, ((n / 0x1_0000) % 0x100) as u8, ((n / 0x100) % 0x100) as u8, (n % 0x100) as u8]
}

/// The audio codec id of `onMetaData`.
#[derive(Debug, Clone, Copy, PartialEq, Eq)]
pub enum OnMetaDataAudioCodecId {
    /// A legacy sound format.
    Legacy(SoundFormat),
    /// An enhanced FOURCC.
    Enhanced(AudioFourCc),
}

impl OnMetaDataAudioCodecId {
    /// The codec id that the number `n` stands for: a FOURCC (its big-endian bytes) when `n`
    /// does not fit a byte, else a sound format.
    pub open spec fn spec_from_id(n: u32) -> OnMetaDataAudioCodecId {
        if n > 0xff {
            OnMetaDataAudioCodecId::Enhanced(AudioFourCc::spec_from(be_bytes4(n)))
        } else {
            OnMetaDataAudioCodecId::Legacy(SoundFormat::spec_from(n as u8))
        }
    }

    /// The codec id that the number `n` stands for.
    pub fn from_id(n: u32) -> (r: Self)
        ensures
            r == Self::spec_from_id(n),
    {
        if n > 0xff {
            OnMetaDataAudioCodecId::Enhanced(AudioFourCc::from(to_be_bytes4(n)))
        } else {
            OnMetaDataAudioCodecId::Legacy(SoundFormat::from(n as u8))
        }
    }
}

/// The video codec id of `onMetaData`.
#[derive(Debug, Clone, Copy, PartialEq, Eq)]
pub enum OnMetaDataVideoCodecId {
    /// A legacy codec id.
    Legacy(VideoCodecId),
    /// An enhanced FOURCC.
    Enhanced(VideoFourCc),
}

impl OnMetaDataVideoCodecId {
    /// The codec id that the number `n` stands for: a FOURCC (its big-endian bytes) when `n`
    /// does not fit a byte, else a legacy codec id.
    pub open spec fn spec_from_id(n: u32) -> OnMetaDataVideoCodecId {
        if n > 0xff {
            OnMetaDataVideoCodecId::Enhanced(VideoFourCc::spec_from(be_bytes4(n)))
        } else {
            OnMetaDataVideoCodecId::Legacy(VideoCodecId::spec_from(n as u8))
        }
    }

    /// The codec id that the number `n` stands for.
    pub fn from_id(n: u32) -> (r: Self)
        ensures
            r == Self::spec_from_id(n),
    {
        if n > 0xff {
            OnMetaDataVideoCodecId::Enhanced(VideoFourCc::from(to_be_bytes4(n)))
        } else {
            OnMetaDataVideoCodecId::Legacy(VideoCodecId::from(n as u8))
        }
    }
}

} // verus!
