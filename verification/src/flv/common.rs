//! Types shared by the audio and video tags.
use vstd::prelude::*;

use crate::fmt::{decimal, push_decimal};

verus! {

/// The multitrack type of an enhanced audio or video tag.
#[derive(Debug, Clone, Copy, PartialEq, Eq, Structural)]
pub enum AvMultitrackType {
    /// One track.
    OneTrack,
    /// Many tracks with one codec.
    ManyTracks,
    /// Many tracks with many codecs.
    ManyTracksManyCodecs,
    /// A value without a name.
    Unknown(u8),
}

impl AvMultitrackType {
    /// The value that stands for `v`: its name, where it has one.
    pub open spec fn spec_from(v: u8) -> AvMultitrackType {
        match v {
            0 => AvMultitrackType::OneTrack,
            1 => AvMultitrackType::ManyTracks,
            2 => AvMultitrackType::ManyTracksManyCodecs,
            _ => AvMultitrackType::Unknown(v),
        }
    }

    /// The number that the value stands for.
    pub open spec fn spec_value(self) -> u8 {
        match self {
            AvMultitrackType::OneTrack => 0,
            AvMultitrackType::ManyTracks => 1,
            AvMultitrackType::ManyTracksManyCodecs => 2,
            AvMultitrackType::Unknown(v) => v,
        }
    }

    /// Converts a number to its value.
    pub fn from(v: u8) -> (r: AvMultitrackType)
        ensures
            r == AvMultitrackType::spec_from(v),
    {
        match v {
            0 => AvMultitrackType::OneTrack,
            1 => AvMultitrackType::ManyTracks,
            2 => AvMultitrackType::ManyTracksManyCodecs,
            _ => AvMultitrackType::Unknown(v),
        }
    }

    /// The number that the value stands for.
    pub fn value(&self) -> (r: u8)
        ensures
            r == self.spec_value(),
    {
        match self {
            AvMultitrackType::OneTrack => 0,
            AvMultitrackType::ManyTracks => 1,
            AvMultitrackType::ManyTracksManyCodecs => 2,
            AvMultitrackType::Unknown(v) => *v,
        }
    }

    /// The text that names the value: `Type::Name`, or `Type(number)` for a value without a name.
    pub open spec fn spec_debug_name(self) -> Seq<char> {
        match self {
            AvMultitrackType::OneTrack => "AvMultitrackType::OneTrack"@,
            AvMultitrackType::ManyTracks => "AvMultitrackType::ManyTracks"@,
            AvMultitrackType::ManyTracksManyCodecs => "AvMultitrackType::ManyTracksManyCodecs"@,
            AvMultitrackType::Unknown(v) => "AvMultitrackType("@ + decimal(v as nat) + ")"@,
        }
    }

    /// The text that names the value: `Type::Name`, or `Type(number)` for a value without a name.
    pub fn debug_name(&self) -> (r: String)
        ensures
            r@ == self.spec_debug_name(),
    {
        match self {
            AvMultitrackType::OneTrack => String::from_str("AvMultitrackType::OneTrack"),
            AvMultitrackType::ManyTracks => String::from_str("AvMultitrackType::ManyTracks"),
            AvMultitrackType::ManyTracksManyCodecs => String::from_str("AvMultitrackType::ManyTracksManyCodecs"),
            AvMultitrackType::Unknown(v) => {
                let mut s = String::from_str("AvMultitrackType(");
                push_decimal(&mut s, *v as u64);
                s.append(")");
                s
            },
        }
    }
}

/// Every number reads as a value whose number it is: no number is lost.
pub proof fn lemma_multitrack_numbers_kept(v: u8)
    ensures
        AvMultitrackType::spec_from(v).spec_value() == v,
{
}

} // verus!
