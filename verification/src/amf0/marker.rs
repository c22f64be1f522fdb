//! The one-byte markers that open AMF0 values (AMF 0 spec, 2.1).
use vstd::prelude::*;

verus! {

/// The type marker of an AMF0 value.
#[derive(Debug, Clone, Copy, PartialEq, Eq, Structural)]
pub enum Amf0Marker {
    /// Number (0x00).
    Number,
    /// Boolean (0x01).
    Boolean,
    /// String (0x02).
    String,
    /// Object (0x03).
    Object,
    /// Movie clip, reserved (0x04).
    MovieClipMarker,
    /// Null (0x05).
    Null,
    /// Undefined (0x06).
    Undefined,
    /// Reference (0x07).
    Reference,
    /// ECMA array (0x08).
    EcmaArray,
    /// Object end (0x09).
    ObjectEnd,
    /// Strict array (0x0a).
    StrictArray,
    /// Date (0x0b).
    Date,
    /// Long string (0x0c).
    LongString,
    /// Unsupported (0x0d).
    Unsupported,
    /// Recordset, reserved (0x0e).
    Recordset,
    /// XML document (0x0f).
    XmlDocument,
    /// Typed object (0x10).
    TypedObject,
    /// Switch to AMF3 (0x11).
    AVMPlusObject,
}

impl Amf0Marker {
    /// The marker that a byte stands for, if any.
    pub open spec fn spec_from_u8(v: u8) -> Option<Amf0Marker> {
        match v {
            0x00 => Some(Amf0Marker::Number),
            0x01 => Some(Amf0Marker::Boolean),
            0x02 => Some(Amf0Marker::String),
            0x03 => Some(Amf0Marker::Object),
            0x04 => Some(Amf0Marker::MovieClipMarker),
            0x05 => Some(Amf0Marker::Null),
            0x06 => Some(Amf0Marker::Undefined),
            0x07 => Some(Amf0Marker::Reference),
            0x08 => Some(Amf0Marker::EcmaArray),
            0x09 => Some(Amf0Marker::ObjectEnd),
            0x0a => Some(Amf0Marker::StrictArray),
            0x0b => Some(Amf0Marker::Date),
            0x0c => Some(Amf0Marker::LongString),
            0x0d => Some(Amf0Marker::Unsupported),
            0x0e => Some(Amf0Marker::Recordset),
            0x0f => Some(Amf0Marker::XmlDocument),
            0x10 => Some(Amf0Marker::TypedObject),
            0x11 => Some(Amf0Marker::AVMPlusObject),
            _ => None,
        }
    }

    /// The byte of the marker.
    pub open spec fn spec_value(self) -> u8 {
        match self {
            Amf0Marker::Number => 0x00,
            Amf0Marker::Boolean => 0x01,
            Amf0Marker::String => 0x02,
            Amf0Marker::Object => 0x03,
            Amf0Marker::MovieClipMarker => 0x04,
            Amf0Marker::Null => 0x05,
            Amf0Marker::Undefined => 0x06,
            Amf0Marker::Reference => 0x07,
            Amf0Marker::EcmaArray => 0x08,
            Amf0Marker::ObjectEnd => 0x09,
            Amf0Marker::StrictArray => 0x0a,
            Amf0Marker::Date => 0x0b,
            Amf0Marker::LongString => 0x0c,
            Amf0Marker::Unsupported => 0x0d,
            Amf0Marker::Recordset => 0x0e,
            Amf0Marker::XmlDocument => 0x0f,
            Amf0Marker::TypedObject => 0x10,
            Amf0Marker::AVMPlusObject => 0x11,
        }
    }

    /// The marker that a byte stands for, if any.
    pub fn from_u8(v: u8) -> (r: Option<Amf0Marker>)
        ensures
            r == Amf0Marker::spec_from_u8(v),
    {
        match v {
            0x00 => Some(Amf0Marker::Number),
            0x01 => Some(Amf0Marker::Boolean),
            0x02 => Some(Amf0Marker::String),
            0x03 => Some(Amf0Marker::Object),
            0x04 => Some(Amf0Marker::MovieClipMarker),
            0x05 => Some(Amf0Marker::Null),
            0x06 => Some(Amf0Marker::Undefined),
            0x07 => Some(Amf0Marker::Reference),
            0x08 => Some(Amf0Marker::EcmaArray),
            0x09 => Some(Amf0Marker::ObjectEnd),
            0x0a => Some(Amf0Marker::StrictArray),
            0x0b => Some(Amf0Marker::Date),
            0x0c => Some(Amf0Marker::LongString),
            0x0d => Some(Amf0Marker::Unsupported),
            0x0e => Some(Amf0Marker::Recordset),
            0x0f => Some(Amf0Marker::XmlDocument),
            0x10 => Some(Amf0Marker::TypedObject),
            0x11 => Some(Amf0Marker::AVMPlusObject),
            _ => None,
        }
    }

    /// The byte of the marker.
    pub fn value(&self) -> (r: u8)
        ensures
            r == self.spec_value(),
    {
        match self {
            Amf0Marker::Number => 0x00,
            Amf0Marker::Boolean => 0x01,
            Amf0Marker::String => 0x02,
            Amf0Marker::Object => 0x03,
            Amf0Marker::MovieClipMarker => 0x04,
            Amf0Marker::Null => 0x05,
            Amf0Marker::Undefined => 0x06,
            Amf0Marker::Reference => 0x07,
            Amf0Marker::EcmaArray => 0x08,
            Amf0Marker::ObjectEnd => 0x09,
            Amf0Marker::StrictArray => 0x0a,
            Amf0Marker::Date => 0x0b,
            Amf0Marker::LongString => 0x0c,
            Amf0Marker::Unsupported => 0x0d,
            Amf0Marker::Recordset => 0x0e,
            Amf0Marker::XmlDocument => 0x0f,
            Amf0Marker::TypedObject => 0x10,
            Amf0Marker::AVMPlusObject => 0x11,
        }
    }
}

/// A marker's byte reads back as the marker.
pub proof fn lemma_marker_roundtrip(m: Amf0Marker)
    ensures
        Amf0Marker::spec_from_u8(m.spec_value()) == Some(m),
{
}

/// The markers that a read accepts.
#[derive(Debug, Clone, Copy, PartialEq, Eq, Structural)]
pub enum Amf0MarkerSet {
    /// Number or date.
    NumberOrDate,
    /// Boolean.
    Boolean,
    /// String, long string or XML document.
    AnyString,
    /// String or long string.
    StringOrLongString,
    /// Null or undefined.
    NullOrUndefined,
    /// Object, typed object or ECMA array.
    AnyObject,
    /// Strict array.
    StrictArray,
}

impl Amf0MarkerSet {
    /// Whether the set holds `m`.
    pub open spec fn spec_contains(self, m: Amf0Marker) -> bool {
        match self {
            Amf0MarkerSet::NumberOrDate => m == Amf0Marker::Number || m == Amf0Marker::Date,
            Amf0MarkerSet::Boolean => m == Amf0Marker::Boolean,
            Amf0MarkerSet::AnyString => m == Amf0Marker::String || m == Amf0Marker::LongString
                || m == Amf0Marker::XmlDocument,
            Amf0MarkerSet::StringOrLongString => m == Amf0Marker::String || m
                == Amf0Marker::LongString,
            Amf0MarkerSet::NullOrUndefined => m == Amf0Marker::Null || m == Amf0Marker::Undefined,
            Amf0MarkerSet::AnyObject => m == Amf0Marker::Object || m == Amf0Marker::TypedObject || m
                == Amf0Marker::EcmaArray,
            Amf0MarkerSet::StrictArray => m == Amf0Marker::StrictArray,
        }
    }

    /// Whether the set holds `m`.
    pub fn contains(&self, m: Amf0Marker) -> (r: bool)
        ensures
            r == self.spec_contains(m),
    {
        match self {
            Amf0MarkerSet::NumberOrDate => m == Amf0Marker::Number || m == Amf0Marker::Date,
            Amf0MarkerSet::Boolean => m == Amf0Marker::Boolean,
            Amf0MarkerSet::AnyString => m == Amf0Marker::String || m == Amf0Marker::LongString
                || m == Amf0Marker::XmlDocument,
            Amf0MarkerSet::StringOrLongString => m == Amf0Marker::String || m
                == Amf0Marker::LongString,
            Amf0MarkerSet::NullOrUndefined => m == Amf0Marker::Null || m == Amf0Marker::Undefined,
            Amf0MarkerSet::AnyObject => m == Amf0Marker::Object || m == Amf0Marker::TypedObject || m
                == Amf0Marker::EcmaArray,
            Amf0MarkerSet::StrictArray => m == Amf0Marker::StrictArray,
        }
    }

    /// The markers of the set, in the order the error message lists them.
    pub fn markers(&self) -> (r: Vec<Amf0Marker>)
        ensures
            forall|m: Amf0Marker| r@.contains(m) <==> self.spec_contains(m),
    {
        let r = match self {
            Amf0MarkerSet::NumberOrDate => vec![Amf0Marker::Number, Amf0Marker::Date],
            Amf0MarkerSet::Boolean => vec![Amf0Marker::Boolean],
            Amf0MarkerSet::AnyString => vec![
                Amf0Marker::String,
                Amf0Marker::LongString,
                Amf0Marker::XmlDocument,
            ],
            Amf0MarkerSet::StringOrLongString => vec![Amf0Marker::String, Amf0Marker::LongString],
            Amf0MarkerSet::NullOrUndefined => vec![Amf0Marker::Null, Amf0Marker::Undefined],
            Amf0MarkerSet::AnyObject => vec![
                Amf0Marker::Object,
                Amf0Marker::TypedObject,
                Amf0Marker::EcmaArray,
            ],
            Amf0MarkerSet::StrictArray => vec![Amf0Marker::StrictArray],
        };
        assert forall|m: Amf0Marker| r@.contains(m) <==> self.spec_contains(m) by {
            if self.spec_contains(m) {
                assert(r@.contains(m)) by {
                    let i = choose|i: int| 0 <= i < r@.len() && r@[i] == m;
                }
            }
        }
        r
    }
}

} // verus!
