//! A reader of AMF0 values in sequence, one typed read at a time.
use vstd::prelude::*;

use crate::amf0::decoder::{
    spec_all, spec_boolean, spec_long_string, spec_normal_string, spec_number, spec_read_marker,
    steps, str_res, values_res, Amf0Decoder,
};
use crate::amf0::error::Amf0Error;
use crate::amf0::marker::{Amf0Marker, Amf0MarkerSet};
use crate::amf0::value::{values_view, Amf0Value, Amf0ValueView};

verus! {

/// Reads a string, long string or XML document; any other marker is refused with an error
/// that names the string and long string markers.
pub open spec fn spec_de_string(s: Seq<u8>) -> Result<(Seq<char>, nat), Amf0Error> {
    match spec_read_marker(s) {
        Err(e) => Err(e),
        Ok((m, _)) => {
            let t = s.subrange(1, s.len() as int);
            let r = if m == Amf0Marker::String {
                spec_normal_string(t)
            } else if m == Amf0Marker::LongString || m == Amf0Marker::XmlDocument {
                spec_long_string(t)
            } else {
                Err(Amf0Error::UnexpectedType { expected: Amf0MarkerSet::StringOrLongString, got: m })
            };
            match r {
                Ok((c, n)) => Ok((c, 1 + n)),
                Err(e) => Err(e),
            }
        },
    }
}

/// Reads AMF0 values one after another from a byte buffer.
pub struct Deserializer {
    /// The decoder over the buffer.
    pub decoder: Amf0Decoder,
}

impl Deserializer {
    pub open spec fn wf(&self) -> bool {
        self.decoder.wf()
    }

    /// The bytes still to read.
    pub open spec fn input(&self) -> Seq<u8> {
        self.decoder.input()
    }

    /// Creates a reader over `reader`.
    pub fn new(reader: Vec<u8>) -> (r: Self)
        ensures
            r.wf(),
            r.input() == reader@,
    {
        Deserializer { decoder: Amf0Decoder::new(reader) }
    }

    /// Reads a marker that must be in `expect`.
    pub fn expect_marker(&mut self, expect: Amf0MarkerSet) -> (r: Result<Amf0Marker, Amf0Error>)
        requires
            old(self).wf(),
        ensures
            steps(
                old(self).decoder,
                final(self).decoder,
                crate::amf0::decoder::spec_expect_marker(old(self).input(), expect),
                r,
            ),
    {
        self.decoder.expect_marker(expect)
    }

    /// Reads a number or a date, as the bits of its double.
    pub fn read_number(&mut self) -> (r: Result<u64, Amf0Error>)
        requires
            old(self).wf(),
        ensures
            steps(old(self).decoder, final(self).decoder, spec_number(old(self).input()), r),
    {
        self.decoder.decode_number()
    }

    /// Reads a string behind a 16-bit length, without a marker.
    pub fn read_normal_string(&mut self) -> (r: Result<String, Amf0Error>)
        requires
            old(self).wf(),
        ensures
            steps(
                old(self).decoder,
                final(self).decoder,
                spec_normal_string(old(self).input()),
                str_res(r),
            ),
    {
        self.decoder.decode_normal_string()
    }

    /// Reads a string, long string or XML document.
    pub fn read_string(&mut self) -> (r: Result<String, Amf0Error>)
        requires
            old(self).wf(),
        ensures
            steps(old(self).decoder, final(self).decoder, spec_de_string(old(self).input()), str_res(r)),
    {
        let m = self.decoder.peek_marker()?;
        if m == Amf0Marker::String || m == Amf0Marker::LongString || m == Amf0Marker::XmlDocument {
            self.decoder.decode_string()
        } else {
            Err(Amf0Error::UnexpectedType { expected: Amf0MarkerSet::StringOrLongString, got: m })
        }
    }

    /// Reads a boolean.
    pub fn deserialize_bool(&mut self) -> (r: Result<bool, Amf0Error>)
        requires
            old(self).wf(),
        ensures
            steps(old(self).decoder, final(self).decoder, spec_boolean(old(self).input()), r),
    {
        self.decoder.decode_boolean()
    }

    /// Reads values until the input is used up.
    pub fn deserialize_all(&mut self) -> (r: Result<Vec<Amf0Value>, Amf0Error>)
        requires
            old(self).wf(),
        ensures
            final(self).wf(),
            match r {
                Ok(v) => spec_all(old(self).input(), seq![]) == Ok::<Seq<Amf0ValueView>, Amf0Error>(
                    values_view(v@),
                ),
                Err(e) => spec_all(old(self).input(), seq![]) == Err::<Seq<Amf0ValueView>, Amf0Error>(
                    e,
                ),
            },
    {
        self.decoder.decode_all()
    }
}

} // verus!
