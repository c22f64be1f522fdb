//! The AMF0 encoder: writes values as bytes (AMF 0 spec, 2.2 to 2.12).
use vstd::prelude::*;

use vstd::utf8::encode_utf8;

use crate::amf0::error::Amf0Error;
use crate::amf0::value::{lemma_props_view, lemma_values_view, Amf0Value, Amf0ValueView};
use crate::bytes_be::{
    push_slice, push_u16_be, push_u32_be, push_u64_be, u16_bytes, u32_bytes, u64_bytes,
};

verus! {

broadcast use vstd::std_specs::vec::axiom_vec_decreases_to_view;

/// The UTF-8 bytes of a string.
pub open spec fn utf8(s: Seq<char>) -> Seq<u8> {
    encode_utf8(s)
}

/// A string as a value: a string marker and a 16-bit length when it is at most 65535 bytes
/// long, else a long string marker and a 32-bit length; then its bytes.
pub open spec fn string_bytes(s: Seq<char>) -> Seq<u8> {
    let b = utf8(s);
    if b.len() <= 0xffff {
        seq![0x02u8] + u16_bytes(b.len() as u16) + b
    } else {
        seq![0x0cu8] + u32_bytes(b.len() as u32) + b
    }
}

/// An object key: a 16-bit length and the bytes, without a marker.
pub open spec fn key_bytes(k: Seq<char>) -> Seq<u8> {
    u16_bytes(utf8(k).len() as u16) + utf8(k)
}

/// The bytes of a value.
pub open spec fn value_bytes(v: Amf0ValueView) -> Seq<u8>
    decreases v, 1nat,
{
    match v {
        Amf0ValueView::Number(n) => seq![0x00u8] + u64_bytes(n),
        Amf0ValueView::Boolean(b) => seq![0x01u8, if b { 1u8 } else { 0u8 }],
        Amf0ValueView::String(s) => string_bytes(s),
        Amf0ValueView::Object(p) => seq![0x03u8] + props_bytes(p) + seq![0u8, 0u8, 0x09u8],
        Amf0ValueView::Null => seq![0x05u8],
        Amf0ValueView::Array(a) => seq![0x0au8] + u32_bytes(a.len() as u32) + elems_bytes(a),
    }
}

/// The bytes of object properties: each key and its value.
pub open spec fn props_bytes(p: Seq<(Seq<char>, Amf0ValueView)>) -> Seq<u8>
    decreases p, 0nat,
{
    if p.len() == 0 {
        seq![]
    } else {
        props_bytes(p.drop_last()) + key_bytes(p.last().0) + value_bytes(p.last().1)
    }
}

/// The bytes of array elements.
pub open spec fn elems_bytes(a: Seq<Amf0ValueView>) -> Seq<u8>
    decreases a, 0nat,
{
    if a.len() == 0 {
        seq![]
    } else {
        elems_bytes(a.drop_last()) + value_bytes(a.last())
    }
}

/// Every string of the value fits a 32-bit length, every key a 16-bit length and every
/// array a 32-bit length: exactly the values that can be encoded.
pub open spec fn encodable(v: Amf0ValueView) -> bool
    decreases v, 1nat,
{
    match v {
        Amf0ValueView::String(s) => utf8(s).len() <= u32::MAX,
        Amf0ValueView::Object(p) => props_encodable(p),
        Amf0ValueView::Array(a) => a.len() <= u32::MAX && elems_encodable(a),
        _ => true,
    }
}

/// Every key and value of the properties can be encoded.
pub open spec fn props_encodable(p: Seq<(Seq<char>, Amf0ValueView)>) -> bool
    decreases p, 0nat,
{
    if p.len() == 0 {
        true
    } else {
        props_encodable(p.drop_last()) && utf8(p.last().0).len() <= 0xffff && encodable(
            p.last().1,
        )
    }
}

/// Every element can be encoded.
pub open spec fn elems_encodable(a: Seq<Amf0ValueView>) -> bool
    decreases a, 0nat,
{
    if a.len() == 0 {
        true
    } else {
        elems_encodable(a.drop_last()) && encodable(a.last())
    }
}

/// An encoder that appends the bytes of AMF0 values to a byte vector.
pub struct Amf0Encoder {
    /// The bytes written so far.
    pub writer: Vec<u8>,
}

impl Amf0Encoder {
    /// Creates an encoder that appends to `writer`.
    pub fn new(writer: Vec<u8>) -> (r: Self)
        ensures
            r.writer@ == writer@,
    {
        Amf0Encoder { writer }
    }

    /// Writes a boolean.
    pub fn encode_boolean(&mut self, value: bool) -> (r: Result<(), Amf0Error>)
        ensures
            r is Ok,
            final(self).writer@ == old(self).writer@ + value_bytes(Amf0ValueView::Boolean(value)),
    {
        self.writer.push(0x01);
        self.writer.push(if value { 1 } else { 0 });
        assert(self.writer@ =~= old(self).writer@ + value_bytes(Amf0ValueView::Boolean(value)));
        Ok(())
    }

    /// Writes a number given by the bits of its IEEE-754 double.
    pub fn encode_number(&mut self, bits: u64) -> (r: Result<(), Amf0Error>)
        ensures
            r is Ok,
            final(self).writer@ == old(self).writer@ + value_bytes(Amf0ValueView::Number(bits)),
    {
        self.writer.push(0x00);
        push_u64_be(&mut self.writer, bits);
        assert(self.writer@ =~= old(self).writer@ + value_bytes(Amf0ValueView::Number(bits)));
        Ok(())
    }

    /// Writes a string: a long string when it takes more than 65535 bytes; refused with
    /// [`Amf0Error::TooLong`], and nothing written, when it takes more than `u32::MAX` bytes.
    pub fn encode_string(&mut self, value: &str) -> (r: Result<(), Amf0Error>)
        ensures
            match r {
                Ok(()) => utf8(value@).len() <= u32::MAX && final(self).writer@ == old(
                    self,
                ).writer@ + string_bytes(value@),
                Err(e) => e == Amf0Error::TooLong && utf8(value@).len() > u32::MAX
                    && final(self).writer@ == old(self).writer@,
            },
    {
        let bytes = value.as_bytes();
        let len = bytes.len();
        if len <= 0xffff {
            self.writer.push(0x02);
            push_u16_be(&mut self.writer, len as u16);
            push_slice(&mut self.writer, bytes);
        } else {
            if len > 0xffff_ffff {
                return Err(Amf0Error::TooLong);
            }
            self.writer.push(0x0c);
            push_u32_be(&mut self.writer, len as u32);
            push_slice(&mut self.writer, bytes);
        }
        assert(self.writer@ =~= old(self).writer@ + string_bytes(value@));
        Ok(())
    }

    /// Writes null.
    pub fn encode_null(&mut self) -> (r: Result<(), Amf0Error>)
        ensures
            r is Ok,
            final(self).writer@ == old(self).writer@ + seq![0x05u8],
    {
        self.writer.push(0x05);
        Ok(())
    }

    /// Writes undefined.
    pub fn encode_undefined(&mut self) -> (r: Result<(), Amf0Error>)
        ensures
            r is Ok,
            final(self).writer@ == old(self).writer@ + seq![0x06u8],
    {
        self.writer.push(0x06);
        Ok(())
    }

    /// Writes the header of a strict array of `len` elements; refused with
    /// [`Amf0Error::TooLong`], and nothing written, when `len` exceeds `u32::MAX`.
    pub fn encode_array_header(&mut self, len: usize) -> (r: Result<(), Amf0Error>)
        ensures
            match r {
                Ok(()) => len <= u32::MAX && final(self).writer@ == old(self).writer@
                    + seq![0x0au8] + u32_bytes(len as u32),
                Err(e) => e == Amf0Error::TooLong && len > u32::MAX && final(self).writer@
                    == old(self).writer@,
            },
    {
        if len > 0xffff_ffff {
            return Err(Amf0Error::TooLong);
        }
        self.writer.push(0x0a);
        push_u32_be(&mut self.writer, len as u32);
        Ok(())
    }

    /// Writes the marker that opens an object.
    pub fn encode_object_header(&mut self) -> (r: Result<(), Amf0Error>)
        ensures
            r is Ok,
            final(self).writer@ == old(self).writer@ + seq![0x03u8],
    {
        self.writer.push(0x03);
        Ok(())
    }

    /// Writes an object key; refused with [`Amf0Error::TooLong`], and nothing written, when
    /// it takes more than 65535 bytes.
    pub fn encode_object_key(&mut self, key: &str) -> (r: Result<(), Amf0Error>)
        ensures
            match r {
                Ok(()) => utf8(key@).len() <= 0xffff && final(self).writer@ == old(self).writer@
                    + key_bytes(key@),
                Err(e) => e == Amf0Error::TooLong && utf8(key@).len() > 0xffff
                    && final(self).writer@ == old(self).writer@,
            },
    {
        let bytes = key.as_bytes();
        if bytes.len() > 0xffff {
            return Err(Amf0Error::TooLong);
        }
        push_u16_be(&mut self.writer, bytes.len() as u16);
        push_slice(&mut self.writer, bytes);
        assert(self.writer@ =~= old(self).writer@ + key_bytes(key@));
        Ok(())
    }

    /// Writes the empty key and the object end marker that close an object.
    pub fn encode_object_trailer(&mut self) -> (r: Result<(), Amf0Error>)
        ensures
            r is Ok,
            final(self).writer@ == old(self).writer@ + seq![0u8, 0u8, 0x09u8],
    {
        self.writer.push(0);
        self.writer.push(0);
        self.writer.push(0x09);
        assert(self.writer@ =~= old(self).writer@ + seq![0u8, 0u8, 0x09u8]);
        Ok(())
    }

    /// Writes a strict array of values. It fails with [`Amf0Error::TooLong`] exactly when
    /// some string, key or array in it is too long for its length field; what was written
    /// before the failure stays.
    pub fn encode_array(&mut self, values: &Vec<Amf0Value>) -> (r: Result<(), Amf0Error>)
        ensures
            match r {
                Ok(()) => encodable(Amf0ValueView::Array(values_view_of(values)))
                    && final(self).writer@ == old(self).writer@ + value_bytes(
                    Amf0ValueView::Array(values_view_of(values)),
                ),
                Err(e) => e == Amf0Error::TooLong && !encodable(
                    Amf0ValueView::Array(values_view_of(values)),
                ),
            },
    {
        let ghost o = self.writer@;
        proof {
            lemma_values_view(values@);
        }
        self.encode_array_header(values.len())?;
        let r = write_elems(values, &mut self.writer);
        match r {
            Ok(()) => {
                assert(self.writer@ =~= o + value_bytes(
                    Amf0ValueView::Array(values_view_of(values)),
                ));
                Ok(())
            },
            Err(e) => Err(e),
        }
    }

    /// Writes an object of properties. It fails with [`Amf0Error::TooLong`] exactly when some
    /// string, key or array in it is too long for its length field; what was written before
    /// the failure stays.
    pub fn encode_object(&mut self, props: &Vec<(String, Amf0Value)>) -> (r: Result<(), Amf0Error>)
        ensures
            match r {
                Ok(()) => encodable(Amf0ValueView::Object(props_view_of(props)))
                    && final(self).writer@ == old(self).writer@ + value_bytes(
                    Amf0ValueView::Object(props_view_of(props)),
                ),
                Err(e) => e == Amf0Error::TooLong && !encodable(
                    Amf0ValueView::Object(props_view_of(props)),
                ),
            },
    {
        let ghost o = self.writer@;
        self.writer.push(0x03);
        let r = write_props(props, &mut self.writer);
        match r {
            Ok(()) => {
                self.writer.push(0);
                self.writer.push(0);
                self.writer.push(0x09);
                assert(self.writer@ =~= o + value_bytes(
                    Amf0ValueView::Object(props_view_of(props)),
                ));
                Ok(())
            },
            Err(e) => Err(e),
        }
    }
}

/// The views of a vector of values.
pub open spec fn values_view_of(v: &Vec<Amf0Value>) -> Seq<Amf0ValueView> {
    crate::amf0::value::values_view(v@)
}

/// The views of a vector of properties.
pub open spec fn props_view_of(p: &Vec<(String, Amf0Value)>) -> Seq<(Seq<char>, Amf0ValueView)> {
    crate::amf0::value::props_view(p@)
}

/// Appends the bytes of a value.
pub fn write_value(v: &Amf0Value, out: &mut Vec<u8>) -> (r: Result<(), Amf0Error>)
    ensures
        match r {
            Ok(()) => encodable(v@) && final(out)@ == old(out)@ + value_bytes(v@),
            Err(e) => e == Amf0Error::TooLong && !encodable(v@),
        },
    decreases v, 1nat,
{
    match v {
        Amf0Value::Number(n) => {
            out.push(0x00);
            push_u64_be(out, *n);
            assert(out@ =~= old(out)@ + value_bytes(v@));
            Ok(())
        },
        Amf0Value::Boolean(b) => {
            out.push(0x01);
            out.push(if *b { 1 } else { 0 });
            assert(out@ =~= old(out)@ + value_bytes(v@));
            Ok(())
        },
        Amf0Value::String(s) => {
            let bytes = s.as_str().as_bytes();
            let len = bytes.len();
            if len <= 0xffff {
                out.push(0x02);
                push_u16_be(out, len as u16);
                push_slice(out, bytes);
            } else {
                if len > 0xffff_ffff {
                    return Err(Amf0Error::TooLong);
                }
                out.push(0x0c);
                push_u32_be(out, len as u32);
                push_slice(out, bytes);
            }
            assert(out@ =~= old(out)@ + value_bytes(v@));
            Ok(())
        },
        Amf0Value::Object(p) => {
            out.push(0x03);
            write_props(p, out)?;
            out.push(0);
            out.push(0);
            out.push(0x09);
            assert(out@ =~= old(out)@ + value_bytes(v@));
            Ok(())
        },
        Amf0Value::Null => {
            out.push(0x05);
            assert(out@ =~= old(out)@ + value_bytes(v@));
            Ok(())
        },
        Amf0Value::Array(a) => {
            proof {
                lemma_values_view(a@);
            }
            if a.len() > 0xffff_ffff {
                return Err(Amf0Error::TooLong);
            }
            out.push(0x0a);
            push_u32_be(out, a.len() as u32);
            write_elems(a, out)?;
            assert(out@ =~= old(out)@ + value_bytes(v@));
            Ok(())
        },
    }
}

/// Appends the bytes of array elements.
fn write_elems(a: &Vec<Amf0Value>, out: &mut Vec<u8>) -> (r: Result<(), Amf0Error>)
    ensures
        match r {
            Ok(()) => elems_encodable(values_view_of(a)) && final(out)@ == old(out)@ + elems_bytes(
                values_view_of(a),
            ),
            Err(e) => e == Amf0Error::TooLong && !elems_encodable(values_view_of(a)),
        },
    decreases a, 0nat,
{
    proof {
        lemma_values_view(a@);
    }
    let mut i: usize = 0;
    while i < a.len()
        invariant
            i <= a.len(),
            values_view_of(a).len() == a@.len(),
            forall|j: int| 0 <= j < a@.len() ==> #[trigger] values_view_of(a)[j] == a@[j]@,
            elems_encodable(values_view_of(a).subrange(0, i as int)),
            out@ == old(out)@ + elems_bytes(values_view_of(a).subrange(0, i as int)),
        decreases a.len() - i,
    {
        proof {
            assert(decreases_to!(a => a@[i as int]));
        }
        let ghost before = out@;
        let r = write_value(&a[i], out);
        let ghost pre = values_view_of(a).subrange(0, i as int);
        let ghost post = values_view_of(a).subrange(0, i + 1);
        assert(post.drop_last() =~= pre);
        assert(post.last() == a@[i as int]@);
        match r {
            Ok(()) => {},
            Err(e) => {
                proof {
                    if elems_encodable(values_view_of(a)) {
                        lemma_elems_encodable_prefix(values_view_of(a), i + 1);
                    }
                }
                return Err(e);
            },
        }
        i = i + 1;
    }
    assert(values_view_of(a).subrange(0, a.len() as int) =~= values_view_of(a));
    Ok(())
}

/// Appends the bytes of object properties.
fn write_props(p: &Vec<(String, Amf0Value)>, out: &mut Vec<u8>) -> (r: Result<(), Amf0Error>)
    ensures
        match r {
            Ok(()) => props_encodable(props_view_of(p)) && final(out)@ == old(out)@ + props_bytes(
                props_view_of(p),
            ),
            Err(e) => e == Amf0Error::TooLong && !props_encodable(props_view_of(p)),
        },
    decreases p, 0nat,
{
    proof {
        lemma_props_view(p@);
    }
    let mut i: usize = 0;
    while i < p.len()
        invariant
            i <= p.len(),
            props_view_of(p).len() == p@.len(),
            forall|j: int| 0 <= j < p@.len() ==> #[trigger] props_view_of(p)[j] == (p@[j].0@, p@[j].1@),
            props_encodable(props_view_of(p).subrange(0, i as int)),
            out@ == old(out)@ + props_bytes(props_view_of(p).subrange(0, i as int)),
        decreases p.len() - i,
    {
        let ghost pre = props_view_of(p).subrange(0, i as int);
        let ghost post = props_view_of(p).subrange(0, i + 1);
        assert(post.drop_last() =~= pre);
        let (key, value) = &p[i];
        assert(post.last() == (key@, value@));
        let kb = key.as_str().as_bytes();
        if kb.len() > 0xffff {
            proof {
                if props_encodable(props_view_of(p)) {
                    lemma_props_encodable_prefix(props_view_of(p), i + 1);
                }
            }
            return Err(Amf0Error::TooLong);
        }
        let ghost before = out@;
        push_u16_be(out, kb.len() as u16);
        push_slice(out, kb);
        proof {
            assert(decreases_to!(p => p@[i as int]));
            assert(decreases_to!(p@[i as int] => p@[i as int].1));
        }
        let r = write_value(value, out);
        match r {
            Ok(()) => {},
            Err(e) => {
                proof {
                    if props_encodable(props_view_of(p)) {
                        lemma_props_encodable_prefix(props_view_of(p), i + 1);
                    }
                }
                return Err(e);
            },
        }
        assert(out@ =~= old(out)@ + props_bytes(post));
        i = i + 1;
    }
    assert(props_view_of(p).subrange(0, p.len() as int) =~= props_view_of(p));
    Ok(())
}

/// A sequence of elements can be encoded only if each prefix can.
pub proof fn lemma_elems_encodable_prefix(a: Seq<Amf0ValueView>, k: int)
    requires
        0 <= k <= a.len(),
        elems_encodable(a),
    ensures
        elems_encodable(a.subrange(0, k)),
    decreases a.len() - k,
{
    if k < a.len() {
        lemma_elems_encodable_prefix(a, k + 1);
        assert(a.subrange(0, k + 1).drop_last() =~= a.subrange(0, k));
    } else {
        assert(a.subrange(0, k) =~= a);
    }
}

/// A sequence of properties can be encoded only if each prefix can.
pub proof fn lemma_props_encodable_prefix(p: Seq<(Seq<char>, Amf0ValueView)>, k: int)
    requires
        0 <= k <= p.len(),
        props_encodable(p),
    ensures
        props_encodable(p.subrange(0, k)),
    decreases p.len() - k,
{
    if k < p.len() {
        lemma_props_encodable_prefix(p, k + 1);
        assert(p.subrange(0, k + 1).drop_last() =~= p.subrange(0, k));
    } else {
        assert(p.subrange(0, k) =~= p);
    }
}

impl Amf0Value {
    /// Writes the value with the encoder. It fails with [`Amf0Error::TooLong`] exactly when
    /// some string, key or array in it is too long for its length field.
    pub fn encode(&self, encoder: &mut Amf0Encoder) -> (r: Result<(), Amf0Error>)
        ensures
            match r {
                Ok(()) => encodable(self@) && final(encoder).writer@ == old(encoder).writer@
                    + value_bytes(self@),
                Err(e) => e == Amf0Error::TooLong && !encodable(self@),
            },
    {
        write_value(self, &mut encoder.writer)
    }
}

/// The bytes of a value, or [`Amf0Error::TooLong`] when some string, key or array in it is too
/// long for its length field.
pub fn to_bytes(value: &Amf0Value) -> (r: Result<Vec<u8>, Amf0Error>)
    ensures
        match r {
            Ok(b) => encodable(value@) && b@ == value_bytes(value@),
            Err(e) => e == Amf0Error::TooLong && !encodable(value@),
        },
{
    let mut out: Vec<u8> = Vec::new();
    write_value(value, &mut out)?;
    assert(out@ =~= value_bytes(value@));
    Ok(out)
}

} // verus!
