//! The AMF0 decoder: reads values from bytes. Peeking at a marker reads it without taking it.
use vstd::prelude::*;

use vstd::utf8::{decode_utf8, valid_utf8};

use crate::amf0::error::Amf0Error;
use crate::amf0::keys::{lemma_all_unique, lemma_value_unique};
use crate::amf0::roundtrip::{elems_keys_unique, keys_unique};
use crate::amf0::marker::{Amf0Marker, Amf0MarkerSet};
use crate::amf0::value::{lemma_props_view, props_view, values_view, Amf0Value, Amf0ValueView};
use crate::cursor::{be16, be32, be64, ByteCursor};
use crate::error::IoError;

verus! {

/// The string whose UTF-8 bytes are `bytes`, or [`Amf0Error::StringParseError`].
pub open spec fn spec_utf8(bytes: Seq<u8>) -> Result<Seq<char>, Amf0Error> {
    if valid_utf8(bytes) {
        Ok(decode_utf8(bytes))
    } else {
        Err(Amf0Error::StringParseError)
    }
}

/// Reads a marker from the front of `s`.
pub open spec fn spec_read_marker(s: Seq<u8>) -> Result<(Amf0Marker, nat), Amf0Error> {
    if s.len() == 0 {
        Err(Amf0Error::Io(IoError::UnexpectedEof))
    } else {
        match Amf0Marker::spec_from_u8(s[0]) {
            Some(m) => Ok((m, 1)),
            None => Err(Amf0Error::UnknownMarker(s[0])),
        }
    }
}

/// Reads a marker that must be in `set`.
pub open spec fn spec_expect_marker(s: Seq<u8>, set: Amf0MarkerSet) -> Result<
    (Amf0Marker, nat),
    Amf0Error,
> {
    match spec_read_marker(s) {
        Ok((m, n)) => if set.spec_contains(m) {
            Ok((m, n))
        } else {
            Err(Amf0Error::UnexpectedType { expected: set, got: m })
        },
        Err(e) => Err(e),
    }
}

/// Reads a string of `len` bytes that follow a length field of `skip` bytes.
pub open spec fn spec_string_body(s: Seq<u8>, skip: nat, len: nat) -> Result<(Seq<char>, nat), Amf0Error> {
    if s.len() < skip + len {
        Err(Amf0Error::Io(IoError::UnexpectedEof))
    } else {
        match spec_utf8(s.subrange(skip as int, (skip + len) as int)) {
            Ok(c) => Ok((c, skip + len)),
            Err(e) => Err(e),
        }
    }
}

/// Reads a string behind a 16-bit length, without a marker.
pub open spec fn spec_normal_string(s: Seq<u8>) -> Result<(Seq<char>, nat), Amf0Error> {
    if s.len() < 2 {
        Err(Amf0Error::Io(IoError::UnexpectedEof))
    } else {
        spec_string_body(s, 2, be16(s))
    }
}

/// Reads a string behind a 32-bit length, without a marker.
pub open spec fn spec_long_string(s: Seq<u8>) -> Result<(Seq<char>, nat), Amf0Error> {
    if s.len() < 4 {
        Err(Amf0Error::Io(IoError::UnexpectedEof))
    } else {
        spec_string_body(s, 4, be32(s))
    }
}

/// The first index of a property with key `k`, if any.
pub open spec fn find_key(p: Seq<(Seq<char>, Amf0ValueView)>, k: Seq<char>) -> Option<int>
    decreases p.len(),
{
    if p.len() == 0 {
        None
    } else {
        match find_key(p.drop_last(), k) {
            Some(i) => Some(i),
            None => if p.last().0 == k {
                Some(p.len() - 1)
            } else {
                None
            },
        }
    }
}

/// Sets a property: a property with the same key gets the new value in its place, else the
/// property is added at the end.
pub open spec fn insert_prop(p: Seq<(Seq<char>, Amf0ValueView)>, k: Seq<char>, v: Amf0ValueView) -> Seq<
    (Seq<char>, Amf0ValueView),
> {
    match find_key(p, k) {
        Some(i) => p.update(i, (k, v)),
        None => p.push((k, v)),
    }
}

/// Reads a boolean value.
pub open spec fn spec_boolean(s: Seq<u8>) -> Result<(bool, nat), Amf0Error> {
    match spec_expect_marker(s, Amf0MarkerSet::Boolean) {
        Err(e) => Err(e),
        Ok(_) => if s.len() < 2 {
            Err(Amf0Error::Io(IoError::UnexpectedEof))
        } else {
            Ok((s[1] != 0, 2))
        },
    }
}

/// Reads a number or a date (whose time zone is skipped), as the bits of its double.
pub open spec fn spec_number(s: Seq<u8>) -> Result<(u64, nat), Amf0Error> {
    match spec_expect_marker(s, Amf0MarkerSet::NumberOrDate) {
        Err(e) => Err(e),
        Ok((m, _)) => {
            let t = s.subrange(1, s.len() as int);
            if t.len() < 8 {
                Err(Amf0Error::Io(IoError::UnexpectedEof))
            } else if m == Amf0Marker::Date {
                if t.len() < 10 {
                    Err(Amf0Error::Io(IoError::UnexpectedEof))
                } else {
                    Ok((be64(t) as u64, 11))
                }
            } else {
                Ok((be64(t) as u64, 9))
            }
        },
    }
}

/// Reads a string, long string or XML document.
pub open spec fn spec_string(s: Seq<u8>) -> Result<(Seq<char>, nat), Amf0Error> {
    match spec_expect_marker(s, Amf0MarkerSet::AnyString) {
        Err(e) => Err(e),
        Ok((m, _)) => {
            let t = s.subrange(1, s.len() as int);
            match if m == Amf0Marker::String {
                spec_normal_string(t)
            } else {
                spec_long_string(t)
            } {
                Ok((c, n)) => Ok((c, 1 + n)),
                Err(e) => Err(e),
            }
        },
    }
}

/// Reads null or undefined.
pub open spec fn spec_null(s: Seq<u8>) -> Result<((), nat), Amf0Error> {
    match spec_expect_marker(s, Amf0MarkerSet::NullOrUndefined) {
        Err(e) => Err(e),
        Ok(_) => Ok(((), 1)),
    }
}

/// Reads an object key: `None` for the empty key followed by the object end marker, which
/// are both taken; after another empty key the next marker is left to be read.
pub open spec fn spec_object_key(s: Seq<u8>) -> Result<(Option<Seq<char>>, nat), Amf0Error> {
    match spec_normal_string(s) {
        Err(e) => Err(e),
        Ok((k, kn)) => if k.len() == 0 {
            match spec_read_marker(s.subrange(kn as int, s.len() as int)) {
                Err(e) => Err(e),
                Ok((m, _)) => if m == Amf0Marker::ObjectEnd {
                    Ok((None, kn + 1))
                } else {
                    Ok((Some(k), kn))
                },
            }
        } else {
            Ok((Some(k), kn))
        },
    }
}

/// Reads an object, a typed object (whose class name is dropped) or an ECMA array.
pub open spec fn spec_object(s: Seq<u8>) -> Result<(Seq<(Seq<char>, Amf0ValueView)>, nat), Amf0Error>
    decreases s.len(), 1nat,
{
    match spec_expect_marker(s, Amf0MarkerSet::AnyObject) {
        Err(e) => Err(e),
        Ok((m, _)) => {
            let t = s.subrange(1, s.len() as int);
            if m == Amf0Marker::Object {
                match spec_props(t, seq![]) {
                    Ok((p, n)) => Ok((p, 1 + n)),
                    Err(e) => Err(e),
                }
            } else if m == Amf0Marker::TypedObject {
                match spec_normal_string(t) {
                    Err(e) => Err(e),
                    Ok((_, n1)) => if n1 > t.len() {
                        Err(Amf0Error::Io(IoError::UnexpectedEof))
                    } else {
                        match spec_props(t.subrange(n1 as int, t.len() as int), seq![]) {
                            Ok((p, n)) => Ok((p, 1 + n1 + n)),
                            Err(e) => Err(e),
                        }
                    },
                }
            } else if t.len() < 4 {
                Err(Amf0Error::Io(IoError::UnexpectedEof))
            } else {
                match spec_ecma(t.subrange(4, t.len() as int), be32(t), seq![]) {
                    Ok((p, n)) => Ok((p, 5 + n)),
                    Err(e) => Err(e),
                }
            }
        },
    }
}

/// Reads a strict array.
pub open spec fn spec_array(s: Seq<u8>) -> Result<(Seq<Amf0ValueView>, nat), Amf0Error>
    decreases s.len(), 1nat,
{
    match spec_expect_marker(s, Amf0MarkerSet::StrictArray) {
        Err(e) => Err(e),
        Ok(_) => {
            let t = s.subrange(1, s.len() as int);
            if t.len() < 4 {
                Err(Amf0Error::Io(IoError::UnexpectedEof))
            } else {
                match spec_elems(t.subrange(4, t.len() as int), be32(t), seq![]) {
                    Ok((a, n)) => Ok((a, 5 + n)),
                    Err(e) => Err(e),
                }
            }
        },
    }
}

/// Reads a value from the front of `s`: the value and the number of bytes it takes. Markers
/// without a value that this decoder reads give [`Amf0Error::UnsupportedMarker`].
pub open spec fn spec_value(s: Seq<u8>) -> Result<(Amf0ValueView, nat), Amf0Error>
    decreases s.len(), 2nat,
{
    match spec_read_marker(s) {
        Err(e) => Err(e),
        Ok((m, _)) => match m {
            Amf0Marker::Boolean => match spec_boolean(s) {
                Ok((b, n)) => Ok((Amf0ValueView::Boolean(b), n)),
                Err(e) => Err(e),
            },
            Amf0Marker::Number | Amf0Marker::Date => match spec_number(s) {
                Ok((x, n)) => Ok((Amf0ValueView::Number(x), n)),
                Err(e) => Err(e),
            },
            Amf0Marker::String | Amf0Marker::LongString | Amf0Marker::XmlDocument => match spec_string(
                s,
            ) {
                Ok((c, n)) => Ok((Amf0ValueView::String(c), n)),
                Err(e) => Err(e),
            },
            Amf0Marker::Null | Amf0Marker::Undefined => Ok((Amf0ValueView::Null, 1)),
            Amf0Marker::Object | Amf0Marker::TypedObject | Amf0Marker::EcmaArray => match spec_object(
                s,
            ) {
                Ok((p, n)) => Ok((Amf0ValueView::Object(p), n)),
                Err(e) => Err(e),
            },
            Amf0Marker::StrictArray => match spec_array(s) {
                Ok((a, n)) => Ok((Amf0ValueView::Array(a), n)),
                Err(e) => Err(e),
            },
            _ => Err(Amf0Error::UnsupportedMarker(m)),
        },
    }
}

/// Reads object properties after `acc` up to the end of the object.
pub open spec fn spec_props(s: Seq<u8>, acc: Seq<(Seq<char>, Amf0ValueView)>) -> Result<
    (Seq<(Seq<char>, Amf0ValueView)>, nat),
    Amf0Error,
>
    decreases s.len(), 3nat,
{
    match spec_object_key(s) {
        Err(e) => Err(e),
        Ok((None, n)) => Ok((acc, n)),
        Ok((Some(k), kn)) => if kn < 2 || kn > s.len() {
            Err(Amf0Error::Io(IoError::UnexpectedEof))
        } else {
            let t = s.subrange(kn as int, s.len() as int);
            match spec_value(t) {
                Err(e) => Err(e),
                Ok((v, vn)) => if vn < 1 || vn > t.len() {
                    Err(Amf0Error::Io(IoError::UnexpectedEof))
                } else {
                    match spec_props(t.subrange(vn as int, t.len() as int), insert_prop(acc, k, v)) {
                        Ok((p, n)) => Ok((p, kn + vn + n)),
                        Err(e) => Err(e),
                    }
                },
            }
        },
    }
}

/// Reads `count` ECMA array entries after `acc`, then the object end marker when it is next;
/// another marker is left to be read.
pub open spec fn spec_ecma(s: Seq<u8>, count: nat, acc: Seq<(Seq<char>, Amf0ValueView)>) -> Result<
    (Seq<(Seq<char>, Amf0ValueView)>, nat),
    Amf0Error,
>
    decreases s.len(), 3nat,
{
    if count == 0 {
        match spec_read_marker(s) {
            Err(e) => Err(e),
            Ok((m, _)) => if m == Amf0Marker::ObjectEnd {
                Ok((acc, 1))
            } else {
                Ok((acc, 0))
            },
        }
    } else {
        match spec_normal_string(s) {
            Err(e) => Err(e),
            Ok((k, kn)) => if kn < 2 || kn > s.len() {
                Err(Amf0Error::Io(IoError::UnexpectedEof))
            } else {
                let t = s.subrange(kn as int, s.len() as int);
                match spec_value(t) {
                    Err(e) => Err(e),
                    Ok((v, vn)) => if vn < 1 || vn > t.len() {
                        Err(Amf0Error::Io(IoError::UnexpectedEof))
                    } else {
                        match spec_ecma(
                            t.subrange(vn as int, t.len() as int),
                            (count - 1) as nat,
                            insert_prop(acc, k, v),
                        ) {
                            Ok((p, n)) => Ok((p, kn + vn + n)),
                            Err(e) => Err(e),
                        }
                    },
                }
            },
        }
    }
}

/// Reads `count` values after `acc`.
pub open spec fn spec_elems(s: Seq<u8>, count: nat, acc: Seq<Amf0ValueView>) -> Result<
    (Seq<Amf0ValueView>, nat),
    Amf0Error,
>
    decreases s.len(), 3nat,
{
    if count == 0 {
        Ok((acc, 0))
    } else {
        match spec_value(s) {
            Err(e) => Err(e),
            Ok((v, vn)) => if vn < 1 || vn > s.len() {
                Err(Amf0Error::Io(IoError::UnexpectedEof))
            } else {
                match spec_elems(s.subrange(vn as int, s.len() as int), (count - 1) as nat, acc.push(v)) {
                    Ok((a, n)) => Ok((a, vn + n)),
                    Err(e) => Err(e),
                }
            },
        }
    }
}

/// Reads values until the input is used up.
pub open spec fn spec_all(s: Seq<u8>, acc: Seq<Amf0ValueView>) -> Result<Seq<Amf0ValueView>, Amf0Error>
    decreases s.len(),
{
    if s.len() == 0 {
        Ok(acc)
    } else {
        match spec_value(s) {
            Err(e) => Err(e),
            Ok((v, vn)) => if vn < 1 || vn > s.len() {
                Err(Amf0Error::Io(IoError::UnexpectedEof))
            } else {
                spec_all(s.subrange(vn as int, s.len() as int), acc.push(v))
            },
        }
    }
}

/// A reading result: the spec gives `Ok((x, n))` and the call returned the value `x` after
/// taking `n` bytes, or both give the same error.
pub open spec fn steps<X>(
    old_d: Amf0Decoder,
    new_d: Amf0Decoder,
    spec_r: Result<(X, nat), Amf0Error>,
    r: Result<X, Amf0Error>,
) -> bool {
    &&& new_d.wf()
    &&& match r {
        Ok(x) => spec_r matches Ok((y, n)) && y == x && n <= old_d.input().len() && new_d.input()
            == old_d.input().subrange(n as int, old_d.input().len() as int),
        Err(e) => spec_r == Err::<(X, nat), Amf0Error>(e),
    }
}

/// The string's characters on success.
pub open spec fn str_res(r: Result<String, Amf0Error>) -> Result<Seq<char>, Amf0Error> {
    match r {
        Ok(x) => Ok(x@),
        Err(e) => Err(e),
    }
}

/// The key's characters on success.
pub open spec fn key_res(r: Result<Option<String>, Amf0Error>) -> Result<Option<Seq<char>>, Amf0Error> {
    match r {
        Ok(Some(x)) => Ok(Some(x@)),
        Ok(None) => Ok(None),
        Err(e) => Err(e),
    }
}

/// The value's view on success.
pub open spec fn value_res(r: Result<Amf0Value, Amf0Error>) -> Result<Amf0ValueView, Amf0Error> {
    match r {
        Ok(x) => Ok(x@),
        Err(e) => Err(e),
    }
}

/// The properties' views on success.
pub open spec fn props_res(r: Result<Vec<(String, Amf0Value)>, Amf0Error>) -> Result<
    Seq<(Seq<char>, Amf0ValueView)>,
    Amf0Error,
> {
    match r {
        Ok(x) => Ok(props_view(x@)),
        Err(e) => Err(e),
    }
}

/// The values' views on success.
pub open spec fn values_res(r: Result<Vec<Amf0Value>, Amf0Error>) -> Result<Seq<Amf0ValueView>, Amf0Error> {
    match r {
        Ok(x) => Ok(values_view(x@)),
        Err(e) => Err(e),
    }
}

/// A decoder of AMF0 values.
pub struct Amf0Decoder {
    /// The bytes, with the position of the next read.
    pub cursor: ByteCursor,
}

impl Amf0Decoder {
    pub open spec fn wf(&self) -> bool {
        self.cursor.wf()
    }

    /// The bytes still to read.
    pub open spec fn input(&self) -> Seq<u8> {
        self.cursor.rest()
    }

    /// Creates a decoder over `buf`.
    pub fn new(buf: Vec<u8>) -> (r: Self)
        ensures
            r.wf(),
            r.input() == buf@,
    {
        Amf0Decoder { cursor: ByteCursor::new(buf) }
    }

    /// Whether any byte remains to be read.
    pub fn has_remaining(&self) -> (r: bool)
        requires
            self.wf(),
        ensures
            r == (self.input().len() > 0),
    {
        self.cursor.has_remaining()
    }

    /// Reads a marker.
    fn read_marker(&mut self) -> (r: Result<Amf0Marker, Amf0Error>)
        requires
            old(self).wf(),
        ensures
            steps(*old(self), *final(self), spec_read_marker(old(self).input()), r),
    {
        let b = match self.cursor.read_u8() {
            Ok(b) => b,
            Err(e) => return Err(Amf0Error::Io(e)),
        };
        match Amf0Marker::from_u8(b) {
            Some(m) => {
                assert(self.input() =~= old(self).input().subrange(1, old(self).input().len() as int));
                Ok(m)
            },
            None => Err(Amf0Error::UnknownMarker(b)),
        }
    }

    /// Reads the next marker without taking it.
    pub fn peek_marker(&self) -> (r: Result<Amf0Marker, Amf0Error>)
        requires
            self.wf(),
        ensures
            match r {
                Ok(m) => spec_read_marker(self.input()) == Ok::<(Amf0Marker, nat), Amf0Error>((m, 1)),
                Err(e) => spec_read_marker(self.input()) == Err::<(Amf0Marker, nat), Amf0Error>(e),
            },
    {
        let b = match self.cursor.peek_u8() {
            Ok(b) => b,
            Err(e) => return Err(Amf0Error::Io(e)),
        };
        match Amf0Marker::from_u8(b) {
            Some(m) => Ok(m),
            None => Err(Amf0Error::UnknownMarker(b)),
        }
    }

    /// Reads a marker that must be in `expect`.
    pub fn expect_marker(&mut self, expect: Amf0MarkerSet) -> (r: Result<Amf0Marker, Amf0Error>)
        requires
            old(self).wf(),
        ensures
            steps(*old(self), *final(self), spec_expect_marker(old(self).input(), expect), r),
    {
        let m = self.read_marker()?;
        if expect.contains(m) {
            Ok(m)
        } else {
            Err(Amf0Error::UnexpectedType { expected: expect, got: m })
        }
    }
}

impl Amf0Decoder {
    /// Reads `len` bytes from the cursor as a UTF-8 string.
    fn read_string_body(&mut self, len: usize) -> (r: Result<String, Amf0Error>)
        requires
            old(self).wf(),
        ensures
            steps(*old(self), *final(self), spec_string_body(old(self).input(), 0, len as nat), str_res(r)),
    {
        let ghost s = self.input();
        let bytes = match self.cursor.extract_bytes(len) {
            Ok(b) => b,
            Err(e) => return Err(Amf0Error::Io(e)),
        };
        assert(s.subrange(0, len as int) == bytes@);
        let r = match utf8_string(bytes) {
            Ok(st) => Ok(st),
            Err(()) => Err(Amf0Error::StringParseError),
        };
        assert(self.input() =~= s.subrange(len as int, s.len() as int));
        r
    }
}

impl Amf0Decoder {
    /// Reads a boolean.
    pub fn decode_boolean(&mut self) -> (r: Result<bool, Amf0Error>)
        requires
            old(self).wf(),
        ensures
            steps(*old(self), *final(self), spec_boolean(old(self).input()), r),
    {
        let ghost s = self.input();
        self.expect_marker(Amf0MarkerSet::Boolean)?;
        let ghost t = self.input();
        assert(t == s.subrange(1, s.len() as int));
        let b = match self.cursor.read_u8() {
            Ok(b) => b,
            Err(e) => return Err(Amf0Error::Io(e)),
        };
        assert(self.input() =~= t.subrange(1, t.len() as int));
        assert(self.input() =~= s.subrange(2, s.len() as int));
        Ok(b != 0)
    }

    /// Reads a number or a date, as the bits of its double; a date's time zone is skipped.
    pub fn decode_number(&mut self) -> (r: Result<u64, Amf0Error>)
        requires
            old(self).wf(),
        ensures
            steps(*old(self), *final(self), spec_number(old(self).input()), r),
    {
        let ghost s = self.input();
        let marker = self.expect_marker(Amf0MarkerSet::NumberOrDate)?;
        let ghost t = s.subrange(1, s.len() as int);
        assert(self.input() == t);
        let bits = match self.cursor.read_u64_be() {
            Ok(b) => b,
            Err(e) => return Err(Amf0Error::Io(e)),
        };
        let ghost u = self.input();
        assert(u =~= t.subrange(8, t.len() as int));
        if marker == Amf0Marker::Date {
            match self.cursor.read_u16_be() {
                Ok(_) => {},
                Err(e) => return Err(Amf0Error::Io(e)),
            }
            assert(self.input() =~= u.subrange(2, u.len() as int));
            assert(self.input() =~= s.subrange(11, s.len() as int));
        } else {
            assert(self.input() =~= s.subrange(9, s.len() as int));
        }
        Ok(bits)
    }

    /// Reads a string behind a 16-bit length, without a marker.
    pub fn decode_normal_string(&mut self) -> (r: Result<String, Amf0Error>)
        requires
            old(self).wf(),
        ensures
            steps(*old(self), *final(self), spec_normal_string(old(self).input()), str_res(r)),
    {
        let ghost s = self.input();
        let len = match self.cursor.read_u16_be() {
            Ok(l) => l,
            Err(e) => return Err(Amf0Error::Io(e)),
        };
        assert(self.input() =~= s.subrange(2, s.len() as int));
        let r = self.read_string_body(len as usize);
        proof {
            let t = s.subrange(2, s.len() as int);
            if t.len() >= len {
                assert(t.subrange(0, len as int) =~= s.subrange(2, 2 + len));
            }
            if r is Ok {
                assert(self.input() =~= s.subrange(2 + len, s.len() as int));
            }
        }
        r
    }

    /// Reads a string, long string or XML document.
    pub fn decode_string(&mut self) -> (r: Result<String, Amf0Error>)
        requires
            old(self).wf(),
        ensures
            steps(*old(self), *final(self), spec_string(old(self).input()), str_res(r)),
    {
        let ghost s = self.input();
        let marker = self.expect_marker(Amf0MarkerSet::AnyString)?;
        let ghost t = s.subrange(1, s.len() as int);
        assert(self.input() == t);
        if marker == Amf0Marker::String {
            let r = self.decode_normal_string();
            proof {
                if r is Ok {
                    assert(self.input() =~= s.subrange(
                        (1 + spec_normal_string(t)->Ok_0.1) as int,
                        s.len() as int,
                    ));
                }
            }
            r
        } else {
            let len = match self.cursor.read_u32_be() {
                Ok(l) => l,
                Err(e) => return Err(Amf0Error::Io(e)),
            };
            assert(self.input() =~= t.subrange(4, t.len() as int));
            let r = self.read_string_body(len as usize);
            proof {
                let u = t.subrange(4, t.len() as int);
                if u.len() >= len {
                    assert(u.subrange(0, len as int) =~= t.subrange(4, 4 + len));
                }
                if r is Ok {
                    assert(self.input() =~= s.subrange(5 + len, s.len() as int));
                }
            }
            r
        }
    }

    /// Reads null or undefined.
    pub fn decode_null(&mut self) -> (r: Result<(), Amf0Error>)
        requires
            old(self).wf(),
        ensures
            steps(*old(self), *final(self), spec_null(old(self).input()), r),
    {
        self.expect_marker(Amf0MarkerSet::NullOrUndefined)?;
        Ok(())
    }

    /// Reads an object key; `None` at the end of the object.
    fn decode_object_key(&mut self) -> (r: Result<Option<String>, Amf0Error>)
        requires
            old(self).wf(),
        ensures
            steps(*old(self), *final(self), spec_object_key(old(self).input()), key_res(r)),
    {
        let ghost s = self.input();
        let key = self.decode_normal_string()?;
        if key.as_str().is_empty() {
            let ghost mid = self.input();
            let m = self.peek_marker()?;
            if m == Amf0Marker::ObjectEnd {
                self.read_marker()?;
                assert(self.input() =~= s.subrange(
                    (spec_normal_string(s)->Ok_0.1 + 1) as int,
                    s.len() as int,
                ));
                return Ok(None);
            }
        }
        Ok(Some(key))
    }
}

/// A result with `c` more bytes taken.
pub open spec fn shifted<X>(r: Result<(X, nat), Amf0Error>, c: nat) -> Result<(X, nat), Amf0Error> {
    match r {
        Ok((x, n)) => Ok((x, n + c)),
        Err(e) => Err(e),
    }
}

/// A value that reads takes at least one byte.
pub proof fn lemma_value_takes_bytes(s: Seq<u8>)
    requires
        spec_value(s) is Ok,
    ensures
        spec_value(s)->Ok_0.1 >= 1,
{
}

/// The key found in a prefix is the key found in the whole.
pub proof fn lemma_find_key_prefix(p: Seq<(Seq<char>, Amf0ValueView)>, k: Seq<char>, j: int)
    requires
        0 <= j <= p.len(),
        find_key(p.subrange(0, j), k) is Some,
    ensures
        find_key(p, k) == find_key(p.subrange(0, j), k),
    decreases p.len() - j,
{
    if j < p.len() {
        assert(p.subrange(0, j + 1).drop_last() =~= p.subrange(0, j));
        lemma_find_key_prefix(p, k, j + 1);
    } else {
        assert(p.subrange(0, j) =~= p);
    }
}

/// Sets the property `k` to `v`: in place when the key is present, else at the end.
fn set_prop(props: &mut Vec<(String, Amf0Value)>, k: String, v: Amf0Value)
    ensures
        props_view(final(props)@) == insert_prop(props_view(old(props)@), k@, v@),
{
    let ghost q = props_view(props@);
    proof {
        lemma_props_view(props@);
    }
    let mut i: usize = 0;
    while i < props.len()
        invariant
            i <= props.len(),
            props@ == old(props)@,
            q == props_view(props@),
            q.len() == props@.len(),
            forall|j: int| 0 <= j < props@.len() ==> #[trigger] q[j] == (props@[j].0@, props@[j].1@),
            find_key(q.subrange(0, i as int), k@) is None,
        decreases props.len() - i,
    {
        assert(q.subrange(0, i + 1).drop_last() =~= q.subrange(0, i as int));
        if props[i].0 == k {
            proof {
                lemma_find_key_prefix(q, k@, i + 1);
            }
            let ghost before = props@;
            props.set(i, (k, v));
            proof {
                lemma_props_view(props@);
                assert(props_view(props@) =~= q.update(i as int, (k@, v@)));
            }
            return;
        }
        i = i + 1;
    }
    assert(q.subrange(0, props.len() as int) =~= q);
    let ghost before = props@;
    props.push((k, v));
    assert(props@.drop_last() =~= before);
}

impl Amf0Decoder {
    /// Reads object properties up to the end of the object.
    fn decode_props(&mut self) -> (r: Result<Vec<(String, Amf0Value)>, Amf0Error>)
        requires
            old(self).wf(),
        ensures
            steps(*old(self), *final(self), spec_props(old(self).input(), seq![]), props_res(r)),
        decreases old(self).input().len(), 3nat,
    {
        let ghost u = self.input();
        let mut props: Vec<(String, Amf0Value)> = Vec::new();
        assert(props_view(props@) =~= Seq::<(Seq<char>, Amf0ValueView)>::empty());
        loop
            invariant_except_break
                self.wf(),
                self.input().len() <= u.len(),
                self.input() == u.subrange(u.len() - self.input().len(), u.len() as int),
                spec_props(u, seq![]) == shifted(
                    spec_props(self.input(), props_view(props@)),
                    (u.len() - self.input().len()) as nat,
                ),
            invariant
                u == old(self).input(),
            ensures
                self.wf(),
                self.input().len() <= u.len(),
                self.input() == u.subrange(u.len() - self.input().len(), u.len() as int),
                spec_props(u, seq![]) == Ok::<(Seq<(Seq<char>, Amf0ValueView)>, nat), Amf0Error>(
                    (props_view(props@), (u.len() - self.input().len()) as nat),
                ),
            decreases self.input().len(),
        {
            let ghost cur = self.input();
            let key = match self.decode_object_key() {
                Ok(k) => k,
                Err(e) => return Err(e),
            };
            match key {
                None => {
                    assert(self.input() =~= u.subrange(u.len() - self.input().len(), u.len() as int));
                    break;
                },
                Some(k) => {
                    let ghost t2 = self.input();
                    let v = match self.decode_value() {
                        Ok(v) => v,
                        Err(e) => return Err(e),
                    };
                    proof {
                        lemma_value_takes_bytes(t2);
                    }
                    set_prop(&mut props, k, v);
                    assert(self.input() =~= u.subrange(u.len() - self.input().len(), u.len() as int));
                },
            }
        }
        Ok(props)
    }

    /// Reads `size` ECMA array entries, then the object end marker when it is next.
    fn decode_ecma(&mut self, size: u32) -> (r: Result<Vec<(String, Amf0Value)>, Amf0Error>)
        requires
            old(self).wf(),
        ensures
            steps(*old(self), *final(self), spec_ecma(old(self).input(), size as nat, seq![]), props_res(r)),
        decreases old(self).input().len(), 3nat,
    {
        let ghost u = self.input();
        let mut props: Vec<(String, Amf0Value)> = Vec::new();
        assert(props_view(props@) =~= Seq::<(Seq<char>, Amf0ValueView)>::empty());
        let mut i: u32 = 0;
        while i < size
            invariant
                self.wf(),
                u == old(self).input(),
                i <= size,
                self.input().len() <= u.len(),
                self.input() == u.subrange(u.len() - self.input().len(), u.len() as int),
                spec_ecma(u, size as nat, seq![]) == shifted(
                    spec_ecma(self.input(), (size - i) as nat, props_view(props@)),
                    (u.len() - self.input().len()) as nat,
                ),
            decreases size - i,
        {
            let k = match self.decode_normal_string() {
                Ok(k) => k,
                Err(e) => return Err(e),
            };
            let ghost t2 = self.input();
            let v = match self.decode_value() {
                Ok(v) => v,
                Err(e) => return Err(e),
            };
            proof {
                lemma_value_takes_bytes(t2);
            }
            set_prop(&mut props, k, v);
            assert(self.input() =~= u.subrange(u.len() - self.input().len(), u.len() as int));
            i = i + 1;
        }
        let ghost last = self.input();
        let m = self.peek_marker()?;
        if m == Amf0Marker::ObjectEnd {
            self.read_marker()?;
        }
        assert(self.input() =~= u.subrange(u.len() - self.input().len(), u.len() as int));
        Ok(props)
    }

    /// Reads an object, a typed object (whose class name is dropped) or an ECMA array, as its
    /// properties; a repeated key keeps its first place and takes the last value.
    #[verifier::spinoff_prover]
    #[verifier::rlimit(40)]
    pub fn decode_object(&mut self) -> (r: Result<Vec<(String, Amf0Value)>, Amf0Error>)
        requires
            old(self).wf(),
        ensures
            steps(*old(self), *final(self), spec_object(old(self).input()), props_res(r)),
        decreases old(self).input().len(), 1nat,
    {
        let ghost s = self.input();
        let marker = self.expect_marker(Amf0MarkerSet::AnyObject)?;
        let ghost t = s.subrange(1, s.len() as int);
        assert(self.input() == t);
        if marker == Amf0Marker::Object {
            let r = self.decode_props();
            assert(r is Ok ==> self.input() =~= s.subrange(s.len() - self.input().len(), s.len() as int));
            r
        } else if marker == Amf0Marker::TypedObject {
            self.decode_normal_string()?;
            let ghost u = self.input();
            let r = self.decode_props();
            assert(r is Ok ==> self.input() =~= s.subrange(s.len() - self.input().len(), s.len() as int));
            r
        } else {
            let size = match self.cursor.read_u32_be() {
                Ok(n) => n,
                Err(e) => return Err(Amf0Error::Io(e)),
            };
            assert(self.input() =~= t.subrange(4, t.len() as int));
            let r = self.decode_ecma(size);
            assert(r is Ok ==> self.input() =~= s.subrange(s.len() - self.input().len(), s.len() as int));
            r
        }
    }

    /// Reads `size` values.
    fn decode_elems(&mut self, size: u32) -> (r: Result<Vec<Amf0Value>, Amf0Error>)
        requires
            old(self).wf(),
        ensures
            steps(*old(self), *final(self), spec_elems(old(self).input(), size as nat, seq![]), values_res(r)),
        decreases old(self).input().len(), 3nat,
    {
        let ghost u = self.input();
        let mut values: Vec<Amf0Value> = Vec::new();
        assert(values_view(values@) =~= Seq::<Amf0ValueView>::empty());
        let mut i: u32 = 0;
        while i < size
            invariant
                self.wf(),
                u == old(self).input(),
                i <= size,
                self.input().len() <= u.len(),
                self.input() == u.subrange(u.len() - self.input().len(), u.len() as int),
                spec_elems(u, size as nat, seq![]) == shifted(
                    spec_elems(self.input(), (size - i) as nat, values_view(values@)),
                    (u.len() - self.input().len()) as nat,
                ),
            decreases size - i,
        {
            let ghost cur = self.input();
            let v = match self.decode_value() {
                Ok(v) => v,
                Err(e) => return Err(e),
            };
            proof {
                lemma_value_takes_bytes(cur);
            }
            let ghost before = values@;
            values.push(v);
            assert(values@.drop_last() =~= before);
            assert(self.input() =~= u.subrange(u.len() - self.input().len(), u.len() as int));
            i = i + 1;
        }
        Ok(values)
    }

    /// Reads a strict array.
    pub fn decode_strict_array(&mut self) -> (r: Result<Vec<Amf0Value>, Amf0Error>)
        requires
            old(self).wf(),
        ensures
            steps(*old(self), *final(self), spec_array(old(self).input()), values_res(r)),
        decreases old(self).input().len(), 1nat,
    {
        let ghost s = self.input();
        self.expect_marker(Amf0MarkerSet::StrictArray)?;
        let ghost t = s.subrange(1, s.len() as int);
        assert(self.input() == t);
        let size = match self.cursor.read_u32_be() {
            Ok(n) => n,
            Err(e) => return Err(Amf0Error::Io(e)),
        };
        assert(self.input() =~= t.subrange(4, t.len() as int));
        let r = self.decode_elems(size);
        assert(r is Ok ==> self.input() =~= s.subrange(s.len() - self.input().len(), s.len() as int));
        r
    }

    /// Reads a value. Markers without a value that this decoder reads give
    /// [`Amf0Error::UnsupportedMarker`].
    pub fn decode_value(&mut self) -> (r: Result<Amf0Value, Amf0Error>)
        requires
            old(self).wf(),
        ensures
            steps(*old(self), *final(self), spec_value(old(self).input()), value_res(r)),
            r matches Ok(v) ==> keys_unique(v@),
        decreases old(self).input().len(), 2nat,
    {
        let ghost s = self.input();
        let marker = self.peek_marker()?;
        let r = match marker {
            Amf0Marker::Boolean => Ok(Amf0Value::Boolean(self.decode_boolean()?)),
            Amf0Marker::Number | Amf0Marker::Date => Ok(Amf0Value::Number(self.decode_number()?)),
            Amf0Marker::String | Amf0Marker::LongString | Amf0Marker::XmlDocument => Ok(
                Amf0Value::String(self.decode_string()?),
            ),
            Amf0Marker::Null | Amf0Marker::Undefined => {
                self.decode_null()?;
                Ok(Amf0Value::Null)
            },
            Amf0Marker::Object | Amf0Marker::TypedObject | Amf0Marker::EcmaArray => {
                let props = self.decode_object()?;
                Ok(Amf0Value::Object(props))
            },
            Amf0Marker::StrictArray => {
                let values = self.decode_strict_array()?;
                Ok(Amf0Value::Array(values))
            },
            _ => Err(Amf0Error::UnsupportedMarker(marker)),
        };
        proof {
            if r is Ok {
                lemma_value_unique(s);
            }
        }
        r
    }

    /// Reads values until the input is used up.
    pub fn decode_all(&mut self) -> (r: Result<Vec<Amf0Value>, Amf0Error>)
        requires
            old(self).wf(),
        ensures
            final(self).wf(),
            match r {
                Ok(v) => spec_all(old(self).input(), seq![]) == Ok::<Seq<Amf0ValueView>, Amf0Error>(
                    values_view(v@),
                ),
                Err(e) => spec_all(old(self).input(), seq![]) == Err::<Seq<Amf0ValueView>, Amf0Error>(
                    e,
                ),
            },
            r matches Ok(v) ==> elems_keys_unique(values_view(v@)),
    {
        let mut values: Vec<Amf0Value> = Vec::new();
        assert(values_view(values@) =~= Seq::<Amf0ValueView>::empty());
        while self.has_remaining()
            invariant
                self.wf(),
                spec_all(old(self).input(), seq![]) == spec_all(self.input(), values_view(values@)),
            decreases self.input().len(),
        {
            let ghost cur = self.input();
            let v = match self.decode_value() {
                Ok(v) => v,
                Err(e) => return Err(e),
            };
            proof {
                lemma_value_takes_bytes(cur);
            }
            let ghost before = values@;
            values.push(v);
            assert(values@.drop_last() =~= before);
        }
        proof {
            lemma_all_unique(old(self).input(), seq![]);
        }
        Ok(values)
    }
}

/// A string from its UTF-8 bytes.
///
/// Calls `String::from_utf8`, which std documents to succeed exactly on valid UTF-8 and to keep
/// the bytes; the contract says so with vstd's `valid_utf8` and `decode_utf8`.
#[verifier::external_body]
fn utf8_string(bytes: Vec<u8>) -> (r: Result<String, ()>)
    ensures
        match r {
            Ok(s) => valid_utf8(bytes@) && s@ == decode_utf8(bytes@),
            Err(()) => !valid_utf8(bytes@),
        },
{
    match String::from_utf8(bytes) {
        Ok(s) => Ok(s),
        Err(_) => Err(()),
    }
}

} // verus!
