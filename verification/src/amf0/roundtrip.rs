//! What the decoder reads back of what the encoder writes.
use vstd::prelude::*;

use vstd::utf8::{encode_utf8_decode_utf8, encode_utf8_valid_utf8};

use crate::amf0::decoder::{
    find_key, insert_prop, shifted, spec_elems, spec_long_string, spec_normal_string, spec_props,
    spec_utf8, spec_value,
};
use crate::amf0::encoder::{
    elems_bytes, elems_encodable, encodable, key_bytes, props_bytes, props_encodable, utf8,
    value_bytes,
};
use crate::amf0::error::Amf0Error;
use crate::amf0::value::Amf0ValueView;
use crate::bytes_be::{lemma_u16_bytes, lemma_u32_bytes, lemma_u64_bytes, u16_bytes, u32_bytes, u64_bytes};

verus! {

/// Every object in the value, at any depth, has each key at most once.
pub open spec fn keys_unique(v: Amf0ValueView) -> bool
    decreases v, 1nat,
{
    match v {
        Amf0ValueView::Object(p) => props_keys_unique(p),
        Amf0ValueView::Array(a) => elems_keys_unique(a),
        _ => true,
    }
}

/// No key comes twice among the properties, and every value has unique keys.
pub open spec fn props_keys_unique(p: Seq<(Seq<char>, Amf0ValueView)>) -> bool
    decreases p, 0nat,
{
    if p.len() == 0 {
        true
    } else {
        &&& props_keys_unique(p.drop_last())
        &&& find_key(p.drop_last(), p.last().0) is None
        &&& keys_unique(p.last().1)
    }
}

/// Every element has unique keys.
pub open spec fn elems_keys_unique(a: Seq<Amf0ValueView>) -> bool
    decreases a, 0nat,
{
    if a.len() == 0 {
        true
    } else {
        elems_keys_unique(a.drop_last()) && keys_unique(a.last())
    }
}

/// Decoding the UTF-8 bytes of a string gives the string.
proof fn lemma_utf8_roundtrip(s: Seq<char>)
    ensures
        spec_utf8(utf8(s)) == Ok::<Seq<char>, Amf0Error>(s),
{
    encode_utf8_valid_utf8(s);
    encode_utf8_decode_utf8(s);
}

/// A string behind a 16-bit length reads back.
proof fn lemma_normal_string_roundtrip(k: Seq<char>, x: Seq<u8>)
    requires
        utf8(k).len() <= 0xffff,
    ensures
        spec_normal_string(key_bytes(k) + x) == Ok::<(Seq<char>, nat), Amf0Error>(
            (k, 2 + utf8(k).len()),
        ),
{
    let b = utf8(k);
    let s = key_bytes(k) + x;
    lemma_u16_bytes(b.len() as u16, b + x);
    assert(s =~= u16_bytes(b.len() as u16) + (b + x));
    assert(s.subrange(2, 2 + b.len() as int) =~= b);
    lemma_utf8_roundtrip(k);
}

/// A string behind a 32-bit length reads back.
proof fn lemma_long_string_roundtrip(k: Seq<char>, x: Seq<u8>)
    requires
        utf8(k).len() <= u32::MAX,
    ensures
        spec_long_string(u32_bytes(utf8(k).len() as u32) + utf8(k) + x) == Ok::<
            (Seq<char>, nat),
            Amf0Error,
        >((k, 4 + utf8(k).len())),
{
    let b = utf8(k);
    let s = u32_bytes(b.len() as u32) + b + x;
    lemma_u32_bytes(b.len() as u32, b + x);
    assert(s =~= u32_bytes(b.len() as u32) + (b + x));
    assert(s.subrange(4, 4 + b.len() as int) =~= b);
    lemma_utf8_roundtrip(k);
}

/// Taking `a` and then `b` more bytes is taking `a + b` more.
proof fn lemma_shifted_twice<X>(r: Result<(X, nat), Amf0Error>, a: nat, b: nat)
    ensures
        shifted(shifted(r, a), b) == shifted(r, a + b),
        shifted(r, 0) == r,
{
}

/// The end of an object: an empty key and the object end marker.
proof fn lemma_props_end(acc: Seq<(Seq<char>, Amf0ValueView)>, x: Seq<u8>)
    ensures
        spec_props(seq![0u8, 0u8, 0x09u8] + x, acc) == Ok::<
            (Seq<(Seq<char>, Amf0ValueView)>, nat),
            Amf0Error,
        >((acc, 3)),
{
    let s = seq![0u8, 0u8, 0x09u8] + x;
    assert(s.subrange(2, 2) =~= Seq::<u8>::empty());
    assert(s.subrange(2, s.len() as int)[0] == 0x09u8);
}

/// One property: its key, then its value.
proof fn lemma_prop_step(
    k: Seq<char>,
    v: Amf0ValueView,
    acc: Seq<(Seq<char>, Amf0ValueView)>,
    x: Seq<u8>,
)
    requires
        utf8(k).len() <= 0xffff,
        encodable(v),
        keys_unique(v),
        find_key(acc, k) is None,
    ensures
        spec_props(key_bytes(k) + value_bytes(v) + x, acc) == shifted(
            spec_props(x, acc.push((k, v))),
            key_bytes(k).len() + value_bytes(v).len(),
        ),
    decreases v, 2nat,
{
    let kb = key_bytes(k);
    let vb = value_bytes(v);
    let s = kb + vb + x;
    lemma_normal_string_roundtrip(k, vb + x);
    assert(s =~= kb + (vb + x));
    let kn = 2 + utf8(k).len();
    let t = s.subrange(kn as int, s.len() as int);
    assert(t =~= vb + x);
    lemma_value_roundtrip(v, x);
    assert(t.subrange(vb.len() as int, t.len() as int) =~= x);
}

/// Reading the bytes of properties after `acc` adds them to `acc` in their order, when no
/// key comes twice.
proof fn lemma_props_consume(
    q: Seq<(Seq<char>, Amf0ValueView)>,
    acc: Seq<(Seq<char>, Amf0ValueView)>,
    x: Seq<u8>,
)
    requires
        props_encodable(q),
        props_keys_unique(acc + q),
    ensures
        spec_props(props_bytes(q) + x, acc) == shifted(spec_props(x, acc + q), props_bytes(q).len()),
    decreases q, 0nat,
{
    if q.len() == 0 {
        assert(props_bytes(q) + x =~= x);
        assert(acc + q =~= acc);
        lemma_shifted_twice(spec_props(x, acc), 0, 0);
    } else {
        let q1 = q.drop_last();
        let k = q.last().0;
        let v = q.last().1;
        let x1 = key_bytes(k) + value_bytes(v) + x;
        assert((acc + q).drop_last() =~= acc + q1);
        assert((acc + q).last() == q.last());
        lemma_props_consume(q1, acc, x1);
        assert(props_bytes(q) + x =~= props_bytes(q1) + x1);
        lemma_prop_step(k, v, acc + q1, x);
        assert((acc + q1).push((k, v)) =~= acc + q);
        lemma_shifted_twice(
            spec_props(x, acc + q),
            key_bytes(k).len() + value_bytes(v).len(),
            props_bytes(q1).len(),
        );
    }
}

/// Reading the bytes of elements after `acc` adds them to `acc` in their order.
proof fn lemma_elems_consume(q: Seq<Amf0ValueView>, acc: Seq<Amf0ValueView>, x: Seq<u8>, count: nat)
    requires
        elems_encodable(q),
        elems_keys_unique(q),
    ensures
        spec_elems(elems_bytes(q) + x, count + q.len(), acc) == shifted(
            spec_elems(x, count, acc + q),
            elems_bytes(q).len(),
        ),
    decreases q, 0nat,
{
    if q.len() == 0 {
        assert(elems_bytes(q) + x =~= x);
        assert(acc + q =~= acc);
        lemma_shifted_twice(spec_elems(x, count, acc), 0, 0);
    } else {
        let q1 = q.drop_last();
        let v = q.last();
        let vb = value_bytes(v);
        lemma_elems_consume(q1, acc, vb + x, count + 1);
        assert(elems_bytes(q) + x =~= elems_bytes(q1) + (vb + x));
        lemma_value_roundtrip(v, x);
        let t = vb + x;
        assert(t.subrange(vb.len() as int, t.len() as int) =~= x);
        assert((acc + q1).push(v) =~= acc + q);
        lemma_shifted_twice(spec_elems(x, count, acc + q), vb.len(), elems_bytes(q1).len());
    }
}

/// A number reads back.
proof fn lemma_number_roundtrip(n: u64, x: Seq<u8>)
    ensures
        spec_value(value_bytes(Amf0ValueView::Number(n)) + x) == Ok::<(Amf0ValueView, nat), Amf0Error>(
            (Amf0ValueView::Number(n), 9),
        ),
{
    let s = value_bytes(Amf0ValueView::Number(n)) + x;
    lemma_u64_bytes(n, x);
    assert(s.subrange(1, s.len() as int) =~= u64_bytes(n) + x);
}

/// A string reads back.
proof fn lemma_string_roundtrip(c: Seq<char>, x: Seq<u8>)
    requires
        utf8(c).len() <= u32::MAX,
    ensures
        spec_value(value_bytes(Amf0ValueView::String(c)) + x) == Ok::<(Amf0ValueView, nat), Amf0Error>(
            (Amf0ValueView::String(c), value_bytes(Amf0ValueView::String(c)).len()),
        ),
{
    let s = value_bytes(Amf0ValueView::String(c)) + x;
    let b = utf8(c);
    if b.len() <= 0xffff {
        lemma_normal_string_roundtrip(c, x);
        assert(s.subrange(1, s.len() as int) =~= key_bytes(c) + x);
    } else {
        lemma_long_string_roundtrip(c, x);
        assert(s.subrange(1, s.len() as int) =~= u32_bytes(b.len() as u32) + b + x);
    }
}

/// An object reads back.
proof fn lemma_object_roundtrip(p: Seq<(Seq<char>, Amf0ValueView)>, x: Seq<u8>)
    requires
        props_encodable(p),
        props_keys_unique(p),
    ensures
        spec_value(value_bytes(Amf0ValueView::Object(p)) + x) == Ok::<(Amf0ValueView, nat), Amf0Error>(
            (Amf0ValueView::Object(p), value_bytes(Amf0ValueView::Object(p)).len()),
        ),
    decreases p, 1nat,
{
    let s = value_bytes(Amf0ValueView::Object(p)) + x;
    let pb = props_bytes(p);
    let end = seq![0u8, 0u8, 0x09u8] + x;
    assert(s.subrange(1, s.len() as int) =~= pb + end);
    assert(Seq::<(Seq<char>, Amf0ValueView)>::empty() + p =~= p);
    lemma_props_consume(p, Seq::empty(), end);
    lemma_props_end(p, x);
}

/// A strict array reads back.
proof fn lemma_array_roundtrip(a: Seq<Amf0ValueView>, x: Seq<u8>)
    requires
        a.len() <= u32::MAX,
        elems_encodable(a),
        elems_keys_unique(a),
    ensures
        spec_value(value_bytes(Amf0ValueView::Array(a)) + x) == Ok::<(Amf0ValueView, nat), Amf0Error>(
            (Amf0ValueView::Array(a), value_bytes(Amf0ValueView::Array(a)).len()),
        ),
    decreases a, 1nat,
{
    let s = value_bytes(Amf0ValueView::Array(a)) + x;
    let eb = elems_bytes(a);
    let t = s.subrange(1, s.len() as int);
    assert(t =~= u32_bytes(a.len() as u32) + (eb + x));
    lemma_u32_bytes(a.len() as u32, eb + x);
    assert(t.subrange(4, t.len() as int) =~= eb + x);
    assert(Seq::<Amf0ValueView>::empty() + a =~= a);
    lemma_elems_consume(a, Seq::empty(), x, 0);
    assert(0 + a.len() == a.len());
}

/// Decoding the bytes that encoding a value writes gives back the value, and takes exactly
/// those bytes, whatever follows them. This holds of every value that can be encoded and
/// whose objects have each key once: the decoder keeps one property per key.
pub proof fn lemma_value_roundtrip(v: Amf0ValueView, x: Seq<u8>)
    requires
        encodable(v),
        keys_unique(v),
    ensures
        spec_value(value_bytes(v) + x) == Ok::<(Amf0ValueView, nat), Amf0Error>(
            (v, value_bytes(v).len()),
        ),
    decreases v, 1nat,
{
    match v {
        Amf0ValueView::Number(n) => lemma_number_roundtrip(n, x),
        Amf0ValueView::Boolean(b) => {},
        Amf0ValueView::String(c) => lemma_string_roundtrip(c, x),
        Amf0ValueView::Object(p) => lemma_object_roundtrip(p, x),
        Amf0ValueView::Null => {},
        Amf0ValueView::Array(a) => lemma_array_roundtrip(a, x),
    }
}

/// Decoding bytes that encoding wrote and encoding the value again writes the same bytes.
pub proof fn lemma_reencode_same_bytes(v: Amf0ValueView, x: Seq<u8>)
    requires
        encodable(v),
        keys_unique(v),
    ensures
        spec_value(value_bytes(v) + x) is Ok,
        value_bytes(spec_value(value_bytes(v) + x)->Ok_0.0) == value_bytes(v),
{
    lemma_value_roundtrip(v, x);
}

} // verus!
