//! Objects that the decoder reads hold each key once: a repeated key replaces the value that
//! came before it.
use vstd::prelude::*;

use crate::amf0::decoder::{
    find_key, insert_prop, spec_all, spec_array, spec_ecma, spec_elems, spec_object, spec_props,
    spec_value,
};
use crate::amf0::roundtrip::{elems_keys_unique, keys_unique, props_keys_unique};
use crate::amf0::value::Amf0ValueView;

verus! {

/// `find_key` finds a property with the key, and finds none only where no property has it.
proof fn lemma_find_key(p: Seq<(Seq<char>, Amf0ValueView)>, k: Seq<char>)
    ensures
        find_key(p, k) is None <==> (forall|i: int| 0 <= i < p.len() ==> p[i].0 != k),
        find_key(p, k) matches Some(i) ==> 0 <= i < p.len() && p[i].0 == k,
    decreases p.len(),
{
    if p.len() > 0 {
        let q = p.drop_last();
        lemma_find_key(q, k);
        assert forall|i: int| 0 <= i < q.len() implies q[i] == p[i] by {}
        if find_key(q, k) is None && p.last().0 != k {
            assert forall|i: int| 0 <= i < p.len() implies p[i].0 != k by {
                if i < q.len() {
                    assert(q[i] == p[i]);
                }
            }
        }
    }
}

/// Unique keys, said of every pair of properties at once.
proof fn lemma_props_unique_pairs(p: Seq<(Seq<char>, Amf0ValueView)>)
    ensures
        props_keys_unique(p) <==> {
            &&& forall|i: int, j: int| 0 <= i < j < p.len() ==> p[i].0 != p[j].0
            &&& forall|i: int| 0 <= i < p.len() ==> keys_unique(#[trigger] p[i].1)
        },
    decreases p.len(),
{
    if p.len() > 0 {
        let q = p.drop_last();
        let n = q.len() as int;
        lemma_props_unique_pairs(q);
        lemma_find_key(q, p.last().0);
        assert forall|i: int| 0 <= i < n implies q[i] == p[i] by {}
        if props_keys_unique(p) {
            assert forall|i: int, j: int| 0 <= i < j < p.len() implies p[i].0 != p[j].0 by {
                if j < n {
                    assert(q[i] == p[i] && q[j] == p[j]);
                } else {
                    assert(q[i] == p[i]);
                }
            }
            assert forall|i: int| 0 <= i < p.len() implies keys_unique(#[trigger] p[i].1) by {
                if i < n {
                    assert(q[i] == p[i]);
                }
            }
        }
        if (forall|i: int, j: int| 0 <= i < j < p.len() ==> p[i].0 != p[j].0) && (forall|i: int|
            0 <= i < p.len() ==> keys_unique(#[trigger] p[i].1)) {
            assert forall|i: int, j: int| 0 <= i < j < q.len() implies q[i].0 != q[j].0 by {
                assert(q[i] == p[i] && q[j] == p[j]);
            }
            assert forall|i: int| 0 <= i < q.len() implies keys_unique(#[trigger] q[i].1) by {
                assert(q[i] == p[i]);
            }
            assert forall|i: int| 0 <= i < q.len() implies q[i].0 != p.last().0 by {
                assert(q[i] == p[i]);
            }
            assert(keys_unique(p[n].1));
        }
    }
}

/// Setting a property keeps the keys unique.
proof fn lemma_insert_prop_unique(p: Seq<(Seq<char>, Amf0ValueView)>, k: Seq<char>, v: Amf0ValueView)
    requires
        props_keys_unique(p),
        keys_unique(v),
    ensures
        props_keys_unique(insert_prop(p, k, v)),
{
    lemma_find_key(p, k);
    lemma_props_unique_pairs(p);
    let r = insert_prop(p, k, v);
    lemma_props_unique_pairs(r);
    match find_key(p, k) {
        Some(x) => {
            assert forall|i: int, j: int| 0 <= i < j < r.len() implies r[i].0 != r[j].0 by {
                assert(r[i].0 == p[i].0 && r[j].0 == p[j].0);
            }
            assert forall|i: int| 0 <= i < r.len() implies keys_unique(#[trigger] r[i].1) by {
                if i != x {
                    assert(r[i] == p[i]);
                }
            }
        },
        None => {
            assert forall|i: int, j: int| 0 <= i < j < r.len() implies r[i].0 != r[j].0 by {
                if j < p.len() {
                    assert(r[i] == p[i] && r[j] == p[j]);
                } else {
                    assert(r[i] == p[i]);
                }
            }
            assert forall|i: int| 0 <= i < r.len() implies keys_unique(#[trigger] r[i].1) by {
                if i < p.len() {
                    assert(r[i] == p[i]);
                }
            }
        },
    }
}

/// Properties read after `acc` keep its unique keys.
proof fn lemma_props_unique(s: Seq<u8>, acc: Seq<(Seq<char>, Amf0ValueView)>)
    requires
        props_keys_unique(acc),
        spec_props(s, acc) is Ok,
    ensures
        props_keys_unique(spec_props(s, acc)->Ok_0.0),
    decreases s.len(), 3nat,
{
    if let Ok((Some(k), kn)) = crate::amf0::decoder::spec_object_key(s) {
        let t = s.subrange(kn as int, s.len() as int);
        let (v, vn) = spec_value(t)->Ok_0;
        lemma_value_unique(t);
        lemma_insert_prop_unique(acc, k, v);
        lemma_props_unique(t.subrange(vn as int, t.len() as int), insert_prop(acc, k, v));
    }
}

/// ECMA array entries read after `acc` keep its unique keys.
proof fn lemma_ecma_unique(s: Seq<u8>, count: nat, acc: Seq<(Seq<char>, Amf0ValueView)>)
    requires
        props_keys_unique(acc),
        spec_ecma(s, count, acc) is Ok,
    ensures
        props_keys_unique(spec_ecma(s, count, acc)->Ok_0.0),
    decreases s.len(), 3nat,
{
    if count != 0 {
        let (k, kn) = crate::amf0::decoder::spec_normal_string(s)->Ok_0;
        let t = s.subrange(kn as int, s.len() as int);
        let (v, vn) = spec_value(t)->Ok_0;
        lemma_value_unique(t);
        lemma_insert_prop_unique(acc, k, v);
        lemma_ecma_unique(t.subrange(vn as int, t.len() as int), (count - 1) as nat, insert_prop(acc, k, v));
    }
}

/// Values read after `acc` keep the unique keys of its elements.
proof fn lemma_elems_unique(s: Seq<u8>, count: nat, acc: Seq<Amf0ValueView>)
    requires
        elems_keys_unique(acc),
        spec_elems(s, count, acc) is Ok,
    ensures
        elems_keys_unique(spec_elems(s, count, acc)->Ok_0.0),
    decreases s.len(), 3nat,
{
    if count != 0 {
        let (v, vn) = spec_value(s)->Ok_0;
        lemma_value_unique(s);
        assert(acc.push(v).drop_last() =~= acc);
        lemma_elems_unique(s.subrange(vn as int, s.len() as int), (count - 1) as nat, acc.push(v));
    }
}

/// An object read from `s` has unique keys.
proof fn lemma_object_unique(s: Seq<u8>)
    requires
        spec_object(s) is Ok,
    ensures
        props_keys_unique(spec_object(s)->Ok_0.0),
    decreases s.len(), 1nat,
{
    let t = s.subrange(1, s.len() as int);
    let m = crate::amf0::decoder::spec_read_marker(s)->Ok_0.0;
    if m == crate::amf0::marker::Amf0Marker::Object {
        lemma_props_unique(t, seq![]);
    } else if m == crate::amf0::marker::Amf0Marker::TypedObject {
        let n1 = crate::amf0::decoder::spec_normal_string(t)->Ok_0.1;
        lemma_props_unique(t.subrange(n1 as int, t.len() as int), seq![]);
    } else {
        lemma_ecma_unique(t.subrange(4, t.len() as int), crate::cursor::be32(t), seq![]);
    }
}

/// A strict array read from `s` has elements with unique keys.
proof fn lemma_array_unique(s: Seq<u8>)
    requires
        spec_array(s) is Ok,
    ensures
        elems_keys_unique(spec_array(s)->Ok_0.0),
    decreases s.len(), 1nat,
{
    let t = s.subrange(1, s.len() as int);
    lemma_elems_unique(t.subrange(4, t.len() as int), crate::cursor::be32(t), seq![]);
}

/// Every object in a value that the decoder reads has each key at most once, at any depth:
/// where a key comes again, its later value takes the place of the earlier one.
pub proof fn lemma_value_unique(s: Seq<u8>)
    requires
        spec_value(s) is Ok,
    ensures
        keys_unique(spec_value(s)->Ok_0.0),
    decreases s.len(), 2nat,
{
    let m = crate::amf0::decoder::spec_read_marker(s)->Ok_0.0;
    match m {
        crate::amf0::marker::Amf0Marker::Object
        | crate::amf0::marker::Amf0Marker::TypedObject
        | crate::amf0::marker::Amf0Marker::EcmaArray => lemma_object_unique(s),
        crate::amf0::marker::Amf0Marker::StrictArray => lemma_array_unique(s),
        _ => {},
    }
}

/// Each of the values read until the input is used up has unique keys.
pub proof fn lemma_all_unique(s: Seq<u8>, acc: Seq<Amf0ValueView>)
    requires
        elems_keys_unique(acc),
        spec_all(s, acc) is Ok,
    ensures
        elems_keys_unique(spec_all(s, acc)->Ok_0),
    decreases s.len(),
{
    if s.len() != 0 {
        let (v, vn) = spec_value(s)->Ok_0;
        lemma_value_unique(s);
        assert(acc.push(v).drop_last() =~= acc);
        lemma_all_unique(s.subrange(vn as int, s.len() as int), acc.push(v));
    }
}

} // verus!
