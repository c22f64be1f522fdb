//! AMF0 values.
use vstd::prelude::*;

verus! {

broadcast use vstd::std_specs::vec::axiom_vec_decreases_to_view;

/// A decoded AMF0 value.
#[derive(Debug, PartialEq)]
pub enum Amf0Value {
    /// A number, as the bits of its IEEE-754 double.
    Number(u64),
    /// A boolean.
    Boolean(bool),
    /// A string.
    String(String),
    /// An object: its properties in the order they were first read, each key once.
    Object(Vec<(String, Amf0Value)>),
    /// Null (also stands for undefined).
    Null,
    /// A strict array.
    Array(Vec<Amf0Value>),
}

/// The mathematical value of an [`Amf0Value`].
pub enum Amf0ValueView {
    Number(u64),
    Boolean(bool),
    String(Seq<char>),
    Object(Seq<(Seq<char>, Amf0ValueView)>),
    Null,
    Array(Seq<Amf0ValueView>),
}

/// The views of a sequence of values.
pub open spec fn values_view(s: Seq<Amf0Value>) -> Seq<Amf0ValueView>
    decreases s, 0nat,
{
    if s.len() == 0 {
        seq![]
    } else {
        values_view(s.drop_last()).push(value_view(s.last()))
    }
}

/// The views of a sequence of properties.
pub open spec fn props_view(s: Seq<(String, Amf0Value)>) -> Seq<(Seq<char>, Amf0ValueView)>
    decreases s, 0nat,
{
    if s.len() == 0 {
        seq![]
    } else {
        props_view(s.drop_last()).push((s.last().0@, value_view(s.last().1)))
    }
}

/// The view of a value.
pub open spec fn value_view(v: Amf0Value) -> Amf0ValueView
    decreases v, 1nat,
{
    match v {
        Amf0Value::Number(n) => Amf0ValueView::Number(n),
        Amf0Value::Boolean(b) => Amf0ValueView::Boolean(b),
        Amf0Value::String(s) => Amf0ValueView::String(s@),
        Amf0Value::Object(p) => Amf0ValueView::Object(props_view(p@)),
        Amf0Value::Null => Amf0ValueView::Null,
        Amf0Value::Array(a) => Amf0ValueView::Array(values_view(a@)),
    }
}

/// The views of a sequence of values are the views of its elements.
pub proof fn lemma_values_view(s: Seq<Amf0Value>)
    ensures
        values_view(s).len() == s.len(),
        forall|i: int| 0 <= i < s.len() ==> #[trigger] values_view(s)[i] == value_view(s[i]),
    decreases s.len(),
{
    if s.len() > 0 {
        lemma_values_view(s.drop_last());
        assert forall|i: int| 0 <= i < s.len() implies #[trigger] values_view(s)[i] == value_view(
            s[i],
        ) by {
            if i < s.len() - 1 {
                assert(s.drop_last()[i] == s[i]);
            }
        }
    }
}

/// The views of a sequence of properties are the keys' and values' views.
pub proof fn lemma_props_view(s: Seq<(String, Amf0Value)>)
    ensures
        props_view(s).len() == s.len(),
        forall|i: int|
            0 <= i < s.len() ==> #[trigger] props_view(s)[i] == (s[i].0@, value_view(s[i].1)),
    decreases s.len(),
{
    if s.len() > 0 {
        lemma_props_view(s.drop_last());
        assert forall|i: int| 0 <= i < s.len() implies #[trigger] props_view(s)[i] == (
            s[i].0@,
            value_view(s[i].1),
        ) by {
            if i < s.len() - 1 {
                assert(s.drop_last()[i] == s[i]);
            }
        }
    }
}

impl View for Amf0Value {
    type V = Amf0ValueView;

    open spec fn view(&self) -> Amf0ValueView {
        value_view(*self)
    }
}

/// A copy of a value and of everything in it.
#[verifier::loop_isolation(false)]
pub fn clone_value(v: &Amf0Value) -> (r: Amf0Value)
    ensures
        r@ == v@,
    decreases v,
{
    match v {
        Amf0Value::Number(n) => Amf0Value::Number(*n),
        Amf0Value::Boolean(b) => Amf0Value::Boolean(*b),
        Amf0Value::String(s) => Amf0Value::String(s.clone()),
        Amf0Value::Null => Amf0Value::Null,
        Amf0Value::Array(a) => {
            let mut out: Vec<Amf0Value> = Vec::new();
            let mut i: usize = 0;
            proof {
                lemma_values_view(a@);
            }
            while i < a.len()
                invariant
                    i <= a.len(),
                    values_view(out@) == values_view(a@).subrange(0, i as int),
                    values_view(a@).len() == a@.len(),
                    forall|j: int| 0 <= j < a@.len() ==> #[trigger] values_view(a@)[j] == value_view(a@[j]),
                decreases a.len() - i,
            {
                proof {
                    assert(decreases_to!(v => a@[i as int]));
                }
                let c = clone_value(&a[i]);
                let ghost before = out@;
                out.push(c);
                assert(out@.drop_last() =~= before);
                assert(values_view(out@) =~= values_view(a@).subrange(0, i + 1));
                i = i + 1;
            }
            assert(values_view(a@).subrange(0, a.len() as int) =~= values_view(a@));
            Amf0Value::Array(out)
        },
        Amf0Value::Object(p) => {
            let mut out: Vec<(String, Amf0Value)> = Vec::new();
            let mut i: usize = 0;
            proof {
                lemma_props_view(p@);
            }
            while i < p.len()
                invariant
                    i <= p.len(),
                    props_view(out@) == props_view(p@).subrange(0, i as int),
                    props_view(p@).len() == p@.len(),
                    forall|j: int|
                        0 <= j < p@.len() ==> #[trigger] props_view(p@)[j] == (p@[j].0@, value_view(p@[j].1)),
                decreases p.len() - i,
            {
                proof {
                    assert(decreases_to!(v => p@[i as int]));
                    assert(decreases_to!(p@[i as int] => p@[i as int].1));
                }
                let k = p[i].0.clone();
                let c = clone_value(&p[i].1);
                let ghost before = out@;
                out.push((k, c));
                assert(out@.drop_last() =~= before);
                assert(props_view(out@) =~= props_view(p@).subrange(0, i + 1));
                i = i + 1;
            }
            assert(props_view(p@).subrange(0, p.len() as int) =~= props_view(p@));
            Amf0Value::Object(out)
        },
    }
}

impl Amf0Value {
    /// The value, owning all of its data; values here always do, so this is the value itself.
    pub fn into_owned(self) -> (r: Amf0Value)
        ensures
            r@ == self@,
    {
        self
    }

    /// A copy of the value and of everything in it.
    pub fn deep_clone(&self) -> (r: Amf0Value)
        ensures
            r@ == self@,
    {
        clone_value(self)
    }
}

} // verus!
