//! A dynamically-shaped value: the tagged variant that the store accepts,
//! able to represent nested maps, sequences, strings, numbers, booleans and
//! null. A floating-point number is carried as its raw bit pattern, so that
//! a stored payload round-trips without the store ever computing on it.

use vstd::prelude::*;

verus! {

broadcast use vstd::std_specs::vec::group_vec_axioms, vstd::seq::group_seq_axioms;

/// The mathematical shape of a stored value.
pub enum SpecJson {
    Null,
    Bool(bool),
    Int(i64),
    UInt(u64),
    FloatBits(u64),
    Str(Seq<char>),
    Arr(Seq<SpecJson>),
    Obj(Seq<(Seq<char>, SpecJson)>),
}

/// A stored value. An object is a sequence of fields in their original
/// order; duplicate field names are kept as they arrived.
#[derive(Debug, PartialEq, Eq)]
pub enum JsonValue {
    Null,
    Bool(bool),
    Int(i64),
    UInt(u64),
    FloatBits(u64),
    Str(String),
    Arr(Vec<JsonValue>),
    Obj(Vec<(String, JsonValue)>),
}

/// The shape of a value.
pub open spec fn view_of(v: JsonValue) -> SpecJson
    decreases v,
{
    match v {
        JsonValue::Null => SpecJson::Null,
        JsonValue::Bool(b) => SpecJson::Bool(b),
        JsonValue::Int(i) => SpecJson::Int(i),
        JsonValue::UInt(u) => SpecJson::UInt(u),
        JsonValue::FloatBits(f) => SpecJson::FloatBits(f),
        JsonValue::Str(s) => SpecJson::Str(s@),
        JsonValue::Arr(vs) => SpecJson::Arr(view_arr(vs@)),
        JsonValue::Obj(fs) => SpecJson::Obj(view_obj(fs@)),
    }
}

/// The shapes of the elements of an array, in order.
pub open spec fn view_arr(s: Seq<JsonValue>) -> Seq<SpecJson>
    decreases s,
{
    if s.len() == 0 {
        Seq::empty()
    } else {
        view_arr(s.drop_last()).push(view_of(s.last()))
    }
}

/// The shapes of the fields of an object, in order.
pub open spec fn view_obj(s: Seq<(String, JsonValue)>) -> Seq<(Seq<char>, SpecJson)>
    decreases s,
{
    if s.len() == 0 {
        Seq::empty()
    } else {
        view_obj(s.drop_last()).push((s.last().0@, view_of(s.last().1)))
    }
}

impl View for JsonValue {
    type V = SpecJson;

    open spec fn view(&self) -> SpecJson {
        view_of(*self)
    }
}

/// An array's shape has one entry per element, the element's shape.
pub proof fn lemma_view_arr(s: Seq<JsonValue>)
    ensures
        view_arr(s).len() == s.len(),
        forall|i: int| 0 <= i < s.len() ==> #[trigger] view_arr(s)[i] == view_of(s[i]),
    decreases s.len(),
{
    if s.len() > 0 {
        lemma_view_arr(s.drop_last());
        assert forall|i: int| 0 <= i < s.len() implies #[trigger] view_arr(s)[i] == view_of(
            s[i],
        ) by {
            if i < s.len() - 1 {
                assert(s.drop_last()[i] == s[i]);
            } else {
                assert(s.last() == s[i]);
            }
        }
    }
}

/// An object's shape has one entry per field: the field's name and shape.
pub proof fn lemma_view_obj(s: Seq<(String, JsonValue)>)
    ensures
        view_obj(s).len() == s.len(),
        forall|i: int| 0 <= i < s.len() ==> #[trigger] view_obj(s)[i] == (s[i].0@, view_of(
            s[i].1,
        )),
    decreases s.len(),
{
    if s.len() > 0 {
        lemma_view_obj(s.drop_last());
        assert forall|i: int| 0 <= i < s.len() implies #[trigger] view_obj(s)[i] == (
            s[i].0@,
            view_of(s[i].1),
        ) by {
            if i < s.len() - 1 {
                assert(s.drop_last()[i] == s[i]);
            } else {
                assert(s.last() == s[i]);
            }
        }
    }
}

impl JsonValue {
    /// A full independent copy, equal to the original under the view.
    pub fn deep_clone(&self) -> (r: JsonValue)
        ensures
            r@ == self@,
        decreases self,
    {
        match self {
            JsonValue::Null => JsonValue::Null,
            JsonValue::Bool(b) => JsonValue::Bool(*b),
            JsonValue::Int(i) => JsonValue::Int(*i),
            JsonValue::UInt(u) => JsonValue::UInt(*u),
            JsonValue::FloatBits(f) => JsonValue::FloatBits(*f),
            JsonValue::Str(s) => JsonValue::Str(s.clone()),
            JsonValue::Arr(vs) => {
                let mut out: Vec<JsonValue> = Vec::new();
                let mut k: usize = 0;
                while k < vs.len()
                    invariant
                        self is Arr,
                        self->Arr_0 == *vs,
                        k <= vs@.len(),
                        out@.len() == k,
                        forall|i: int| 0 <= i < k ==> view_of(#[trigger] out@[i]) == view_of(
                            vs@[i],
                        ),
                    decreases vs@.len() - k,
                {
                    proof {
                        assert(decreases_to!(*self => vs@[k as int]));
                    }
                    let c = vs[k].deep_clone();
                    out.push(c);
                    k = k + 1;
                }
                let r = JsonValue::Arr(out);
                proof {
                    lemma_view_arr(out@);
                    lemma_view_arr(vs@);
                    assert(view_arr(out@) =~= view_arr(vs@));
                }
                r
            },
            JsonValue::Obj(fs) => {
                let mut out: Vec<(String, JsonValue)> = Vec::new();
                let mut k: usize = 0;
                while k < fs.len()
                    invariant
                        self is Obj,
                        self->Obj_0 == *fs,
                        k <= fs@.len(),
                        out@.len() == k,
                        forall|i: int| 0 <= i < k ==> (#[trigger] out@[i]).0@ == fs@[i].0@
                            && view_of(out@[i].1) == view_of(fs@[i].1),
                    decreases fs@.len() - k,
                {
                    proof {
                        assert(decreases_to!(*self => fs@[k as int].1));
                    }
                    let name = fs[k].0.clone();
                    let val = fs[k].1.deep_clone();
                    out.push((name, val));
                    k = k + 1;
                }
                let r = JsonValue::Obj(out);
                proof {
                    lemma_view_obj(out@);
                    lemma_view_obj(fs@);
                    assert(view_obj(out@) =~= view_obj(fs@));
                }
                r
            },
        }
    }
}

} // verus!
