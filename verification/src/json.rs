//! Plain JSON-like values: the shape of annotation arguments and of captured
//! literal examples. Numbers with a fractional part are carried as their
//! source text, so the engine itself never computes with them.
use vstd::prelude::*;

verus! {

/// A plain value, as an annotation argument or a captured example.
#[derive(Debug, PartialEq)]
pub enum Json {
    Null,
    Bool(bool),
    Int(i64),
    /// A number with a fractional part, kept as its source text.
    Float(String),
    Str(String),
    Arr(Vec<Json>),
    Obj(Vec<(String, Json)>),
}

/// The mathematical shape of a [`Json`] value.
#[verifier::ext_equal]
pub enum JsonV {
    Null,
    Bool(bool),
    Int(i64),
    Float(Seq<char>),
    Str(Seq<char>),
    Arr(Seq<JsonV>),
    Obj(Seq<(Seq<char>, JsonV)>),
}

#[via_fn]
proof fn json_view_dec(j: Json) {
    match j {
        Json::Arr(v) => {
            assert(decreases_to!(j => j->Arr_0));
            assert(decreases_to!(v => v@));
        },
        Json::Obj(v) => {
            assert(decreases_to!(j => j->Obj_0));
            assert(decreases_to!(v => v@));
        },
        _ => {},
    }
}

#[via_fn]
proof fn json_view_arr_dec(s: Seq<Json>) {
    if s.len() > 0 {
        assert(decreases_to!(s => s[0]));
        assert(s.drop_first() == s.subrange(1, s.len() as int));
        assert(decreases_to!(s => s.subrange(1, s.len() as int)));
    }
}

#[via_fn]
proof fn json_view_obj_dec(s: Seq<(String, Json)>) {
    if s.len() > 0 {
        assert(decreases_to!(s => s[0]));
        assert(decreases_to!(s[0] => s[0].1));
        assert(s.drop_first() == s.subrange(1, s.len() as int));
        assert(decreases_to!(s => s.subrange(1, s.len() as int)));
    }
}

/// The abstraction of a plain value.
pub open spec fn json_view(j: Json) -> JsonV
    decreases j,
    via json_view_dec
{
    match j {
        Json::Null => JsonV::Null,
        Json::Bool(b) => JsonV::Bool(b),
        Json::Int(i) => JsonV::Int(i),
        Json::Float(s) => JsonV::Float(s@),
        Json::Str(s) => JsonV::Str(s@),
        Json::Arr(v) => JsonV::Arr(json_view_arr(v@)),
        Json::Obj(v) => JsonV::Obj(json_view_obj(v@)),
    }
}

/// The abstraction of a sequence of plain values.
pub open spec fn json_view_arr(s: Seq<Json>) -> Seq<JsonV>
    decreases s,
    via json_view_arr_dec
{
    if s.len() == 0 {
        Seq::empty()
    } else {
        seq![json_view(s[0])] + json_view_arr(s.drop_first())
    }
}

/// The abstraction of a sequence of keyed plain values.
pub open spec fn json_view_obj(s: Seq<(String, Json)>) -> Seq<(Seq<char>, JsonV)>
    decreases s,
    via json_view_obj_dec
{
    if s.len() == 0 {
        Seq::empty()
    } else {
        seq![(s[0].0@, json_view(s[0].1))] + json_view_obj(s.drop_first())
    }
}

/// Element-wise reading of [`json_view_arr`].
pub proof fn lemma_json_view_arr(s: Seq<Json>)
    ensures
        json_view_arr(s).len() == s.len(),
        forall|i: int| 0 <= i < s.len() ==> json_view_arr(s)[i] == json_view(s[i]),
    decreases s.len(),
{
    if s.len() > 0 {
        lemma_json_view_arr(s.drop_first());
    }
}

/// Element-wise reading of [`json_view_obj`].
pub proof fn lemma_json_view_obj(s: Seq<(String, Json)>)
    ensures
        json_view_obj(s).len() == s.len(),
        forall|i: int|
            0 <= i < s.len() ==> json_view_obj(s)[i] == (s[i].0@, json_view(s[i].1)),
    decreases s.len(),
{
    if s.len() > 0 {
        lemma_json_view_obj(s.drop_first());
    }
}

impl View for Json {
    type V = JsonV;

    open spec fn view(&self) -> JsonV {
        json_view(*self)
    }
}

impl DeepView for Json {
    type V = JsonV;

    open spec fn deep_view(&self) -> JsonV {
        json_view(*self)
    }
}

/// A copy of the value, equal under the abstraction.
pub fn clone_json(j: &Json) -> (r: Json)
    ensures
        r@ == j@,
    decreases *j,
{
    match j {
        Json::Null => Json::Null,
        Json::Bool(b) => Json::Bool(*b),
        Json::Int(i) => Json::Int(*i),
        Json::Float(s) => Json::Float(s.clone()),
        Json::Str(s) => Json::Str(s.clone()),
        Json::Arr(v) => {
            let mut out: Vec<Json> = Vec::new();
            let mut i: usize = 0;
            while i < v.len()
                invariant
                    i <= v@.len(),
                    j == Json::Arr(*v),
                    out@.len() == i,
                    forall|k: int| 0 <= k < i ==> #[trigger] out@[k]@ == v@[k]@,
                decreases v@.len() - i,
            {
                proof {
                    assert(decreases_to!(*j => j->Arr_0));
                    assert(decreases_to!(*v => v@));
                    assert(decreases_to!(v@ => v@[i as int]));
                }
                let c = clone_json(&v[i]);
                out.push(c);
                i = i + 1;
            }
            proof {
                lemma_json_view_arr(out@);
                lemma_json_view_arr(v@);
                assert forall|k: int| 0 <= k < v@.len() implies json_view_arr(out@)[k]
                    == json_view_arr(v@)[k] by {
                    assert(out@[k]@ == v@[k]@);
                }
                assert(json_view_arr(out@) =~~= json_view_arr(v@));
                assert(Json::Arr(out)@ =~~= j@);
            }
            Json::Arr(out)
        },
        Json::Obj(v) => {
            let mut out: Vec<(String, Json)> = Vec::new();
            let mut i: usize = 0;
            while i < v.len()
                invariant
                    i <= v@.len(),
                    j == Json::Obj(*v),
                    out@.len() == i,
                    forall|k: int|
                        0 <= k < i ==> #[trigger] out@[k].0@ == v@[k].0@ && out@[k].1@ == v@[k].1@,
                decreases v@.len() - i,
            {
                proof {
                    assert(decreases_to!(*j => j->Obj_0));
                    assert(decreases_to!(*v => v@));
                    assert(decreases_to!(v@ => v@[i as int]));
                    assert(decreases_to!(v@[i as int] => v@[i as int].1));
                }
                let key = v[i].0.clone();
                let val = clone_json(&v[i].1);
                out.push((key, val));
                i = i + 1;
            }
            proof {
                lemma_json_view_obj(out@);
                lemma_json_view_obj(v@);
                assert(json_view_obj(out@) =~~= json_view_obj(v@));
                assert(Json::Obj(out)@ =~~= j@);
            }
            Json::Obj(out)
        },
    }
}

} // verus!
