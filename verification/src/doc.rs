//! The document tree the engine consumes: values with attached, named,
//! positioned annotations, plus the typed accessors that read an annotation
//! and check its argument's shape.
use crate::error::res_view;
use crate::error::Error;
use crate::error::ErrorV;
use crate::error::invalid_annotation_v;
use crate::json::json_view;
use crate::json::Json;
use crate::json::JsonV;
use vstd::prelude::*;

verus! {

/// A source position: line and column, for diagnostics.
#[derive(Debug, Clone, Copy, PartialEq, Eq, Structural)]
pub struct Position {
    pub line: u64,
    pub col: u64,
}

impl View for Position {
    type V = Position;

    open spec fn view(&self) -> Position {
        *self
    }
}

impl DeepView for Position {
    type V = Position;

    open spec fn deep_view(&self) -> Position {
        *self
    }
}

/// Named, positioned metadata attached to a document node.
#[derive(Debug, PartialEq)]
pub struct Annotation {
    pub name: String,
    pub value: Json,
    pub position: Position,
}

/// One property of an object node: a key, the key's position, and a value.
#[derive(Debug, PartialEq)]
pub struct Property {
    pub key: String,
    pub position: Position,
    pub value: Node,
}

/// The literal content of a document node.
#[derive(Debug, PartialEq)]
pub enum NodeValue {
    Null,
    Bool(bool),
    Int(i64),
    /// A number with a fractional part, kept as its source text.
    Float(String),
    Str(String),
    Array(Vec<Node>),
    Object(Vec<Property>),
}

/// A document node: a value, its annotations, and its source position.
#[derive(Debug, PartialEq)]
pub struct Node {
    pub value: NodeValue,
    pub annotations: Vec<Annotation>,
    pub position: Position,
}

#[via_fn]
proof fn spec_plain_dec(n: Node) {
    assert(decreases_to!(n => n.value));
    match n.value {
        NodeValue::Array(elems) => {
            assert(decreases_to!(n.value => n.value->Array_0));
            assert(decreases_to!(elems => elems@));
        },
        NodeValue::Object(props) => {
            assert(decreases_to!(n.value => n.value->Object_0));
            assert(decreases_to!(props => props@));
        },
        _ => {},
    }
}

#[via_fn]
proof fn plain_arr_dec(s: Seq<Node>) {
    if s.len() > 0 {
        assert(decreases_to!(s => s[0]));
        assert(s.drop_first() == s.subrange(1, s.len() as int));
        assert(decreases_to!(s => s.subrange(1, s.len() as int)));
    }
}

#[via_fn]
proof fn plain_obj_dec(s: Seq<Property>) {
    if s.len() > 0 {
        assert(decreases_to!(s => s[0]));
        assert(decreases_to!(s[0] => s[0].value));
        assert(s.drop_first() == s.subrange(1, s.len() as int));
        assert(decreases_to!(s => s.subrange(1, s.len() as int)));
    }
}

/// The plain value of a node: its literal content with all annotations
/// stripped, the shape captured as an example or handed out by an adapter.
pub open spec fn spec_plain(n: Node) -> JsonV
    decreases n,
    via spec_plain_dec
{
    match n.value {
        NodeValue::Null => JsonV::Null,
        NodeValue::Bool(b) => JsonV::Bool(b),
        NodeValue::Int(i) => JsonV::Int(i),
        NodeValue::Float(s) => JsonV::Float(s@),
        NodeValue::Str(s) => JsonV::Str(s@),
        NodeValue::Array(elems) => JsonV::Arr(plain_arr(elems@)),
        NodeValue::Object(props) => JsonV::Obj(plain_obj(props@)),
    }
}

/// The plain values of a sequence of nodes.
pub open spec fn plain_arr(s: Seq<Node>) -> Seq<JsonV>
    decreases s,
    via plain_arr_dec
{
    if s.len() == 0 {
        Seq::empty()
    } else {
        seq![spec_plain(s[0])] + plain_arr(s.drop_first())
    }
}

/// The plain values of a sequence of properties, keyed.
pub open spec fn plain_obj(s: Seq<Property>) -> Seq<(Seq<char>, JsonV)>
    decreases s,
    via plain_obj_dec
{
    if s.len() == 0 {
        Seq::empty()
    } else {
        seq![(s[0].key@, spec_plain(s[0].value))] + plain_obj(s.drop_first())
    }
}

/// Element-wise reading of [`plain_arr`].
pub proof fn lemma_plain_arr(s: Seq<Node>)
    ensures
        plain_arr(s).len() == s.len(),
        forall|i: int| 0 <= i < s.len() ==> plain_arr(s)[i] == spec_plain(s[i]),
    decreases s.len(),
{
    if s.len() > 0 {
        lemma_plain_arr(s.drop_first());
    }
}

/// Element-wise reading of [`plain_obj`].
pub proof fn lemma_plain_obj(s: Seq<Property>)
    ensures
        plain_obj(s).len() == s.len(),
        forall|i: int| 0 <= i < s.len() ==> plain_obj(s)[i] == (s[i].key@, spec_plain(s[i].value)),
    decreases s.len(),
{
    if s.len() > 0 {
        lemma_plain_obj(s.drop_first());
    }
}

impl Node {
    /// The node's plain value, annotations stripped: what an example or a
    /// pass-through field records of it.
    pub fn to_plain_json(&self) -> (r: Json)
        ensures
            r@ == spec_plain(*self),
        decreases *self,
    {
        match &self.value {
            NodeValue::Null => Json::Null,
            NodeValue::Bool(b) => Json::Bool(*b),
            NodeValue::Int(i) => Json::Int(*i),
            NodeValue::Float(s) => Json::Float(s.clone()),
            NodeValue::Str(s) => Json::Str(s.clone()),
            NodeValue::Array(elems) => {
                let mut out: Vec<Json> = Vec::new();
                let mut i: usize = 0;
                while i < elems.len()
                    invariant
                        i <= elems@.len(),
                        self.value == NodeValue::Array(*elems),
                        out@.len() == i,
                        forall|k: int| 0 <= k < i ==> #[trigger] out@[k]@ == spec_plain(elems@[k]),
                    decreases elems@.len() - i,
                {
                    proof {
                        assert(decreases_to!(*self => self.value));
                        assert(decreases_to!(self.value => self.value->Array_0));
                        assert(decreases_to!(*elems => elems@));
                        assert(decreases_to!(elems@ => elems@[i as int]));
                    }
                    let c = elems[i].to_plain_json();
                    out.push(c);
                    i = i + 1;
                }
                proof {
                    lemma_json_arr_bridge(out@, elems@);
                    assert(Json::Arr(out)@ == spec_plain(*self));
                }
                Json::Arr(out)
            },
            NodeValue::Object(props) => {
                let mut out: Vec<(String, Json)> = Vec::new();
                let mut i: usize = 0;
                while i < props.len()
                    invariant
                        i <= props@.len(),
                        self.value == NodeValue::Object(*props),
                        out@.len() == i,
                        forall|k: int| 0 <= k < i ==> #[trigger] out@[k].0@ == props@[k].key@,
                        forall|k: int|
                            0 <= k < i ==> #[trigger] out@[k].1@ == spec_plain(props@[k].value),
                    decreases props@.len() - i,
                {
                    proof {
                        assert(decreases_to!(*self => self.value));
                        assert(decreases_to!(self.value => self.value->Object_0));
                        assert(decreases_to!(*props => props@));
                        assert(decreases_to!(props@ => props@[i as int]));
                        assert(decreases_to!(props@[i as int] => props@[i as int].value));
                    }
                    let key = props[i].key.clone();
                    let val = props[i].value.to_plain_json();
                    out.push((key, val));
                    i = i + 1;
                }
                proof {
                    lemma_json_obj_bridge(out@, props@);
                    assert(Json::Obj(out)@ == spec_plain(*self));
                }
                Json::Obj(out)
            },
        }
    }
}

/// A vector of plain values read element-wise equals the model of the nodes.
proof fn lemma_json_arr_bridge(out: Seq<Json>, elems: Seq<Node>)
    requires
        out.len() == elems.len(),
        forall|k: int| 0 <= k < out.len() ==> #[trigger] out[k]@ == spec_plain(elems[k]),
    ensures
        crate::json::json_view_arr(out) == plain_arr(elems),
{
    crate::json::lemma_json_view_arr(out);
    lemma_plain_arr(elems);
    assert forall|k: int| 0 <= k < out.len() implies crate::json::json_view_arr(out)[k]
        == plain_arr(elems)[k] by {
        assert(out[k]@ == spec_plain(elems[k]));
    }
    assert(crate::json::json_view_arr(out) =~~= plain_arr(elems));
}

/// A vector of keyed plain values read element-wise equals the model of the
/// properties.
proof fn lemma_json_obj_bridge(out: Seq<(String, Json)>, props: Seq<Property>)
    requires
        out.len() == props.len(),
        forall|k: int| 0 <= k < out.len() ==> #[trigger] out[k].0@ == props[k].key@,
        forall|k: int| 0 <= k < out.len() ==> #[trigger] out[k].1@ == spec_plain(props[k].value),
    ensures
        crate::json::json_view_obj(out) == plain_obj(props),
{
    crate::json::lemma_json_view_obj(out);
    lemma_plain_obj(props);
    assert forall|k: int| 0 <= k < out.len() implies crate::json::json_view_obj(out)[k]
        == plain_obj(props)[k] by {
        assert(out[k].0@ == props[k].key@);
        assert(out[k].1@ == spec_plain(props[k].value));
        assert(crate::json::json_view_obj(out)[k] == (out[k].0@, crate::json::json_view(out[k].1)));
        assert(plain_obj(props)[k] == (props[k].key@, spec_plain(props[k].value)));
    }
    assert(crate::json::json_view_obj(out) =~~= plain_obj(props));
}

/// The first annotation with the given name, if any.
pub open spec fn find_ann(anns: Seq<Annotation>, name: Seq<char>) -> Option<Annotation>
    decreases anns.len(),
{
    if anns.len() == 0 {
        None
    } else if anns[0].name@ == name {
        Some(anns[0])
    } else {
        find_ann(anns.drop_first(), name)
    }
}

/// Looks up an annotation by name; the first occurrence wins.
pub fn find_annotation<'a>(anns: &'a Vec<Annotation>, name: &str) -> (r: Option<&'a Annotation>)
    ensures
        match r {
            Some(a) => find_ann(anns@, name@) == Some(*a),
            None => find_ann(anns@, name@) is None,
        },
{
    let mut i: usize = 0;
    proof {
        assert(anns@.skip(0) =~= anns@);
    }
    while i < anns.len()
        invariant
            i <= anns@.len(),
            find_ann(anns@, name@) == find_ann(anns@.skip(i as int), name@),
        decreases anns@.len() - i,
    {
        proof {
            assert(anns@.skip(i as int).drop_first() =~= anns@.skip(i + 1));
        }
        if crate::strings::str_eq(anns[i].name.as_str(), name) {
            assert(anns@.skip(i as int)[0] == anns@[i as int]);
            return Some(&anns[i]);
        }
        i = i + 1;
    }
    proof {
        assert(anns@.skip(anns@.len() as int) =~= Seq::<Annotation>::empty());
    }
    None
}

/// Whether an annotation with the given name is present at all: the
/// presence-only accessor, which never fails.
pub fn has_annotation(anns: &Vec<Annotation>, name: &str) -> (r: bool)
    ensures
        r == (find_ann(anns@, name@) is Some),
{
    find_annotation(anns, name).is_some()
}

/// The outcome of reading a string-shaped annotation: absent, present with a
/// string argument, or a shape diagnostic at the annotation's position.
pub open spec fn string_ann_v(
    anns: Seq<Annotation>,
    name: Seq<char>,
    scope: Seq<Seq<char>>,
) -> Result<Option<Seq<char>>, ErrorV> {
    match find_ann(anns, name) {
        None => Ok(None),
        Some(a) => match a.value {
            Json::Str(s) => Ok(Some(s@)),
            _ => Err(invalid_annotation_v("must be string"@, name, scope, a.position)),
        },
    }
}

/// Reads an annotation whose argument must be a string.
pub fn string_annotation(anns: &Vec<Annotation>, name: &str, scope: &Vec<String>) -> (r: Result<
    Option<String>,
    Error,
>)
    ensures
        res_view(r) == string_ann_v(anns@, name@, scope.deep_view()),
{
    match find_annotation(anns, name) {
        None => Ok(None),
        Some(a) => match &a.value {
            Json::Str(s) => Ok(Some(s.clone())),
            _ => Err(Error::invalid_annotation("must be string", name, scope, a.position)),
        },
    }
}

/// The outcome of reading an object-shaped annotation: absent, present with
/// an object argument, or a shape diagnostic at the annotation's position.
pub open spec fn object_ann_v(
    anns: Seq<Annotation>,
    name: Seq<char>,
    scope: Seq<Seq<char>>,
) -> Result<Option<Annotation>, ErrorV> {
    match find_ann(anns, name) {
        None => Ok(None),
        Some(a) => match a.value {
            Json::Obj(_) => Ok(Some(a)),
            _ => Err(invalid_annotation_v("must be object"@, name, scope, a.position)),
        },
    }
}

/// Reads an annotation whose argument must be an object; hands back the whole
/// annotation so callers can reach its argument and its position.
pub fn object_annotation<'a>(
    anns: &'a Vec<Annotation>,
    name: &str,
    scope: &Vec<String>,
) -> (r: Result<Option<&'a Annotation>, Error>)
    ensures
        match r {
            Ok(None) => object_ann_v(anns@, name@, scope.deep_view()) == Ok::<
                Option<Annotation>,
                ErrorV,
            >(None),
            Ok(Some(a)) => object_ann_v(anns@, name@, scope.deep_view()) == Ok::<
                Option<Annotation>,
                ErrorV,
            >(Some(*a)) && a.value is Obj,
            Err(e) => object_ann_v(anns@, name@, scope.deep_view()) == Err::<
                Option<Annotation>,
                ErrorV,
            >(e@),
        },
{
    match find_annotation(anns, name) {
        None => Ok(None),
        Some(a) => match &a.value {
            Json::Obj(_) => Ok(Some(a)),
            _ => Err(Error::invalid_annotation("must be object", name, scope, a.position)),
        },
    }
}

/// The first property with the given key, if any.
pub open spec fn find_prop(props: Seq<Property>, key: Seq<char>) -> Option<Property>
    decreases props.len(),
{
    if props.len() == 0 {
        None
    } else if props[0].key@ == key {
        Some(props[0])
    } else {
        find_prop(props.drop_first(), key)
    }
}

/// Looks up a property of an object by key; the first occurrence wins.
pub fn find_property<'a>(props: &'a Vec<Property>, key: &str) -> (r: Option<&'a Property>)
    ensures
        match r {
            Some(p) => find_prop(props@, key@) == Some(*p),
            None => find_prop(props@, key@) is None,
        },
{
    let mut i: usize = 0;
    proof {
        assert(props@.skip(0) =~= props@);
    }
    while i < props.len()
        invariant
            i <= props@.len(),
            find_prop(props@, key@) == find_prop(props@.skip(i as int), key@),
        decreases props@.len() - i,
    {
        proof {
            assert(props@.skip(i as int).drop_first() =~= props@.skip(i + 1));
        }
        if crate::strings::str_eq(props[i].key.as_str(), key) {
            assert(props@.skip(i as int)[0] == props@[i as int]);
            return Some(&props[i]);
        }
        i = i + 1;
    }
    proof {
        assert(props@.skip(props@.len() as int) =~= Seq::<Property>::empty());
    }
    None
}

} // verus!
