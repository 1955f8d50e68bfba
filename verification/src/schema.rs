//! The schema inference engine: maps a document value and its annotations to
//! a schema. A `use` annotation short-circuits to a reference; a `schema`
//! annotation seeds an override that literal inference never clobbers; the
//! value's kind fills in the primitive type, the captured example, object
//! properties with required-field inference, array items or a combinator
//! list; and a `save` annotation registers the result and returns a
//! reference in its place.
use crate::doc::find_ann;
use crate::doc::string_ann_v;
use crate::doc::string_annotation;
use crate::doc::Annotation;
use crate::doc::Node;
use crate::doc::NodeValue;
use crate::entries::insert_v;
use crate::entries::Entries;
use crate::error::invalid_annotation_v;
use crate::error::invalid_ast_v;
use crate::error::res_view;
use crate::error::Error;
use crate::error::ErrorV;
use crate::json::json_view_obj;
use crate::json::Json;
use crate::json::JsonV;
use crate::openapi::compute_ref_v;
use crate::openapi::inline_schema_empty_v;
use crate::openapi::ComponentKind;
use crate::openapi::InlineSchema;
use crate::openapi::InlineSchemaV;
use crate::openapi::ObjectOrReference;
use crate::openapi::ObjectOrReferenceV;
use crate::openapi::Schema;
use crate::openapi::SchemaV;
use crate::schema_json::json_inline_v;
use crate::strings::dec_str;
use crate::strings::usize_to_string;
use vstd::prelude::*;

verus! {

/// The schema registry threaded through inference: named schemas saved so
/// far, in first-save order.
pub type Defs = Entries<ObjectOrReference<Schema>>;

/// The abstraction of the schema registry.
pub type DefsV = Seq<(Seq<char>, ObjectOrReferenceV<SchemaV>)>;

/// The outcome of reading the `schemaCombine` annotation: absent, one of the
/// three combinator names, or a diagnostic.
pub open spec fn combine_ann_v(anns: Seq<Annotation>, scope: Seq<Seq<char>>) -> Result<
    Option<Seq<char>>,
    ErrorV,
> {
    match find_ann(anns, "schemaCombine"@) {
        None => Ok(None),
        Some(a) => match a.value {
            Json::Str(s) => if s@ == "allOf"@ || s@ == "anyOf"@ || s@ == "oneOf"@ {
                Ok(Some(s@))
            } else {
                Err(invalid_annotation_v(""@, "schemaCombine"@, scope, a.position))
            },
            _ => Err(invalid_annotation_v("must be string"@, "schemaCombine"@, scope, a.position)),
        },
    }
}

/// Reads the `schemaCombine` annotation: its argument must be the name of
/// one of the three combinators.
pub fn combine_annotation(anns: &Vec<Annotation>, scope: &Vec<String>) -> (r: Result<
    Option<String>,
    Error,
>)
    ensures
        res_view(r) == combine_ann_v(anns@, scope.deep_view()),
{
    match crate::doc::find_annotation(anns, "schemaCombine") {
        None => Ok(None),
        Some(a) => match &a.value {
            Json::Str(s) => {
                if crate::strings::str_eq(s.as_str(), "allOf") || crate::strings::str_eq(
                    s.as_str(),
                    "anyOf",
                ) || crate::strings::str_eq(s.as_str(), "oneOf") {
                    Ok(Some(s.clone()))
                } else {
                    Err(Error::invalid_annotation("", "schemaCombine", scope, a.position))
                }
            },
            _ => Err(Error::invalid_annotation("must be string", "schemaCombine", scope, a.position)),
        },
    }
}

/// The override seed: the `schema` annotation's object read literally, or an
/// empty seed when the annotation is absent.
pub open spec fn seed_v(anns: Seq<Annotation>, scope: Seq<Seq<char>>) -> Result<
    InlineSchemaV,
    ErrorV,
> {
    match find_ann(anns, "schema"@) {
        None => Ok(inline_schema_empty_v()),
        Some(a) => match a.value {
            Json::Obj(entries) => match json_inline_v(json_view_obj(entries@)) {
                Some(is) => Ok(is),
                None => Err(invalid_annotation_v("is invalid"@, "schema"@, scope, a.position)),
            },
            _ => Err(invalid_annotation_v("must be object"@, "schema"@, scope, a.position)),
        },
    }
}

/// The seed with its primitive type set, unless the override already fixed
/// one: the set-once policy.
pub open spec fn set_type_v(is: InlineSchemaV, t: Seq<char>) -> InlineSchemaV {
    if is.schema_type is None {
        InlineSchemaV { schema_type: Some(t), ..is }
    } else {
        is
    }
}

/// The last step of inference: a `save` annotation registers the finished
/// schema under its name (overwriting any earlier entry) and a reference
/// takes its place; otherwise the inline schema is the result.
pub open spec fn finish_schema_v(
    defs: DefsV,
    anns: Seq<Annotation>,
    scope: Seq<Seq<char>>,
    is: InlineSchemaV,
) -> (Result<SchemaV, ErrorV>, DefsV) {
    match string_ann_v(anns, "save"@, scope) {
        Err(e) => (Err(e), defs),
        Ok(None) => (Ok(SchemaV::Inline(is)), defs),
        Ok(Some(name)) => (
            Ok(SchemaV::Reference { ref_path: compute_ref_v(ComponentKind::Schema, name) }),
            insert_v(defs, name, ObjectOrReferenceV::Object(SchemaV::Inline(is))),
        ),
    }
}

/// Whether any property lacks the presence-only `optional` annotation, so
/// that the object's `required` list is materialized.
pub open spec fn any_required(props: Seq<crate::doc::Property>) -> bool {
    exists|i: int|
        0 <= i < props.len() && find_ann(#[trigger] props[i].value.annotations@, "optional"@)
            is None
}

#[via_fn]
proof fn infer_v_dec(defs: DefsV, node: Node, is_parameter: bool, scope: Seq<Seq<char>>) {
    assert(decreases_to!(node => node.value));
    match node.value {
        NodeValue::Array(elems) => {
            assert(decreases_to!(node.value => node.value->Array_0));
            assert(decreases_to!(elems => elems@));
            if elems@.len() > 0 {
                assert(decreases_to!(elems@ => elems@[0]));
            }
        },
        NodeValue::Object(props) => {
            assert(decreases_to!(node.value => node.value->Object_0));
            assert(decreases_to!(props => props@));
        },
        _ => {},
    }
}

/// What inference computes: the schema (or the diagnostic) and the registry
/// as saves inside the walk left it. See the module description for the
/// order of the steps.
pub open spec fn infer_v(
    defs: DefsV,
    node: Node,
    is_parameter: bool,
    scope: Seq<Seq<char>>,
) -> (Result<SchemaV, ErrorV>, DefsV)
    decreases node, 1int,
    via infer_v_dec
{
    let anns = node.annotations@;
    if !is_parameter && !(string_ann_v(anns, "use"@, scope) is Ok) {
        (Err(string_ann_v(anns, "use"@, scope)->Err_0), defs)
    } else if !is_parameter && string_ann_v(anns, "use"@, scope)->Ok_0 is Some {
        (
            Ok(
                SchemaV::Reference {
                    ref_path: compute_ref_v(
                        ComponentKind::Schema,
                        string_ann_v(anns, "use"@, scope)->Ok_0->Some_0,
                    ),
                },
            ),
            defs,
        )
    } else {
        match seed_v(anns, scope) {
            Err(e) => (Err(e), defs),
            Ok(seed0) => match string_ann_v(anns, "describe"@, scope) {
                Err(e) => (Err(e), defs),
                Ok(d) => {
                    let seed = match d {
                        Some(t) => InlineSchemaV { description: Some(t), ..seed0 },
                        None => seed0,
                    };
                    match node.value {
                        NodeValue::Null => (
                            Err(invalid_ast_v("can not be null"@, scope, node.position)),
                            defs,
                        ),
                        NodeValue::Bool(b) => finish_schema_v(
                            defs,
                            anns,
                            scope,
                            InlineSchemaV {
                                example: Some(JsonV::Bool(b)),
                                ..set_type_v(seed, "boolean"@)
                            },
                        ),
                        NodeValue::Int(i) => {
                            let s1 = InlineSchemaV {
                                example: Some(JsonV::Int(i)),
                                ..set_type_v(seed, "integer"@)
                            };
                            let s2 = if s1.format is None {
                                InlineSchemaV { format: Some("int64"@), ..s1 }
                            } else {
                                s1
                            };
                            finish_schema_v(defs, anns, scope, s2)
                        },
                        NodeValue::Float(f) => finish_schema_v(
                            defs,
                            anns,
                            scope,
                            InlineSchemaV {
                                example: Some(JsonV::Float(f@)),
                                ..set_type_v(seed, "number"@)
                            },
                        ),
                        NodeValue::Str(st) => finish_schema_v(
                            defs,
                            anns,
                            scope,
                            InlineSchemaV {
                                example: Some(JsonV::Str(st@)),
                                ..set_type_v(seed, "string"@)
                            },
                        ),
                        NodeValue::Array(elems) => match combine_ann_v(anns, scope) {
                            Err(e) => (Err(e), defs),
                            Ok(None) => if elems@.len() == 0 {
                                finish_schema_v(defs, anns, scope, set_type_v(seed, "array"@))
                            } else if seed.items is None {
                                let r0 = infer_v(defs, elems@[0], false, scope.push("0"@));
                                match r0.0 {
                                    Err(e) => (Err(e), r0.1),
                                    Ok(c) => finish_schema_v(
                                        r0.1,
                                        anns,
                                        scope,
                                        InlineSchemaV { items: Some(Box::new(c)), ..seed },
                                    ),
                                }
                            } else {
                                finish_schema_v(defs, anns, scope, seed)
                            },
                            Ok(Some(c)) => {
                                let rl = infer_list_v(defs, elems@, is_parameter, scope);
                                match rl.0 {
                                    Err(e) => (Err(e), rl.1),
                                    Ok(list) => {
                                        let s2 = if c == "allOf"@ {
                                            InlineSchemaV { all_of: Some(list), ..seed }
                                        } else if c == "anyOf"@ {
                                            InlineSchemaV { any_of: Some(list), ..seed }
                                        } else {
                                            InlineSchemaV { one_of: Some(list), ..seed }
                                        };
                                        finish_schema_v(rl.1, anns, scope, s2)
                                    },
                                }
                            },
                        },
                        NodeValue::Object(props) => {
                            let sp = match seed.properties {
                                Some(p) => p,
                                None => Seq::empty(),
                            };
                            let sr = match seed.required {
                                Some(rq) => rq,
                                None => Seq::empty(),
                            };
                            let ro = infer_obj_v(defs, props@, scope, sp, sr);
                            match ro.0 {
                                Err(e) => (Err(e), ro.1),
                                Ok(pr) => {
                                    let s1 = set_type_v(seed, "object"@);
                                    let s2 = InlineSchemaV {
                                        properties: if props@.len() > 0 || seed.properties
                                            is Some {
                                            Some(pr.0)
                                        } else {
                                            None
                                        },
                                        required: if any_required(props@) || seed.required
                                            is Some {
                                            Some(pr.1)
                                        } else {
                                            None
                                        },
                                        ..s1
                                    };
                                    finish_schema_v(ro.1, anns, scope, s2)
                                },
                            }
                        },
                    }
                },
            },
        }
    }
}

#[via_fn]
proof fn infer_list_v_dec(defs: DefsV, elems: Seq<Node>, is_parameter: bool, scope: Seq<Seq<char>>) {
    if elems.len() > 0 {
        assert(elems.drop_last() == elems.subrange(0, elems.len() - 1));
        assert(decreases_to!(elems => elems.subrange(0, elems.len() - 1)));
        assert(decreases_to!(elems => elems[elems.len() - 1]));
    }
}

/// Inference over a combinator's elements, left to right, each at a scope
/// extended by its index; the first failure stops the walk.
pub open spec fn infer_list_v(
    defs: DefsV,
    elems: Seq<Node>,
    is_parameter: bool,
    scope: Seq<Seq<char>>,
) -> (Result<Seq<SchemaV>, ErrorV>, DefsV)
    decreases elems, 0int,
    via infer_list_v_dec
{
    if elems.len() == 0 {
        (Ok(Seq::empty()), defs)
    } else {
        let rp = infer_list_v(defs, elems.drop_last(), is_parameter, scope);
        match rp.0 {
            Err(e) => (Err(e), rp.1),
            Ok(list) => {
                let rl = infer_v(
                    rp.1,
                    elems.last(),
                    is_parameter,
                    scope.push(dec_str((elems.len() - 1) as nat)),
                );
                match rl.0 {
                    Err(e) => (Err(e), rl.1),
                    Ok(sv) => (Ok(list.push(sv)), rl.1),
                }
            },
        }
    }
}

#[via_fn]
proof fn infer_obj_v_dec(
    defs: DefsV,
    props: Seq<crate::doc::Property>,
    scope: Seq<Seq<char>>,
    acc_props: Seq<(Seq<char>, SchemaV)>,
    acc_req: Seq<Seq<char>>,
) {
    if props.len() > 0 {
        assert(props.drop_last() == props.subrange(0, props.len() - 1));
        assert(decreases_to!(props => props.subrange(0, props.len() - 1)));
        assert(decreases_to!(props => props[props.len() - 1]));
        assert(decreases_to!(props[props.len() - 1] => props[props.len() - 1].value));
    }
}

/// Inference over an object's properties, left to right: each property's
/// schema is inferred at an extended scope and inserted (a repeated key
/// replaces), and the property is required unless it carries the
/// presence-only `optional` annotation; the first failure stops the walk.
pub open spec fn infer_obj_v(
    defs: DefsV,
    props: Seq<crate::doc::Property>,
    scope: Seq<Seq<char>>,
    acc_props: Seq<(Seq<char>, SchemaV)>,
    acc_req: Seq<Seq<char>>,
) -> (Result<(Seq<(Seq<char>, SchemaV)>, Seq<Seq<char>>), ErrorV>, DefsV)
    decreases props, 0int,
    via infer_obj_v_dec
{
    if props.len() == 0 {
        (Ok((acc_props, acc_req)), defs)
    } else {
        let rp = infer_obj_v(defs, props.drop_last(), scope, acc_props, acc_req);
        match rp.0 {
            Err(e) => (Err(e), rp.1),
            Ok(pr) => {
                let p = props.last();
                let rc = infer_v(rp.1, p.value, false, scope.push(p.key@));
                match rc.0 {
                    Err(e) => (Err(e), rc.1),
                    Ok(child) => {
                        let ps2 = insert_v(pr.0, p.key@, child);
                        let rq2 = if find_ann(p.value.annotations@, "optional"@) is Some {
                            pr.1
                        } else {
                            pr.1.push(p.key@)
                        };
                        (Ok((ps2, rq2)), rc.1)
                    },
                }
            },
        }
    }
}

/// A failure on a prefix of the elements settles the whole combinator walk.
proof fn lemma_infer_list_stop(
    defs: DefsV,
    elems: Seq<Node>,
    is_parameter: bool,
    scope: Seq<Seq<char>>,
    k: int,
)
    requires
        0 <= k <= elems.len(),
        infer_list_v(defs, elems.take(k), is_parameter, scope).0 is Err,
    ensures
        infer_list_v(defs, elems, is_parameter, scope) == infer_list_v(
            defs,
            elems.take(k),
            is_parameter,
            scope,
        ),
    decreases elems.len() - k,
{
    if k < elems.len() {
        assert(elems.take(k + 1).drop_last() =~= elems.take(k));
        lemma_infer_list_stop(defs, elems, is_parameter, scope, k + 1);
    } else {
        assert(elems.take(k) =~= elems);
    }
}

/// A failure on a prefix of the properties settles the whole object walk.
proof fn lemma_infer_obj_stop(
    defs: DefsV,
    props: Seq<crate::doc::Property>,
    scope: Seq<Seq<char>>,
    acc_props: Seq<(Seq<char>, SchemaV)>,
    acc_req: Seq<Seq<char>>,
    k: int,
)
    requires
        0 <= k <= props.len(),
        infer_obj_v(defs, props.take(k), scope, acc_props, acc_req).0 is Err,
    ensures
        infer_obj_v(defs, props, scope, acc_props, acc_req) == infer_obj_v(
            defs,
            props.take(k),
            scope,
            acc_props,
            acc_req,
        ),
    decreases props.len() - k,
{
    if k < props.len() {
        assert(props.take(k + 1).drop_last() =~= props.take(k));
        lemma_infer_obj_stop(defs, props, scope, acc_props, acc_req, k + 1);
    } else {
        assert(props.take(k) =~= props);
    }
}

/// A seed's properties, when present, have unique keys.
proof fn lemma_seed_props_unique(anns: Seq<Annotation>, scope: Seq<Seq<char>>)
    requires
        seed_v(anns, scope) is Ok,
        seed_v(anns, scope)->Ok_0.properties is Some,
    ensures
        crate::entries::unique_keys(seed_v(anns, scope)->Ok_0.properties->Some_0),
{
    match find_ann(anns, "schema"@) {
        None => {},
        Some(a) => match a.value {
            Json::Obj(entries) => {
                let m = json_view_obj(entries@);
                let pents = crate::entries::get_v(m, "properties"@);
                match pents {
                    Some(JsonV::Obj(pe)) => {
                        crate::schema_json::lemma_json_schema_entries_unique(pe);
                    },
                    _ => {},
                }
            },
            _ => {},
        },
    }
}

/// Sets the primitive type unless the override seed already fixed one.
fn set_type(is: &mut InlineSchema, t: &str)
    ensures
        final(is)@ == set_type_v(old(is)@, t@),
{
    if is.schema_type.is_none() {
        is.schema_type = Some(String::from_str(t));
    }
    proof {
        assert(is@ =~~= set_type_v(old(is)@, t@));
    }
}

/// The last step of inference: registers the schema under a `save` name and
/// returns a reference, or hands the inline schema back.
fn finish_schema(
    defs: &mut Defs,
    anns: &Vec<Annotation>,
    scope: &Vec<String>,
    is: InlineSchema,
) -> (r: Result<Schema, Error>)
    requires
        old(defs).wf(),
    ensures
        ({
            let m = finish_schema_v(old(defs)@, anns@, scope.deep_view(), is@);
            res_view(r) == m.0 && final(defs)@ == m.1 && final(defs).wf()
        }),
{
    match string_annotation(anns, "save", scope) {
        Err(e) => Err(e),
        Ok(None) => Ok(Schema::Inline(is)),
        Ok(Some(name)) => {
            let kind = ComponentKind::Schema;
            let ref_path = kind.compute_ref(name.as_str());
            defs.insert(name, ObjectOrReference::Object(Schema::Inline(is)));
            Ok(Schema::Reference { ref_path })
        },
    }
}

/// Infers the schema of a document value, as [`infer_v`] describes; saves
/// made anywhere in the walk land in the registry.
pub fn parse_schema(
    defs: &mut Defs,
    node: &Node,
    is_parameter: bool,
    scope: &Vec<String>,
) -> (r: Result<Schema, Error>)
    requires
        old(defs).wf(),
    ensures
        ({
            let m = infer_v(old(defs)@, *node, is_parameter, scope.deep_view());
            res_view(r) == m.0 && final(defs)@ == m.1 && final(defs).wf()
        }),
    decreases *node, 1int,
{
    let ghost scope_v = scope.deep_view();
    let anns = &node.annotations;
    if !is_parameter {
        match string_annotation(anns, "use", scope) {
            Err(e) => {
                return Err(e);
            },
            Ok(Some(name)) => {
                let kind = ComponentKind::Schema;
                return Ok(Schema::Reference { ref_path: kind.compute_ref(name.as_str()) });
            },
            Ok(None) => {},
        }
    }
    let mut seed: InlineSchema = match crate::doc::find_annotation(anns, "schema") {
        None => InlineSchema::new(),
        Some(a) => match &a.value {
            Json::Obj(entries) => match crate::schema_json::json_to_inline(entries) {
                Some(is) => is,
                None => {
                    return Err(Error::invalid_annotation("is invalid", "schema", scope, a.position));
                },
            },
            _ => {
                return Err(Error::invalid_annotation("must be object", "schema", scope, a.position));
            },
        },
    };
    proof {
        assert(seed@ =~~= seed_v(anns@, scope_v)->Ok_0);
    }
    match string_annotation(anns, "describe", scope) {
        Err(e) => {
            return Err(e);
        },
        Ok(Some(d)) => {
            seed.description = Some(d);
        },
        Ok(None) => {},
    }
    let ghost seedv = match string_ann_v(anns@, "describe"@, scope_v)->Ok_0 {
        Some(t) => InlineSchemaV { description: Some(t), ..seed_v(anns@, scope_v)->Ok_0 },
        None => seed_v(anns@, scope_v)->Ok_0,
    };
    proof {
        assert(seed@ =~~= seedv);
    }
    match &node.value {
        NodeValue::Null => Err(Error::invalid_ast("can not be null", scope, node.position)),
        NodeValue::Bool(b) => {
            set_type(&mut seed, "boolean");
            seed.example = Some(Json::Bool(*b));
            proof {
                assert(seed@ =~~= (InlineSchemaV {
                    example: Some(JsonV::Bool(*b)),
                    ..set_type_v(seedv, "boolean"@)
                }));
            }
            finish_schema(defs, anns, scope, seed)
        },
        NodeValue::Int(i) => {
            set_type(&mut seed, "integer");
            seed.example = Some(Json::Int(*i));
            if seed.format.is_none() {
                seed.format = Some(String::from_str("int64"));
            }
            proof {
                let s1 = InlineSchemaV {
                    example: Some(JsonV::Int(*i)),
                    ..set_type_v(seedv, "integer"@)
                };
                let s2 = if s1.format is None {
                    InlineSchemaV { format: Some("int64"@), ..s1 }
                } else {
                    s1
                };
                assert(seed@ =~~= s2);
            }
            finish_schema(defs, anns, scope, seed)
        },
        NodeValue::Float(f) => {
            set_type(&mut seed, "number");
            seed.example = Some(Json::Float(f.clone()));
            proof {
                assert(seed@ =~~= (InlineSchemaV {
                    example: Some(JsonV::Float(f@)),
                    ..set_type_v(seedv, "number"@)
                }));
            }
            finish_schema(defs, anns, scope, seed)
        },
        NodeValue::Str(st) => {
            set_type(&mut seed, "string");
            seed.example = Some(Json::Str(st.clone()));
            proof {
                assert(seed@ =~~= (InlineSchemaV {
                    example: Some(JsonV::Str(st@)),
                    ..set_type_v(seedv, "string"@)
                }));
            }
            finish_schema(defs, anns, scope, seed)
        },
        NodeValue::Array(elems) => {
            let combine = match combine_annotation(anns, scope) {
                Err(e) => {
                    return Err(e);
                },
                Ok(c) => c,
            };
            match combine {
                None => {
                    if elems.len() == 0 {
                        set_type(&mut seed, "array");
                        proof {
                            assert(seed@ =~~= set_type_v(seedv, "array"@));
                        }
                        finish_schema(defs, anns, scope, seed)
                    } else if seed.items.is_none() {
                        let child_scope = crate::error::enter_scope(scope, "0");
                        proof {
                            assert(decreases_to!(*node => node.value));
                            assert(decreases_to!(node.value => node.value->Array_0));
                            assert(decreases_to!(*elems => elems@));
                            assert(decreases_to!(elems@ => elems@[0]));
                        }
                        let child = match parse_schema(defs, &elems[0], false, &child_scope) {
                            Err(e) => {
                                return Err(e);
                            },
                            Ok(c) => c,
                        };
                        seed.items = Some(Box::new(child));
                        proof {
                            let r0 = infer_v(old(defs)@, elems@[0], false, scope_v.push("0"@));
                            assert(seed@ =~~= (InlineSchemaV {
                                items: Some(Box::new(r0.0->Ok_0)),
                                ..seedv
                            }));
                        }
                        finish_schema(defs, anns, scope, seed)
                    } else {
                        finish_schema(defs, anns, scope, seed)
                    }
                },
                Some(c) => {
                    proof {
                        assert(decreases_to!(*node => node.value));
                        assert(decreases_to!(node.value => node.value->Array_0));
                    }
                    let ghost defs0 = defs@;
                    let list = match parse_schema_list(defs, elems, is_parameter, scope) {
                        Err(e) => {
                            return Err(e);
                        },
                        Ok(l) => l,
                    };
                    if crate::strings::str_eq(c.as_str(), "allOf") {
                        seed.all_of = Some(list);
                        proof {
                            crate::openapi::lemma_schema_list_deep(seed.all_of->Some_0);
                            assert(seed@ =~~= (InlineSchemaV {
                                all_of: Some(
                                    infer_list_v(defs0, elems@, is_parameter, scope_v).0->Ok_0,
                                ),
                                ..seedv
                            }));
                        }
                        finish_schema(defs, anns, scope, seed)
                    } else if crate::strings::str_eq(c.as_str(), "anyOf") {
                        seed.any_of = Some(list);
                        proof {
                            crate::openapi::lemma_schema_list_deep(seed.any_of->Some_0);
                            assert(seed@ =~~= (InlineSchemaV {
                                any_of: Some(
                                    infer_list_v(defs0, elems@, is_parameter, scope_v).0->Ok_0,
                                ),
                                ..seedv
                            }));
                        }
                        finish_schema(defs, anns, scope, seed)
                    } else {
                        seed.one_of = Some(list);
                        proof {
                            crate::openapi::lemma_schema_list_deep(seed.one_of->Some_0);
                            assert(seed@ =~~= (InlineSchemaV {
                                one_of: Some(
                                    infer_list_v(defs0, elems@, is_parameter, scope_v).0->Ok_0,
                                ),
                                ..seedv
                            }));
                        }
                        finish_schema(defs, anns, scope, seed)
                    }
                },
            }
        },
        NodeValue::Object(props) => {
            let had_props_e = seed.properties.is_some();
            let had_req_e = seed.required.is_some();
            let InlineSchema {
                schema_type,
                format,
                description,
                example,
                properties,
                required,
                items,
                all_of,
                any_of,
                one_of,
            } = seed;
            let mut pe: Entries<Schema> = match properties {
                Some(e) => e,
                None => Entries::new(),
            };
            let mut rq: Vec<String> = match required {
                Some(v) => v,
                None => Vec::new(),
            };
            proof {
                if had_props_e {
                    lemma_seed_props_unique(anns@, scope_v);
                    crate::openapi::lemma_schema_entries_deep(pe.pairs);
                }
                assert(pe.wf());
            }
            let ghost sp = if had_props_e {
                seedv.properties->Some_0
            } else {
                Seq::<(Seq<char>, SchemaV)>::empty()
            };
            let ghost sr = if had_req_e {
                seedv.required->Some_0
            } else {
                Seq::<Seq<char>>::empty()
            };
            proof {
                if had_props_e {
                    crate::openapi::lemma_schema_entries_deep(pe.pairs);
                }
                assert(pe@ =~~= sp);
                assert(rq.deep_view() =~~= sr);
            }
            let ghost defs0 = defs@;
            proof {
                assert(decreases_to!(*node => node.value));
                assert(decreases_to!(node.value => node.value->Object_0));
            }
            let any_req = match parse_schema_obj(defs, props, scope, &mut pe, &mut rq) {
                Err(e) => {
                    return Err(e);
                },
                Ok(flag) => flag,
            };
            let has_any_props = props.len() > 0;
            let mut out = InlineSchema {
                schema_type,
                format,
                description,
                example,
                properties: None,
                required: None,
                items,
                all_of,
                any_of,
                one_of,
            };
            set_type(&mut out, "object");
            proof {
                crate::openapi::lemma_schema_entries_deep(pe.pairs);
            }
            if has_any_props || had_props_e {
                out.properties = Some(pe);
            }
            if any_req || had_req_e {
                out.required = Some(rq);
            }
            proof {
                let mo = infer_obj_v(defs0, props@, scope_v, sp, sr);
                let s1 = set_type_v(seedv, "object"@);
                let s2 = InlineSchemaV {
                    properties: if props@.len() > 0 || seedv.properties is Some {
                        Some(mo.0->Ok_0.0)
                    } else {
                        None
                    },
                    required: if any_required(props@) || seedv.required is Some {
                        Some(mo.0->Ok_0.1)
                    } else {
                        None
                    },
                    ..s1
                };
                assert(out@ =~~= s2);
            }
            finish_schema(defs, anns, scope, out)
        },
    }
}

/// Infers the schema of each combinator element, left to right, each at a
/// scope extended by its index; the first failure stops the walk.
fn parse_schema_list(
    defs: &mut Defs,
    elems: &Vec<Node>,
    is_parameter: bool,
    scope: &Vec<String>,
) -> (r: Result<Vec<Schema>, Error>)
    requires
        old(defs).wf(),
    ensures
        ({
            let m = infer_list_v(old(defs)@, elems@, is_parameter, scope.deep_view());
            final(defs)@ == m.1 && final(defs).wf() && match r {
                Ok(l) => m.0 == Ok::<Seq<SchemaV>, ErrorV>(l.deep_view()),
                Err(e) => m.0 == Err::<Seq<SchemaV>, ErrorV>(e@),
            }
        }),
    decreases *elems, 0int,
{
    let ghost scope_v = scope.deep_view();
    let ghost defs0 = defs@;
    let mut list: Vec<Schema> = Vec::new();
    let mut i: usize = 0;
    proof {
        assert(elems@.take(0) =~= Seq::<Node>::empty());
        assert(list.deep_view() =~= Seq::<SchemaV>::empty());
    }
    while i < elems.len()
        invariant
            i <= elems@.len(),
            defs.wf(),
            defs0 == old(defs)@,
            scope_v == scope.deep_view(),
            infer_list_v(defs0, elems@.take(i as int), is_parameter, scope_v) == (
                Ok::<Seq<SchemaV>, ErrorV>(list.deep_view()),
                defs@,
            ),
        decreases elems@.len() - i,
    {
        proof {
            assert(elems@.take(i + 1).drop_last() =~= elems@.take(i as int));
            assert(elems@.take(i + 1).last() == elems@[i as int]);
            assert(decreases_to!(*elems => elems@));
            assert(decreases_to!(elems@ => elems@[i as int]));
        }
        let idx = usize_to_string(i);
        let child_scope = crate::error::enter_scope(scope, idx.as_str());
        match parse_schema(defs, &elems[i], is_parameter, &child_scope) {
            Err(e) => {
                proof {
                    assert(infer_list_v(defs0, elems@.take(i + 1), is_parameter, scope_v).0
                        is Err);
                    lemma_infer_list_stop(defs0, elems@, is_parameter, scope_v, i + 1);
                }
                return Err(e);
            },
            Ok(sv) => {
                list.push(sv);
                proof {
                    assert(list.deep_view() =~~= infer_list_v(
                        defs0,
                        elems@.take(i + 1),
                        is_parameter,
                        scope_v,
                    ).0->Ok_0);
                }
            },
        }
        i = i + 1;
    }
    proof {
        assert(elems@.take(elems@.len() as int) =~= elems@);
    }
    Ok(list)
}

/// Infers the schema of each object property, left to right, filling the
/// properties map and the required list; hands back whether any property
/// was required. The first failure stops the walk.
fn parse_schema_obj(
    defs: &mut Defs,
    props: &Vec<crate::doc::Property>,
    scope: &Vec<String>,
    pe: &mut Entries<Schema>,
    rq: &mut Vec<String>,
) -> (r: Result<bool, Error>)
    requires
        old(defs).wf(),
        old(pe).wf(),
    ensures
        ({
            let m = infer_obj_v(
                old(defs)@,
                props@,
                scope.deep_view(),
                old(pe)@,
                old(rq).deep_view(),
            );
            final(defs)@ == m.1 && final(defs).wf() && match r {
                Ok(flag) => m.0 == Ok::<(Seq<(Seq<char>, SchemaV)>, Seq<Seq<char>>), ErrorV>(
                    (final(pe)@, final(rq).deep_view()),
                ) && flag == any_required(props@) && final(pe).wf(),
                Err(e) => m.0 == Err::<(Seq<(Seq<char>, SchemaV)>, Seq<Seq<char>>), ErrorV>(e@),
            }
        }),
    decreases *props, 0int,
{
    let ghost scope_v = scope.deep_view();
    let ghost defs0 = defs@;
    let ghost sp = pe@;
    let ghost sr = rq.deep_view();
    let mut any_req = false;
    let mut i: usize = 0;
    proof {
        assert(props@.take(0) =~= Seq::<crate::doc::Property>::empty());
        assert(!any_required(props@.take(0)));
    }
    while i < props.len()
        invariant
            i <= props@.len(),
            defs.wf(),
            pe.wf(),
            defs0 == old(defs)@,
            sp == old(pe)@,
            sr == old(rq).deep_view(),
            scope_v == scope.deep_view(),
            infer_obj_v(defs0, props@.take(i as int), scope_v, sp, sr) == (
                Ok::<(Seq<(Seq<char>, SchemaV)>, Seq<Seq<char>>), ErrorV>(
                    (pe@, rq.deep_view()),
                ),
                defs@,
            ),
            any_req == any_required(props@.take(i as int)),
        decreases props@.len() - i,
    {
        proof {
            assert(props@.take(i + 1).drop_last() =~= props@.take(i as int));
            assert(props@.take(i + 1).last() == props@[i as int]);
            assert(decreases_to!(*props => props@));
            assert(decreases_to!(props@ => props@[i as int]));
            assert(decreases_to!(props@[i as int] => props@[i as int].value));
        }
        let key = &props[i].key;
        let child_scope = crate::error::enter_scope(scope, key.as_str());
        match parse_schema(defs, &props[i].value, false, &child_scope) {
            Err(e) => {
                proof {
                    assert(infer_obj_v(defs0, props@.take(i + 1), scope_v, sp, sr).0 is Err);
                    lemma_infer_obj_stop(defs0, props@, scope_v, sp, sr, i + 1);
                }
                return Err(e);
            },
            Ok(child) => {
                pe.insert(key.clone(), child);
                if !crate::doc::has_annotation(&props[i].value.annotations, "optional") {
                    rq.push(key.clone());
                    any_req = true;
                    proof {
                        assert(find_ann(
                            props@.take(i + 1).last().value.annotations@,
                            "optional"@,
                        ) is None);
                        assert(any_required(props@.take(i + 1)));
                    }
                } else {
                    proof {
                        if any_required(props@.take(i + 1)) {
                            let w = choose|w: int|
                                0 <= w < props@.take(i + 1).len() && find_ann(
                                    #[trigger] props@.take(i + 1)[w].value.annotations@,
                                    "optional"@,
                                ) is None;
                            if w < i {
                                assert(props@.take(i as int)[w] == props@.take(i + 1)[w]);
                                assert(any_required(props@.take(i as int)));
                            }
                        }
                    }
                }
                proof {
                    if any_required(props@.take(i as int)) {
                        let w = choose|w: int|
                            0 <= w < props@.take(i as int).len() && find_ann(
                                #[trigger] props@.take(i as int)[w].value.annotations@,
                                "optional"@,
                            ) is None;
                        assert(props@.take(i + 1)[w] == props@.take(i as int)[w]);
                        assert(any_required(props@.take(i + 1)));
                    }
                    assert(rq.deep_view() =~~= infer_obj_v(
                        defs0,
                        props@.take(i + 1),
                        scope_v,
                        sp,
                        sr,
                    ).0->Ok_0.1);
                }
            },
        }
        i = i + 1;
    }
    proof {
        assert(props@.take(props@.len() as int) =~= props@);
    }
    Ok(any_req)
}

} // verus!
