//! The endpoint transformer: request parameters (path, query, header),
//! request and response bodies, responses keyed by status code, and the
//! per-endpoint orchestration from route to finished operation.
use crate::doc::find_ann;
use crate::doc::find_prop;
use crate::doc::has_annotation;
use crate::doc::spec_plain;
use crate::doc::string_ann_v;
use crate::doc::string_annotation;
use crate::doc::Annotation;
use crate::doc::Node;
use crate::doc::NodeValue;
use crate::doc::Property;
use crate::entries::insert_v;
use crate::entries::Entries;
use crate::error::invalid_ast_v;
use crate::error::res_view;
use crate::error::Error;
use crate::error::ErrorV;
use crate::json::JsonV;
use crate::openapi::compute_ref_v;
use crate::openapi::ComponentKind;
use crate::openapi::Header;
use crate::openapi::HeaderV;
use crate::openapi::MediaType;
use crate::openapi::MediaTypeV;
use crate::openapi::ObjectOrReference;
use crate::openapi::ObjectOrReferenceV;
use crate::openapi::Parameter;
use crate::openapi::ParameterV;
use crate::openapi::RequestBody;
use crate::openapi::RequestBodyV;
use crate::schema::infer_v;
use crate::schema::parse_schema;
use crate::schema::Defs;
use crate::schema::DefsV;
use vstd::prelude::*;

verus! {

/// The parameter registry: named parameters defined by `save` annotations.
pub type Params = Entries<ObjectOrReference<Parameter>>;

/// The abstraction of the parameter registry.
pub type ParamsV = Seq<(Seq<char>, ObjectOrReferenceV<ParameterV>)>;

/// What parsing one declared parameter does. A `use` annotation
/// short-circuits to a reference and nothing is read or saved; otherwise the
/// parameter is assembled — description from `describe`, required unless
/// `optional` is present, schema inferred in parameter context, the node's
/// plain value as example when `example` is present — and a `save`
/// annotation registers it and hands back a reference instead.
pub open spec fn param_v(
    defs: DefsV,
    params: ParamsV,
    name: Seq<char>,
    location: Seq<char>,
    node: Node,
    scope: Seq<Seq<char>>,
) -> (Result<ObjectOrReferenceV<ParameterV>, ErrorV>, DefsV, ParamsV) {
    let anns = node.annotations@;
    if !(string_ann_v(anns, "use"@, scope) is Ok) {
        (Err(string_ann_v(anns, "use"@, scope)->Err_0), defs, params)
    } else if string_ann_v(anns, "use"@, scope)->Ok_0 is Some {
        (
            Ok(
                ObjectOrReferenceV::Ref {
                    ref_path: compute_ref_v(
                        ComponentKind::Parameter,
                        string_ann_v(anns, "use"@, scope)->Ok_0->Some_0,
                    ),
                },
            ),
            defs,
            params,
        )
    } else {
        match string_ann_v(anns, "describe"@, scope) {
            Err(e) => (Err(e), defs, params),
            Ok(d) => {
                let sr = infer_v(defs, node, true, scope);
                match sr.0 {
                    Err(e) => (Err(e), sr.1, params),
                    Ok(sch) => {
                        let p = ParameterV {
                            name: name,
                            location: location,
                            description: d,
                            required: Some(find_ann(anns, "optional"@) is None),
                            schema: Some(sch),
                            example: if find_ann(anns, "example"@) is Some {
                                Some(spec_plain(node))
                            } else {
                                None
                            },
                        };
                        match string_ann_v(anns, "save"@, scope) {
                            Err(e) => (Err(e), sr.1, params),
                            Ok(None) => (Ok(ObjectOrReferenceV::Object(p)), sr.1, params),
                            Ok(Some(reg)) => (
                                Ok(
                                    ObjectOrReferenceV::Ref {
                                        ref_path: compute_ref_v(ComponentKind::Parameter, reg),
                                    },
                                ),
                                sr.1,
                                insert_v(params, reg, ObjectOrReferenceV::Object(p)),
                            ),
                        }
                    },
                }
            },
        }
    }
}

/// Parses one declared parameter, as [`param_v`] describes.
pub fn parse_parameter(
    defs: &mut Defs,
    params: &mut Params,
    name: String,
    location: &str,
    node: &Node,
    scope: &Vec<String>,
) -> (r: Result<ObjectOrReference<Parameter>, Error>)
    requires
        old(defs).wf(),
        old(params).wf(),
    ensures
        ({
            let m = param_v(
                old(defs)@,
                old(params)@,
                name@,
                location@,
                *node,
                scope.deep_view(),
            );
            res_view(r) == m.0 && final(defs)@ == m.1 && final(params)@ == m.2 && final(defs).wf()
                && final(params).wf()
        }),
{
    let anns = &node.annotations;
    match string_annotation(anns, "use", scope) {
        Err(e) => {
            return Err(e);
        },
        Ok(Some(target)) => {
            let kind = ComponentKind::Parameter;
            return Ok(ObjectOrReference::Ref { ref_path: kind.compute_ref(target.as_str()) });
        },
        Ok(None) => {},
    }
    let description = match string_annotation(anns, "describe", scope) {
        Err(e) => {
            return Err(e);
        },
        Ok(d) => d,
    };
    let required = Some(!has_annotation(anns, "optional"));
    let schema = match parse_schema(defs, node, true, scope) {
        Err(e) => {
            return Err(e);
        },
        Ok(s) => s,
    };
    let example = if has_annotation(anns, "example") {
        Some(node.to_plain_json())
    } else {
        None
    };
    let p = Parameter { name, location: String::from_str(location), description, required, schema: Some(schema), example };
    match string_annotation(anns, "save", scope) {
        Err(e) => Err(e),
        Ok(None) => Ok(ObjectOrReference::Object(p)),
        Ok(Some(reg)) => {
            let kind = ComponentKind::Parameter;
            let ref_path = kind.compute_ref(reg.as_str());
            params.insert(reg, ObjectOrReference::Object(p));
            Ok(ObjectOrReference::Ref { ref_path })
        },
    }
}

/// Parsing a parameter group: one parameter per property of the group
/// object, in order, named by the property key, at the given location; the
/// first failure stops the walk.
pub open spec fn group_v(
    defs: DefsV,
    params: ParamsV,
    location: Seq<char>,
    props: Seq<Property>,
    scope: Seq<Seq<char>>,
) -> (Result<Seq<ObjectOrReferenceV<ParameterV>>, ErrorV>, DefsV, ParamsV)
    decreases props.len(),
{
    if props.len() == 0 {
        (Ok(Seq::empty()), defs, params)
    } else {
        let rp = group_v(defs, params, location, props.drop_last(), scope);
        match rp.0 {
            Err(e) => (Err(e), rp.1, rp.2),
            Ok(list) => {
                let p = props.last();
                let rc = param_v(rp.1, rp.2, p.key@, location, p.value, scope.push(p.key@));
                match rc.0 {
                    Err(e) => (Err(e), rc.1, rc.2),
                    Ok(one) => (Ok(list.push(one)), rc.1, rc.2),
                }
            },
        }
    }
}

/// A failure on a prefix of the group settles the whole walk.
proof fn lemma_group_stop(
    defs: DefsV,
    params: ParamsV,
    location: Seq<char>,
    props: Seq<Property>,
    scope: Seq<Seq<char>>,
    k: int,
)
    requires
        0 <= k <= props.len(),
        group_v(defs, params, location, props.take(k), scope).0 is Err,
    ensures
        group_v(defs, params, location, props, scope) == group_v(
            defs,
            params,
            location,
            props.take(k),
            scope,
        ),
    decreases props.len() - k,
{
    if k < props.len() {
        assert(props.take(k + 1).drop_last() =~= props.take(k));
        lemma_group_stop(defs, params, location, props, scope, k + 1);
    } else {
        assert(props.take(k) =~= props);
    }
}

/// Parses a parameter group, as [`group_v`] describes.
pub fn parse_parameters_group(
    defs: &mut Defs,
    params: &mut Params,
    location: &str,
    props: &Vec<Property>,
    scope: &Vec<String>,
) -> (r: Result<Vec<ObjectOrReference<Parameter>>, Error>)
    requires
        old(defs).wf(),
        old(params).wf(),
    ensures
        ({
            let m = group_v(old(defs)@, old(params)@, location@, props@, scope.deep_view());
            final(defs)@ == m.1 && final(params)@ == m.2 && final(defs).wf()
                && final(params).wf()
                && match r {
                Ok(l) => m.0 == Ok::<Seq<ObjectOrReferenceV<ParameterV>>, ErrorV>(l.deep_view()),
                Err(e) => m.0 == Err::<Seq<ObjectOrReferenceV<ParameterV>>, ErrorV>(e@),
            }
        }),
{
    let ghost scope_v = scope.deep_view();
    let ghost defs0 = defs@;
    let ghost params0 = params@;
    let mut list: Vec<ObjectOrReference<Parameter>> = Vec::new();
    let mut i: usize = 0;
    proof {
        assert(props@.take(0) =~= Seq::<Property>::empty());
        assert(list.deep_view() =~= Seq::<ObjectOrReferenceV<ParameterV>>::empty());
    }
    while i < props.len()
        invariant
            i <= props@.len(),
            defs.wf(),
            params.wf(),
            defs0 == old(defs)@,
            params0 == old(params)@,
            scope_v == scope.deep_view(),
            group_v(defs0, params0, location@, props@.take(i as int), scope_v) == (
                Ok::<Seq<ObjectOrReferenceV<ParameterV>>, ErrorV>(list.deep_view()),
                defs@,
                params@,
            ),
        decreases props@.len() - i,
    {
        proof {
            assert(props@.take(i + 1).drop_last() =~= props@.take(i as int));
            assert(props@.take(i + 1).last() == props@[i as int]);
        }
        let key = props[i].key.clone();
        let child_scope = crate::error::enter_scope(scope, key.as_str());
        match parse_parameter(defs, params, key, location, &props[i].value, &child_scope) {
            Err(e) => {
                proof {
                    assert(group_v(defs0, params0, location@, props@.take(i + 1), scope_v).0
                        is Err);
                    lemma_group_stop(defs0, params0, location@, props@, scope_v, i + 1);
                }
                return Err(e);
            },
            Ok(one) => {
                list.push(one);
                proof {
                    assert(list.deep_view() =~~= group_v(
                        defs0,
                        params0,
                        location@,
                        props@.take(i + 1),
                        scope_v,
                    ).0->Ok_0);
                }
            },
        }
        i = i + 1;
    }
    proof {
        assert(props@.take(props@.len() as int) =~= props@);
    }
    Ok(list)
}

/// Parsing a response header group: one header per property, keyed by name,
/// with description, requiredness and an inferred schema; a repeated name
/// replaces the earlier header.
pub open spec fn headers_v(
    defs: DefsV,
    props: Seq<Property>,
    scope: Seq<Seq<char>>,
) -> (Result<Seq<(Seq<char>, ObjectOrReferenceV<HeaderV>)>, ErrorV>, DefsV)
    decreases props.len(),
{
    if props.len() == 0 {
        (Ok(Seq::empty()), defs)
    } else {
        let rp = headers_v(defs, props.drop_last(), scope);
        match rp.0 {
            Err(e) => (Err(e), rp.1),
            Ok(hs) => {
                let p = props.last();
                let sub = scope.push(p.key@);
                let anns = p.value.annotations@;
                match string_ann_v(anns, "describe"@, sub) {
                    Err(e) => (Err(e), rp.1),
                    Ok(d) => {
                        let sr = infer_v(rp.1, p.value, true, sub);
                        match sr.0 {
                            Err(e) => (Err(e), sr.1),
                            Ok(sch) => {
                                let h = HeaderV {
                                    description: d,
                                    required: Some(find_ann(anns, "optional"@) is None),
                                    schema: Some(sch),
                                };
                                (
                                    Ok(insert_v(hs, p.key@, ObjectOrReferenceV::Object(h))),
                                    sr.1,
                                )
                            },
                        }
                    },
                }
            },
        }
    }
}

/// A failure on a prefix of the headers settles the whole walk.
proof fn lemma_headers_stop(defs: DefsV, props: Seq<Property>, scope: Seq<Seq<char>>, k: int)
    requires
        0 <= k <= props.len(),
        headers_v(defs, props.take(k), scope).0 is Err,
    ensures
        headers_v(defs, props, scope) == headers_v(defs, props.take(k), scope),
    decreases props.len() - k,
{
    if k < props.len() {
        assert(props.take(k + 1).drop_last() =~= props.take(k));
        lemma_headers_stop(defs, props, scope, k + 1);
    } else {
        assert(props.take(k) =~= props);
    }
}

/// Parses a response header group, as [`headers_v`] describes.
pub fn parse_headers_group(
    defs: &mut Defs,
    props: &Vec<Property>,
    scope: &Vec<String>,
) -> (r: Result<Entries<ObjectOrReference<Header>>, Error>)
    requires
        old(defs).wf(),
    ensures
        ({
            let m = headers_v(old(defs)@, props@, scope.deep_view());
            final(defs)@ == m.1 && final(defs).wf() && match r {
                Ok(hs) => m.0 == Ok::<Seq<(Seq<char>, ObjectOrReferenceV<HeaderV>)>, ErrorV>(hs@)
                    && hs.wf(),
                Err(e) => m.0 == Err::<Seq<(Seq<char>, ObjectOrReferenceV<HeaderV>)>, ErrorV>(e@),
            }
        }),
{
    let ghost scope_v = scope.deep_view();
    let ghost defs0 = defs@;
    let mut hs: Entries<ObjectOrReference<Header>> = Entries::new();
    let mut i: usize = 0;
    proof {
        assert(props@.take(0) =~= Seq::<Property>::empty());
    }
    while i < props.len()
        invariant
            i <= props@.len(),
            defs.wf(),
            hs.wf(),
            defs0 == old(defs)@,
            scope_v == scope.deep_view(),
            headers_v(defs0, props@.take(i as int), scope_v) == (
                Ok::<Seq<(Seq<char>, ObjectOrReferenceV<HeaderV>)>, ErrorV>(hs@),
                defs@,
            ),
        decreases props@.len() - i,
    {
        proof {
            assert(props@.take(i + 1).drop_last() =~= props@.take(i as int));
            assert(props@.take(i + 1).last() == props@[i as int]);
        }
        let key = &props[i].key;
        let sub = crate::error::enter_scope(scope, key.as_str());
        let anns = &props[i].value.annotations;
        let description = match string_annotation(anns, "describe", &sub) {
            Err(e) => {
                proof {
                    assert(headers_v(defs0, props@.take(i + 1), scope_v).0 is Err);
                    lemma_headers_stop(defs0, props@, scope_v, i + 1);
                }
                return Err(e);
            },
            Ok(d) => d,
        };
        let required = Some(!has_annotation(anns, "optional"));
        let schema = match parse_schema(defs, &props[i].value, true, &sub) {
            Err(e) => {
                proof {
                    assert(headers_v(defs0, props@.take(i + 1), scope_v).0 is Err);
                    lemma_headers_stop(defs0, props@, scope_v, i + 1);
                }
                return Err(e);
            },
            Ok(s) => s,
        };
        let h = Header { description, required, schema: Some(schema) };
        hs.insert(key.clone(), ObjectOrReference::Object(h));
        proof {
            assert(hs@ =~~= headers_v(defs0, props@.take(i + 1), scope_v).0->Ok_0);
        }
        i = i + 1;
    }
    proof {
        assert(props@.take(props@.len() as int) =~= props@);
    }
    Ok(hs)
}

/// What parsing a body node yields: the content type (from `contentType`,
/// `application/json` when absent), the inferred schema, and the node's
/// plain value as example when `example` is present.
pub open spec fn body_media_v(defs: DefsV, node: Node, scope: Seq<Seq<char>>) -> (Result<
    (Seq<char>, MediaTypeV),
    ErrorV,
>, DefsV) {
    let anns = node.annotations@;
    match string_ann_v(anns, "contentType"@, scope) {
        Err(e) => (Err(e), defs),
        Ok(ct) => {
            let content_type = match ct {
                Some(t) => t,
                None => "application/json"@,
            };
            let sr = infer_v(defs, node, false, scope);
            match sr.0 {
                Err(e) => (Err(e), sr.1),
                Ok(sch) => (
                    Ok(
                        (
                            content_type,
                            MediaTypeV {
                                schema: Some(sch),
                                example: if find_ann(anns, "example"@) is Some {
                                    Some(spec_plain(node))
                                } else {
                                    None
                                },
                            },
                        ),
                    ),
                    sr.1,
                ),
            }
        },
    }
}

/// Parses a body node into its content-type key and media type, as
/// [`body_media_v`] describes.
pub fn parse_body_media(defs: &mut Defs, node: &Node, scope: &Vec<String>) -> (r: Result<
    (String, MediaType),
    Error,
>)
    requires
        old(defs).wf(),
    ensures
        ({
            let m = body_media_v(old(defs)@, *node, scope.deep_view());
            final(defs)@ == m.1 && final(defs).wf() && match r {
                Ok(p) => m.0 == Ok::<(Seq<char>, MediaTypeV), ErrorV>((p.0@, p.1@)),
                Err(e) => m.0 == Err::<(Seq<char>, MediaTypeV), ErrorV>(e@),
            }
        }),
{
    let anns = &node.annotations;
    let content_type = match string_annotation(anns, "contentType", scope) {
        Err(e) => {
            return Err(e);
        },
        Ok(Some(t)) => t,
        Ok(None) => String::from_str("application/json"),
    };
    let schema = match parse_schema(defs, node, false, scope) {
        Err(e) => {
            return Err(e);
        },
        Ok(s) => s,
    };
    let example = if has_annotation(anns, "example") {
        Some(node.to_plain_json())
    } else {
        None
    };
    Ok((content_type, MediaType { schema: Some(schema), example }))
}

/// What parsing a request body yields: a single-entry content map under the
/// body's content type, an optional description from `describe`, and the
/// body always required.
pub open spec fn req_body_v(defs: DefsV, node: Node, scope: Seq<Seq<char>>) -> (Result<
    RequestBodyV,
    ErrorV,
>, DefsV) {
    match string_ann_v(node.annotations@, "describe"@, scope) {
        Err(e) => (Err(e), defs),
        Ok(d) => {
            let mr = body_media_v(defs, node, scope);
            match mr.0 {
                Err(e) => (Err(e), mr.1),
                Ok(p) => (
                    Ok(
                        RequestBodyV {
                            description: d,
                            required: Some(true),
                            content: Seq::empty().push((p.0, p.1)),
                        },
                    ),
                    mr.1,
                ),
            }
        },
    }
}

/// Parses the request body, as [`req_body_v`] describes.
pub fn parse_req_body(defs: &mut Defs, node: &Node, scope: &Vec<String>) -> (r: Result<
    RequestBody,
    Error,
>)
    requires
        old(defs).wf(),
    ensures
        ({
            let m = req_body_v(old(defs)@, *node, scope.deep_view());
            final(defs)@ == m.1 && final(defs).wf() && match r {
                Ok(b) => m.0 == Ok::<RequestBodyV, ErrorV>(b@) && b.content.wf(),
                Err(e) => m.0 == Err::<RequestBodyV, ErrorV>(e@),
            }
        }),
{
    let description = match string_annotation(&node.annotations, "describe", scope) {
        Err(e) => {
            return Err(e);
        },
        Ok(d) => d,
    };
    let media = match parse_body_media(defs, node, scope) {
        Err(e) => {
            return Err(e);
        },
        Ok(p) => p,
    };
    let mut content: Entries<MediaType> = Entries::new();
    content.insert(media.0, media.1);
    let b = RequestBody { description, required: Some(true), content };
    proof {
        let m = req_body_v(old(defs)@, *node, scope.deep_view());
        assert(b@ =~~= m.0->Ok_0);
    }
    Ok(b)
}

/// The number of placeholder segments (`{}`) in a path template.
pub open spec fn count_placeholders(parts: Seq<Seq<char>>) -> nat
    decreases parts.len(),
{
    if parts.len() == 0 {
        0
    } else {
        (if parts[0] == "{}"@ {
            1nat
        } else {
            0nat
        }) + count_placeholders(parts.drop_first())
    }
}

/// The path template with each placeholder replaced, in order, by the next
/// declared name wrapped in braces.
pub open spec fn subst_parts(parts: Seq<Seq<char>>, names: Seq<Seq<char>>) -> Seq<Seq<char>>
    decreases parts.len(),
{
    if parts.len() == 0 {
        Seq::empty()
    } else if parts[0] == "{}"@ {
        seq!["{"@ + names[0] + "}"@] + subst_parts(parts.drop_first(), names.drop_first())
    } else {
        seq![parts[0]] + subst_parts(parts.drop_first(), names)
    }
}

/// The keys of an object's properties, in order.
pub open spec fn prop_keys(props: Seq<Property>) -> Seq<Seq<char>> {
    props.map_values(|p: Property| p.key@)
}

/// Counts the placeholder segments of a path template.
pub fn placeholders(parts: &Vec<String>) -> (r: usize)
    ensures
        r == count_placeholders(parts.deep_view()),
{
    let ghost m = parts.deep_view();
    let mut n: usize = 0;
    let mut i: usize = 0;
    proof {
        assert(m.skip(0) =~= m);
    }
    while i < parts.len()
        invariant
            i <= parts@.len(),
            m == parts.deep_view(),
            m.len() == parts@.len(),
            n <= i,
            count_placeholders(m) == n + count_placeholders(m.skip(i as int)),
        decreases parts@.len() - i,
    {
        proof {
            assert(m.skip(i as int).drop_first() =~= m.skip(i + 1));
            assert(m.skip(i as int)[0] == m[i as int]);
            assert(m[i as int] == parts@[i as int]@);
        }
        if crate::strings::str_eq(parts[i].as_str(), "{}") {
            n = n + 1;
        }
        i = i + 1;
    }
    proof {
        assert(m.skip(m.len() as int) =~= Seq::<Seq<char>>::empty());
    }
    n
}

/// What resolving `req.params` does: the property count must equal the
/// placeholder count, each declared name is substituted into its placeholder
/// in order to give the final pathname, and the object is parsed as a group
/// of `path` parameters.
pub open spec fn req_params_v(
    defs: DefsV,
    params: ParamsV,
    pprops: Seq<Property>,
    node_pos: crate::doc::Position,
    path_parts: Seq<Seq<char>>,
    scope: Seq<Seq<char>>,
) -> (Result<(Seq<char>, Seq<ObjectOrReferenceV<ParameterV>>), ErrorV>, DefsV, ParamsV) {
    if count_placeholders(path_parts) != pprops.len() {
        (Err(invalid_ast_v("does not match route"@, scope, node_pos)), defs, params)
    } else {
        let pathname = crate::strings::join_seqs(
            subst_parts(path_parts, prop_keys(pprops)),
            seq!['/'],
        );
        let g = group_v(defs, params, "path"@, pprops, scope);
        match g.0 {
            Err(e) => (Err(e), g.1, g.2),
            Ok(list) => (Ok((pathname, list)), g.1, g.2),
        }
    }
}

/// Resolves `req.params`, as [`req_params_v`] describes.
pub fn parse_req_params(
    defs: &mut Defs,
    params: &mut Params,
    pprops: &Vec<Property>,
    node_pos: crate::doc::Position,
    path_parts: &Vec<String>,
    scope: &Vec<String>,
) -> (r: Result<(String, Vec<ObjectOrReference<Parameter>>), Error>)
    requires
        old(defs).wf(),
        old(params).wf(),
    ensures
        ({
            let m = req_params_v(
                old(defs)@,
                old(params)@,
                pprops@,
                node_pos,
                path_parts.deep_view(),
                scope.deep_view(),
            );
            final(defs)@ == m.1 && final(params)@ == m.2 && final(defs).wf()
                && final(params).wf()
                && match r {
                Ok(p) => m.0 == Ok::<(Seq<char>, Seq<ObjectOrReferenceV<ParameterV>>), ErrorV>(
                    (p.0@, p.1.deep_view()),
                ),
                Err(e) => m.0 == Err::<(Seq<char>, Seq<ObjectOrReferenceV<ParameterV>>), ErrorV>(
                    e@,
                ),
            }
        }),
{
    let n = placeholders(path_parts);
    if n != pprops.len() {
        return Err(Error::invalid_ast("does not match route", scope, node_pos));
    }
    let ghost pm = path_parts.deep_view();
    let ghost names = prop_keys(pprops@);
    let mut out_parts: Vec<String> = Vec::new();
    let mut idx: usize = 0;
    let mut i: usize = 0;
    proof {
        assert(pm.skip(0) =~= pm);
        assert(names.skip(0) =~= names);
        assert(out_parts.deep_view() =~= Seq::<Seq<char>>::empty());
        assert(subst_parts(pm, names) =~= out_parts.deep_view() + subst_parts(
            pm.skip(0),
            names.skip(0),
        ));
    }
    while i < path_parts.len()
        invariant
            i <= path_parts@.len(),
            idx <= pprops@.len(),
            pm == path_parts.deep_view(),
            pm.len() == path_parts@.len(),
            names == prop_keys(pprops@),
            names.len() == pprops@.len(),
            count_placeholders(pm.skip(i as int)) == names.len() - idx,
            subst_parts(pm, names) == out_parts.deep_view() + subst_parts(
                pm.skip(i as int),
                names.skip(idx as int),
            ),
        decreases path_parts@.len() - i,
    {
        proof {
            assert(pm.skip(i as int).drop_first() =~= pm.skip(i + 1));
            assert(pm.skip(i as int)[0] == pm[i as int]);
            assert(pm[i as int] == path_parts@[i as int]@);
        }
        if crate::strings::str_eq(path_parts[i].as_str(), "{}") {
            proof {
                assert(names.skip(idx as int).drop_first() =~= names.skip(idx + 1));
                assert(names.skip(idx as int)[0] == names[idx as int]);
                assert(names[idx as int] == pprops@[idx as int].key@);
            }
            let mut seg = String::new();
            seg.append("{");
            seg.append(pprops[idx].key.as_str());
            seg.append("}");
            proof {
                assert(seg@ =~= "{"@ + names[idx as int] + "}"@);
            }
            out_parts.push(seg);
            let total = pprops.len();
            proof {
                assert(count_placeholders(pm.skip(i as int)) >= 1);
                assert(idx < total);
            }
            idx = idx + 1;
            proof {
                assert(subst_parts(pm, names) =~~= out_parts.deep_view() + subst_parts(
                    pm.skip(i + 1),
                    names.skip(idx as int),
                ));
            }
        } else {
            out_parts.push(path_parts[i].clone());
            proof {
                assert(subst_parts(pm, names) =~~= out_parts.deep_view() + subst_parts(
                    pm.skip(i + 1),
                    names.skip(idx as int),
                ));
            }
        }
        i = i + 1;
    }
    proof {
        assert(pm.skip(pm.len() as int) =~= Seq::<Seq<char>>::empty());
        assert(subst_parts(Seq::<Seq<char>>::empty(), names.skip(idx as int))
            == Seq::<Seq<char>>::empty());
        assert(subst_parts(pm, names) =~~= out_parts.deep_view());
    }
    let pathname = crate::strings::join_strings(&out_parts, '/');
    let list = match parse_parameters_group(defs, params, "path", pprops, scope) {
        Err(e) => {
            return Err(e);
        },
        Ok(l) => l,
    };
    Ok((pathname, list))
}

/// Reading one optional parameter-group property (`query` or `header`): the
/// sub-object parsed as a group at that location, absent groups stay absent.
pub open spec fn group_opt_v(
    defs: DefsV,
    params: ParamsV,
    rprops: Seq<Property>,
    key: Seq<char>,
    rs: Seq<Seq<char>>,
) -> (Result<Option<Seq<ObjectOrReferenceV<ParameterV>>>, ErrorV>, DefsV, ParamsV) {
    match find_prop(rprops, key) {
        None => (Ok(None), defs, params),
        Some(gp) => match gp.value.value {
            NodeValue::Object(gprops) => {
                let g = group_v(defs, params, key, gprops@, rs.push(key));
                match g.0 {
                    Err(e) => (Err(e), g.1, g.2),
                    Ok(l) => (Ok(Some(l)), g.1, g.2),
                }
            },
            _ => (
                Err(invalid_ast_v("must be object"@, rs.push(key), gp.value.position)),
                defs,
                params,
            ),
        },
    }
}

/// Parses one optional parameter-group property, as [`group_opt_v`]
/// describes.
fn parse_group_opt(
    defs: &mut Defs,
    params: &mut Params,
    rprops: &Vec<Property>,
    key: &str,
    rs: &Vec<String>,
) -> (r: Result<Option<Vec<ObjectOrReference<Parameter>>>, Error>)
    requires
        old(defs).wf(),
        old(params).wf(),
    ensures
        ({
            let m = group_opt_v(old(defs)@, old(params)@, rprops@, key@, rs.deep_view());
            final(defs)@ == m.1 && final(params)@ == m.2 && final(defs).wf()
                && final(params).wf()
                && match r {
                Ok(Some(l)) => m.0 == Ok::<Option<Seq<ObjectOrReferenceV<ParameterV>>>, ErrorV>(
                    Some(l.deep_view()),
                ),
                Ok(None) => m.0 == Ok::<Option<Seq<ObjectOrReferenceV<ParameterV>>>, ErrorV>(
                    None,
                ),
                Err(e) => m.0 == Err::<Option<Seq<ObjectOrReferenceV<ParameterV>>>, ErrorV>(e@),
            }
        }),
{
    match crate::doc::find_property(rprops, key) {
        None => Ok(None),
        Some(gp) => match &gp.value.value {
            NodeValue::Object(gprops) => {
                let sub = crate::error::enter_scope(rs, key);
                match parse_parameters_group(defs, params, key, gprops, &sub) {
                    Err(e) => Err(e),
                    Ok(l) => Ok(Some(l)),
                }
            },
            _ => {
                let sub = crate::error::enter_scope(rs, key);
                Err(Error::invalid_ast("must be object", &sub, gp.value.position))
            },
        },
    }
}

/// The operation's parameter list: absent when no group was declared at
/// all, else the path, query and header groups joined in that order.
pub open spec fn combine_params_v(
    path: Option<Seq<ObjectOrReferenceV<ParameterV>>>,
    query: Option<Seq<ObjectOrReferenceV<ParameterV>>>,
    header: Option<Seq<ObjectOrReferenceV<ParameterV>>>,
) -> Option<Seq<ObjectOrReferenceV<ParameterV>>> {
    if path is None && query is None && header is None {
        None
    } else {
        Some(
            (match path {
                Some(l) => l,
                None => Seq::empty(),
            }) + (match query {
                Some(l) => l,
                None => Seq::empty(),
            }) + (match header {
                Some(l) => l,
                None => Seq::empty(),
            }),
        )
    }
}

/// What handling the `req` sub-object of an endpoint does once it is known
/// to be an object: the pathname from the declared path parameters, the
/// optional query and header groups, and the optional body.
pub open spec fn req_inner_v(
    defs: DefsV,
    params: ParamsV,
    rprops: Seq<Property>,
    rpos: crate::doc::Position,
    path_parts: Seq<Seq<char>>,
    rs: Seq<Seq<char>>,
) -> (Result<
    (Seq<char>, Option<Seq<ObjectOrReferenceV<ParameterV>>>, Option<RequestBodyV>),
    ErrorV,
>, DefsV, ParamsV) {
    let step1 = match find_prop(rprops, "params"@) {
        None => if count_placeholders(path_parts) > 0 {
            (Err(invalid_ast_v("req.params is required"@, rs, rpos)), defs, params)
        } else {
            (
                Ok(
                    (
                        crate::strings::join_seqs(path_parts, seq!['/']),
                        Option::<Seq<ObjectOrReferenceV<ParameterV>>>::None,
                    ),
                ),
                defs,
                params,
            )
        },
        Some(pp) => match pp.value.value {
            NodeValue::Object(pprops) => {
                let q = req_params_v(
                    defs,
                    params,
                    pprops@,
                    pp.value.position,
                    path_parts,
                    rs.push("params"@),
                );
                match q.0 {
                    Err(e) => (Err(e), q.1, q.2),
                    Ok(pr) => (Ok((pr.0, Some(pr.1))), q.1, q.2),
                }
            },
            _ => (
                Err(invalid_ast_v("must be object"@, rs.push("params"@), pp.value.position)),
                defs,
                params,
            ),
        },
    };
    match step1.0 {
        Err(e) => (Err(e), step1.1, step1.2),
        Ok(s1) => {
            let step2 = group_opt_v(step1.1, step1.2, rprops, "query"@, rs);
            match step2.0 {
                Err(e) => (Err(e), step2.1, step2.2),
                Ok(qopt) => {
                    let step3 = group_opt_v(step2.1, step2.2, rprops, "header"@, rs);
                    match step3.0 {
                        Err(e) => (Err(e), step3.1, step3.2),
                        Ok(hopt) => match find_prop(rprops, "body"@) {
                            None => (
                                Ok((s1.0, combine_params_v(s1.1, qopt, hopt), None)),
                                step3.1,
                                step3.2,
                            ),
                            Some(bp) => {
                                let b = req_body_v(step3.1, bp.value, rs.push("body"@));
                                match b.0 {
                                    Err(e) => (Err(e), b.1, step3.2),
                                    Ok(rb) => (
                                        Ok(
                                            (
                                                s1.0,
                                                combine_params_v(s1.1, qopt, hopt),
                                                Some(rb),
                                            ),
                                        ),
                                        b.1,
                                        step3.2,
                                    ),
                                }
                            },
                        },
                    }
                },
            }
        },
    }
}

/// What handling the request of an endpoint does: with no `req` sub-object
/// the route must have no placeholders and the pathname is the joined
/// template; otherwise `req` must be an object and is read as
/// [`req_inner_v`] describes.
pub open spec fn req_v(
    defs: DefsV,
    params: ParamsV,
    eprops: Seq<Property>,
    epos: crate::doc::Position,
    path_parts: Seq<Seq<char>>,
    scope: Seq<Seq<char>>,
) -> (Result<
    (Seq<char>, Option<Seq<ObjectOrReferenceV<ParameterV>>>, Option<RequestBodyV>),
    ErrorV,
>, DefsV, ParamsV) {
    match find_prop(eprops, "req"@) {
        None => if count_placeholders(path_parts) > 0 {
            (Err(invalid_ast_v("req.params is required"@, scope.push("req"@), epos)), defs, params)
        } else {
            (
                Ok((crate::strings::join_seqs(path_parts, seq!['/']), None, None)),
                defs,
                params,
            )
        },
        Some(rp) => match rp.value.value {
            NodeValue::Object(rprops) => req_inner_v(
                defs,
                params,
                rprops@,
                rp.value.position,
                path_parts,
                scope.push("req"@),
            ),
            _ => (
                Err(invalid_ast_v("must be object"@, scope.push("req"@), rp.value.position)),
                defs,
                params,
            ),
        },
    }
}

/// Handles the request side of an endpoint, as [`req_v`] describes: hands
/// back the final pathname, the declared parameters and the optional body.
pub fn parse_req(
    defs: &mut Defs,
    params: &mut Params,
    eprops: &Vec<Property>,
    epos: crate::doc::Position,
    path_parts: &Vec<String>,
    scope: &Vec<String>,
) -> (r: Result<
    (String, Option<Vec<ObjectOrReference<Parameter>>>, Option<RequestBody>),
    Error,
>)
    requires
        old(defs).wf(),
        old(params).wf(),
    ensures
        ({
            let m = req_v(
                old(defs)@,
                old(params)@,
                eprops@,
                epos,
                path_parts.deep_view(),
                scope.deep_view(),
            );
            final(defs)@ == m.1 && final(params)@ == m.2 && final(defs).wf()
                && final(params).wf()
                && match r {
                Ok(t) => m.0 matches Ok(mt) && mt.0 == t.0@ && mt.1 == t.1.deep_view() && mt.2
                    == t.2.deep_view(),
                Err(e) => m.0 == Err::<
                    (Seq<char>, Option<Seq<ObjectOrReferenceV<ParameterV>>>, Option<RequestBodyV>),
                    ErrorV,
                >(e@),
            }
        }),
{
    let rs = crate::error::enter_scope(scope, "req");
    let req_prop = match crate::doc::find_property(eprops, "req") {
        None => {
            if placeholders(path_parts) > 0 {
                return Err(Error::invalid_ast("req.params is required", &rs, epos));
            }
            let pathname = crate::strings::join_strings(path_parts, '/');
            return Ok((pathname, None, None));
        },
        Some(rp) => rp,
    };
    let rprops = match &req_prop.value.value {
        NodeValue::Object(rprops) => rprops,
        _ => {
            return Err(Error::invalid_ast("must be object", &rs, req_prop.value.position));
        },
    };
    let step1 = match crate::doc::find_property(rprops, "params") {
        None => {
            if placeholders(path_parts) > 0 {
                return Err(Error::invalid_ast(
                    "req.params is required",
                    &rs,
                    req_prop.value.position,
                ));
            }
            let pathname = crate::strings::join_strings(path_parts, '/');
            (pathname, None)
        },
        Some(pp) => match &pp.value.value {
            NodeValue::Object(pprops) => {
                let sub = crate::error::enter_scope(&rs, "params");
                match parse_req_params(defs, params, pprops, pp.value.position, path_parts, &sub) {
                    Err(e) => {
                        return Err(e);
                    },
                    Ok(pr) => (pr.0, Some(pr.1)),
                }
            },
            _ => {
                let sub = crate::error::enter_scope(&rs, "params");
                return Err(Error::invalid_ast("must be object", &sub, pp.value.position));
            },
        },
    };
    let qopt = match parse_group_opt(defs, params, rprops, "query", &rs) {
        Err(e) => {
            return Err(e);
        },
        Ok(q) => q,
    };
    let hopt = match parse_group_opt(defs, params, rprops, "header", &rs) {
        Err(e) => {
            return Err(e);
        },
        Ok(h) => h,
    };
    let body = match crate::doc::find_property(rprops, "body") {
        None => None,
        Some(bp) => {
            let sub = crate::error::enter_scope(&rs, "body");
            match parse_req_body(defs, &bp.value, &sub) {
                Err(e) => {
                    return Err(e);
                },
                Ok(rb) => Some(rb),
            }
        },
    };
    let (pathname, popt) = step1;
    let parameters: Option<Vec<ObjectOrReference<Parameter>>> = if popt.is_some() || qopt.is_some()
        || hopt.is_some() {
        let mut all: Vec<ObjectOrReference<Parameter>> = Vec::new();
        let mut tail = match popt {
            Some(l) => l,
            None => Vec::new(),
        };
        all.append(&mut tail);
        let mut tail2 = match qopt {
            Some(l) => l,
            None => Vec::new(),
        };
        all.append(&mut tail2);
        let mut tail3 = match hopt {
            Some(l) => l,
            None => Vec::new(),
        };
        all.append(&mut tail3);
        Some(all)
    } else {
        None
    };
    proof {
        let m = req_v(
            old(defs)@,
            old(params)@,
            eprops@,
            epos,
            path_parts.deep_view(),
            scope.deep_view(),
        );
        assert(parameters.deep_view() =~~= m.0->Ok_0.1);
    }
    Ok((pathname, parameters, body))
}

/// What one response entry yields. The key must be an unsigned integer in
/// `[100, 599]`; the description comes from `describe`, defaulting to the
/// empty string. With `withHeader` present the value must be an object whose
/// `headers` and `body` sub-objects are read separately; otherwise the whole
/// value is the body.
pub open spec fn response_one_v(defs: DefsV, p: Property, scope: Seq<Seq<char>>) -> (Result<
    (Seq<char>, crate::openapi::ResponseV),
    ErrorV,
>, DefsV) {
    let sub = scope.push(p.key@);
    match crate::strings::parse_u32_seq(p.key@) {
        None => (Err(invalid_ast_v("should be status code"@, sub, p.position)), defs),
        Some(st) => if st < 100 || st > 599 {
            (Err(invalid_ast_v("must be integer in [100, 600)"@, sub, p.position)), defs)
        } else {
            match string_ann_v(p.value.annotations@, "describe"@, sub) {
                Err(e) => (Err(e), defs),
                Ok(d) => {
                    let desc = match d {
                        Some(t) => t,
                        None => Seq::<char>::empty(),
                    };
                    if find_ann(p.value.annotations@, "withHeader"@) is Some {
                        match p.value.value {
                            NodeValue::Object(subprops) => {
                                let hstep = match find_prop(subprops@, "headers"@) {
                                    None => (
                                        Ok(
                                            Option::<
                                                Seq<(Seq<char>, ObjectOrReferenceV<HeaderV>)>,
                                            >::None,
                                        ),
                                        defs,
                                    ),
                                    Some(hp) => match hp.value.value {
                                        NodeValue::Object(hprops) => {
                                            let h = headers_v(
                                                defs,
                                                hprops@,
                                                sub.push("headers"@),
                                            );
                                            match h.0 {
                                                Err(e) => (Err(e), h.1),
                                                Ok(hs) => (Ok(Some(hs)), h.1),
                                            }
                                        },
                                        _ => (
                                            Err(
                                                invalid_ast_v(
                                                    "must be object"@,
                                                    sub.push("headers"@),
                                                    hp.value.position,
                                                ),
                                            ),
                                            defs,
                                        ),
                                    },
                                };
                                match hstep.0 {
                                    Err(e) => (Err(e), hstep.1),
                                    Ok(hs) => match find_prop(subprops@, "body"@) {
                                        None => (
                                            Ok(
                                                (
                                                    p.key@,
                                                    crate::openapi::ResponseV {
                                                        description: desc,
                                                        content: None,
                                                        headers: hs,
                                                    },
                                                ),
                                            ),
                                            hstep.1,
                                        ),
                                        Some(bp) => {
                                            let b = body_media_v(
                                                hstep.1,
                                                bp.value,
                                                sub.push("body"@),
                                            );
                                            match b.0 {
                                                Err(e) => (Err(e), b.1),
                                                Ok(cm) => (
                                                    Ok(
                                                        (
                                                            p.key@,
                                                            crate::openapi::ResponseV {
                                                                description: desc,
                                                                content: Some(
                                                                    Seq::empty().push(cm),
                                                                ),
                                                                headers: hs,
                                                            },
                                                        ),
                                                    ),
                                                    b.1,
                                                ),
                                            }
                                        },
                                    },
                                }
                            },
                            _ => (
                                Err(invalid_ast_v("must be object"@, sub, p.value.position)),
                                defs,
                            ),
                        }
                    } else {
                        let b = body_media_v(defs, p.value, sub);
                        match b.0 {
                            Err(e) => (Err(e), b.1),
                            Ok(cm) => (
                                Ok(
                                    (
                                        p.key@,
                                        crate::openapi::ResponseV {
                                            description: desc,
                                            content: Some(Seq::empty().push(cm)),
                                            headers: None,
                                        },
                                    ),
                                ),
                                b.1,
                            ),
                        }
                    }
                },
            }
        },
    }
}

/// The response map of a `res` object: one response per property, keyed by
/// its status code, a repeated code replacing the earlier response; the
/// first failure stops the walk.
pub open spec fn responses_v(defs: DefsV, props: Seq<Property>, scope: Seq<Seq<char>>) -> (Result<
    Seq<(Seq<char>, crate::openapi::ResponseV)>,
    ErrorV,
>, DefsV)
    decreases props.len(),
{
    if props.len() == 0 {
        (Ok(Seq::empty()), defs)
    } else {
        let rp = responses_v(defs, props.drop_last(), scope);
        match rp.0 {
            Err(e) => (Err(e), rp.1),
            Ok(rs) => {
                let rc = response_one_v(rp.1, props.last(), scope);
                match rc.0 {
                    Err(e) => (Err(e), rc.1),
                    Ok(one) => (Ok(insert_v(rs, one.0, one.1)), rc.1),
                }
            },
        }
    }
}

/// A failure on a prefix of the responses settles the whole walk.
proof fn lemma_responses_stop(defs: DefsV, props: Seq<Property>, scope: Seq<Seq<char>>, k: int)
    requires
        0 <= k <= props.len(),
        responses_v(defs, props.take(k), scope).0 is Err,
    ensures
        responses_v(defs, props, scope) == responses_v(defs, props.take(k), scope),
    decreases props.len() - k,
{
    if k < props.len() {
        assert(props.take(k + 1).drop_last() =~= props.take(k));
        lemma_responses_stop(defs, props, scope, k + 1);
    } else {
        assert(props.take(k) =~= props);
    }
}

/// Parses one response entry, as [`response_one_v`] describes.
fn parse_response_one(defs: &mut Defs, p: &Property, scope: &Vec<String>) -> (r: Result<
    (String, crate::openapi::Response),
    Error,
>)
    requires
        old(defs).wf(),
    ensures
        ({
            let m = response_one_v(old(defs)@, *p, scope.deep_view());
            final(defs)@ == m.1 && final(defs).wf() && match r {
                Ok(t) => m.0 matches Ok(mt) && mt.0 == t.0@ && mt.1 == t.1@ && (t.1.content
                    matches Some(c) ==> c.wf()) && (t.1.headers matches Some(h) ==> h.wf()),
                Err(e) => m.0 == Err::<(Seq<char>, crate::openapi::ResponseV), ErrorV>(e@),
            }
        }),
{
    let sub = crate::error::enter_scope(scope, p.key.as_str());
    let key_chars = crate::strings::str_to_chars(p.key.as_str());
    let st = match crate::strings::parse_u32_chars(&key_chars) {
        None => {
            return Err(Error::invalid_ast("should be status code", &sub, p.position));
        },
        Some(st) => st,
    };
    if st < 100 || st > 599 {
        return Err(Error::invalid_ast("must be integer in [100, 600)", &sub, p.position));
    }
    let description = match string_annotation(&p.value.annotations, "describe", &sub) {
        Err(e) => {
            return Err(e);
        },
        Ok(Some(t)) => t,
        Ok(None) => String::new(),
    };
    if has_annotation(&p.value.annotations, "withHeader") {
        let subprops = match &p.value.value {
            NodeValue::Object(subprops) => subprops,
            _ => {
                return Err(Error::invalid_ast("must be object", &sub, p.value.position));
            },
        };
        let headers = match crate::doc::find_property(subprops, "headers") {
            None => None,
            Some(hp) => match &hp.value.value {
                NodeValue::Object(hprops) => {
                    let hsub = crate::error::enter_scope(&sub, "headers");
                    match parse_headers_group(defs, hprops, &hsub) {
                        Err(e) => {
                            return Err(e);
                        },
                        Ok(hs) => Some(hs),
                    }
                },
                _ => {
                    let hsub = crate::error::enter_scope(&sub, "headers");
                    return Err(Error::invalid_ast("must be object", &hsub, hp.value.position));
                },
            },
        };
        let content = match crate::doc::find_property(subprops, "body") {
            None => None,
            Some(bp) => {
                let bsub = crate::error::enter_scope(&sub, "body");
                let media = match parse_body_media(defs, &bp.value, &bsub) {
                    Err(e) => {
                        return Err(e);
                    },
                    Ok(cm) => cm,
                };
                let mut c: Entries<MediaType> = Entries::new();
                c.insert(media.0, media.1);
                Some(c)
            },
        };
        let resp = crate::openapi::Response { description, content, headers };
        proof {
            let m = response_one_v(old(defs)@, *p, scope.deep_view());
            assert(resp@ =~~= m.0->Ok_0.1);
        }
        Ok((p.key.clone(), resp))
    } else {
        let media = match parse_body_media(defs, &p.value, &sub) {
            Err(e) => {
                return Err(e);
            },
            Ok(cm) => cm,
        };
        let mut c: Entries<MediaType> = Entries::new();
        c.insert(media.0, media.1);
        let resp = crate::openapi::Response { description, content: Some(c), headers: None };
        proof {
            let m = response_one_v(old(defs)@, *p, scope.deep_view());
            assert(resp@ =~~= m.0->Ok_0.1);
        }
        Ok((p.key.clone(), resp))
    }
}

/// Parses the `res` object into the response map, as [`responses_v`]
/// describes.
pub fn parse_res(defs: &mut Defs, props: &Vec<Property>, scope: &Vec<String>) -> (r: Result<
    Entries<crate::openapi::Response>,
    Error,
>)
    requires
        old(defs).wf(),
    ensures
        ({
            let m = responses_v(old(defs)@, props@, scope.deep_view());
            final(defs)@ == m.1 && final(defs).wf() && match r {
                Ok(rs) => m.0 == Ok::<Seq<(Seq<char>, crate::openapi::ResponseV)>, ErrorV>(rs@)
                    && rs.wf(),
                Err(e) => m.0 == Err::<Seq<(Seq<char>, crate::openapi::ResponseV)>, ErrorV>(e@),
            }
        }),
{
    let ghost scope_v = scope.deep_view();
    let ghost defs0 = defs@;
    let mut out: Entries<crate::openapi::Response> = Entries::new();
    let mut i: usize = 0;
    proof {
        assert(props@.take(0) =~= Seq::<Property>::empty());
    }
    while i < props.len()
        invariant
            i <= props@.len(),
            defs.wf(),
            out.wf(),
            defs0 == old(defs)@,
            scope_v == scope.deep_view(),
            responses_v(defs0, props@.take(i as int), scope_v) == (
                Ok::<Seq<(Seq<char>, crate::openapi::ResponseV)>, ErrorV>(out@),
                defs@,
            ),
        decreases props@.len() - i,
    {
        proof {
            assert(props@.take(i + 1).drop_last() =~= props@.take(i as int));
            assert(props@.take(i + 1).last() == props@[i as int]);
        }
        match parse_response_one(defs, &props[i], scope) {
            Err(e) => {
                proof {
                    assert(responses_v(defs0, props@.take(i + 1), scope_v).0 is Err);
                    lemma_responses_stop(defs0, props@, scope_v, i + 1);
                }
                return Err(e);
            },
            Ok(t) => {
                out.insert(t.0, t.1);
                proof {
                    assert(out@ =~~= responses_v(defs0, props@.take(i + 1), scope_v).0->Ok_0);
                }
            },
        }
        i = i + 1;
    }
    proof {
        assert(props@.take(props@.len() as int) =~= props@);
    }
    Ok(out)
}

/// The base operation from an `endpoint` annotation: its argument must be
/// an object; `summary` and `description` must be strings and `tags` an
/// array of strings when present; other fields are ignored; absence yields
/// an empty operation.
pub open spec fn endpoint_ann_v(anns: Seq<Annotation>, scope: Seq<Seq<char>>) -> Result<
    crate::openapi::OperationV,
    ErrorV,
> {
    match find_ann(anns, "endpoint"@) {
        None => Ok(crate::openapi::operation_empty_v()),
        Some(a) => match a.value {
            crate::json::Json::Obj(entries) => {
                let m = crate::json::json_view_obj(entries@);
                let su = match crate::entries::get_v(m, "summary"@) {
                    None => Some(None),
                    Some(JsonV::Str(s)) => Some(Some(s)),
                    Some(_) => None,
                };
                let de = match crate::entries::get_v(m, "description"@) {
                    None => Some(None),
                    Some(JsonV::Str(s)) => Some(Some(s)),
                    Some(_) => None,
                };
                let tg = match crate::entries::get_v(m, "tags"@) {
                    None => Some(None),
                    Some(JsonV::Arr(els)) => match crate::schema_json::str_list_v(els) {
                        Some(names) => Some(Some(names)),
                        None => None,
                    },
                    Some(_) => None,
                };
                if su is Some && de is Some && tg is Some {
                    Ok(
                        crate::openapi::OperationV {
                            summary: su->Some_0,
                            description: de->Some_0,
                            tags: tg->Some_0,
                            ..crate::openapi::operation_empty_v()
                        },
                    )
                } else {
                    Err(
                        crate::error::invalid_annotation_v(
                            "is invalid"@,
                            "endpoint"@,
                            scope,
                            a.position,
                        ),
                    )
                }
            },
            _ => Err(
                crate::error::invalid_annotation_v(
                    "must be object"@,
                    "endpoint"@,
                    scope,
                    a.position,
                ),
            ),
        },
    }
}

/// Reads the `endpoint` annotation into a base operation, as
/// [`endpoint_ann_v`] describes.
pub fn parse_endpoint_annotation(anns: &Vec<Annotation>, scope: &Vec<String>) -> (r: Result<
    crate::openapi::Operation,
    Error,
>)
    ensures
        ({
            let m = endpoint_ann_v(anns@, scope.deep_view());
            match r {
                Ok(op) => m == Ok::<crate::openapi::OperationV, ErrorV>(op@)
                    && op.responses.wf(),
                Err(e) => m == Err::<crate::openapi::OperationV, ErrorV>(e@),
            }
        }),
{
    let a = match crate::doc::find_annotation(anns, "endpoint") {
        None => {
            return Ok(crate::openapi::Operation::new());
        },
        Some(a) => a,
    };
    let entries = match &a.value {
        crate::json::Json::Obj(entries) => entries,
        _ => {
            return Err(Error::invalid_annotation("must be object", "endpoint", scope, a.position));
        },
    };
    proof {
        crate::json::lemma_json_view_obj(entries@);
    }
    let summary: Option<String> = match crate::schema_json::json_obj_find(entries, "summary") {
        None => None,
        Some(i) => match &entries[i].1 {
            crate::json::Json::Str(s) => Some(s.clone()),
            _ => {
                return Err(Error::invalid_annotation("is invalid", "endpoint", scope, a.position));
            },
        },
    };
    let description: Option<String> = match crate::schema_json::json_obj_find(
        entries,
        "description",
    ) {
        None => None,
        Some(i) => match &entries[i].1 {
            crate::json::Json::Str(s) => Some(s.clone()),
            _ => {
                return Err(Error::invalid_annotation("is invalid", "endpoint", scope, a.position));
            },
        },
    };
    let tags: Option<Vec<String>> = match crate::schema_json::json_obj_find(entries, "tags") {
        None => None,
        Some(i) => match &entries[i].1 {
            crate::json::Json::Arr(els) => match crate::schema_json::json_str_list(els) {
                Some(names) => Some(names),
                None => {
                    return Err(
                        Error::invalid_annotation("is invalid", "endpoint", scope, a.position),
                    );
                },
            },
            _ => {
                return Err(Error::invalid_annotation("is invalid", "endpoint", scope, a.position));
            },
        },
    };
    let mut op = crate::openapi::Operation::new();
    op.summary = summary;
    op.description = description;
    op.tags = tags;
    proof {
        assert(op@ =~~= endpoint_ann_v(anns@, scope.deep_view())->Ok_0);
    }
    Ok(op)
}

/// What transforming one endpoint does: the property's value must be an
/// object; the `endpoint` annotation seeds the operation, the key becomes
/// the operation id; the route is resolved (recording its canonical form),
/// the request side gives the pathname, parameters and body, and `res`
/// gives the response map — absent, a single default `200` response with an
/// empty description. A failure at any step abandons only this endpoint.
pub open spec fn endpoint_v(
    defs: DefsV,
    params: ParamsV,
    routes: Seq<Seq<char>>,
    prop: Property,
) -> (Result<(Seq<char>, crate::openapi::MethodKind, crate::openapi::OperationV), ErrorV>, DefsV, ParamsV, Seq<Seq<char>>) {
    let scope = seq![prop.key@];
    match prop.value.value {
        NodeValue::Object(eprops) => match endpoint_ann_v(prop.value.annotations@, scope) {
            Err(e) => (Err(e), defs, params, routes),
            Ok(op0) => {
                let rr = crate::route::route_v(
                    routes,
                    eprops@,
                    prop.value.position,
                    scope.push("route"@),
                );
                match rr.0 {
                    Err(e) => (Err(e), defs, params, rr.1),
                    Ok(mp) => {
                        let rq = req_v(
                            defs,
                            params,
                            eprops@,
                            prop.value.position,
                            mp.1,
                            scope,
                        );
                        match rq.0 {
                            Err(e) => (Err(e), rq.1, rq.2, rr.1),
                            Ok(reqt) => {
                                let rs = match find_prop(eprops@, "res"@) {
                                    None => (
                                        Ok(
                                            Seq::empty().push(
                                                (
                                                    "200"@,
                                                    crate::openapi::ResponseV {
                                                        description: Seq::<char>::empty(),
                                                        content: None,
                                                        headers: None,
                                                    },
                                                ),
                                            ),
                                        ),
                                        rq.1,
                                    ),
                                    Some(rp) => match rp.value.value {
                                        NodeValue::Object(rprops) => responses_v(
                                            rq.1,
                                            rprops@,
                                            scope.push("res"@),
                                        ),
                                        _ => (
                                            Err(
                                                invalid_ast_v(
                                                    "must be object"@,
                                                    scope.push("res"@),
                                                    rp.value.position,
                                                ),
                                            ),
                                            rq.1,
                                        ),
                                    },
                                };
                                match rs.0 {
                                    Err(e) => (Err(e), rs.1, rq.2, rr.1),
                                    Ok(resps) => (
                                        Ok(
                                            (
                                                reqt.0,
                                                mp.0,
                                                crate::openapi::OperationV {
                                                    operation_id: Some(prop.key@),
                                                    parameters: reqt.1,
                                                    request_body: match reqt.2 {
                                                        Some(rb) => Some(
                                                            ObjectOrReferenceV::Object(rb),
                                                        ),
                                                        None => None,
                                                    },
                                                    responses: resps,
                                                    ..op0
                                                },
                                            ),
                                        ),
                                        rs.1,
                                        rq.2,
                                        rr.1,
                                    ),
                                }
                            },
                        }
                    },
                }
            },
        },
        _ => (Err(invalid_ast_v("must be object"@, scope, prop.position)), defs, params, routes),
    }
}

/// Transforms one endpoint, as [`endpoint_v`] describes: hands back the
/// final pathname, the method, and the finished operation.
pub fn parse_endpoint(
    defs: &mut Defs,
    params: &mut Params,
    routes: &mut Vec<String>,
    prop: &Property,
) -> (r: Result<(String, crate::openapi::MethodKind, crate::openapi::Operation), Error>)
    requires
        old(defs).wf(),
        old(params).wf(),
    ensures
        ({
            let m = endpoint_v(old(defs)@, old(params)@, old(routes).deep_view(), *prop);
            final(defs)@ == m.1 && final(params)@ == m.2 && final(routes).deep_view() == m.3
                && final(defs).wf() && final(params).wf() && match r {
                Ok(t) => m.0 matches Ok(mt) && mt.0 == t.0@ && mt.1 == t.1 && mt.2 == t.2@
                    && t.2.responses.wf(),
                Err(e) => m.0 == Err::<
                    (Seq<char>, crate::openapi::MethodKind, crate::openapi::OperationV),
                    ErrorV,
                >(e@),
            }
        }),
{
    let mut scope: Vec<String> = Vec::new();
    scope.push(prop.key.clone());
    proof {
        assert(scope.deep_view() =~~= seq![prop.key@]);
    }
    let eprops = match &prop.value.value {
        NodeValue::Object(eprops) => eprops,
        _ => {
            return Err(Error::invalid_ast("must be object", &scope, prop.position));
        },
    };
    let mut op = match parse_endpoint_annotation(&prop.value.annotations, &scope) {
        Err(e) => {
            return Err(e);
        },
        Ok(op0) => op0,
    };
    let route_scope = crate::error::enter_scope(&scope, "route");
    let mp = match crate::route::parse_route(routes, eprops, prop.value.position, &route_scope) {
        Err(e) => {
            return Err(e);
        },
        Ok(mp) => mp,
    };
    let (method, path_parts) = mp;
    let reqt = match parse_req(defs, params, eprops, prop.value.position, &path_parts, &scope) {
        Err(e) => {
            return Err(e);
        },
        Ok(t) => t,
    };
    let (pathname, parameters, request_body) = reqt;
    let responses: Entries<crate::openapi::Response> = match crate::doc::find_property(
        eprops,
        "res",
    ) {
        None => {
            let mut rs: Entries<crate::openapi::Response> = Entries::new();
            rs.insert(
                String::from_str("200"),
                crate::openapi::Response {
                    description: String::new(),
                    content: None,
                    headers: None,
                },
            );
            rs
        },
        Some(rp) => match &rp.value.value {
            NodeValue::Object(rprops) => {
                let res_scope = crate::error::enter_scope(&scope, "res");
                match parse_res(defs, rprops, &res_scope) {
                    Err(e) => {
                        return Err(e);
                    },
                    Ok(rs) => rs,
                }
            },
            _ => {
                let res_scope = crate::error::enter_scope(&scope, "res");
                return Err(Error::invalid_ast("must be object", &res_scope, rp.value.position));
            },
        },
    };
    op.operation_id = Some(prop.key.clone());
    op.parameters = parameters;
    op.request_body = match request_body {
        Some(rb) => Some(ObjectOrReference::Object(rb)),
        None => None,
    };
    op.responses = responses;
    proof {
        let m = endpoint_v(old(defs)@, old(params)@, old(routes).deep_view(), *prop);
        assert(op@ =~~= m.0->Ok_0.2);
    }
    Ok((pathname, method, op))
}

} // verus!
