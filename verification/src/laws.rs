//! The engine's general guarantees, stated once and proved from the
//! contracts of the components they speak of.
use crate::doc::find_ann;
use crate::doc::Node;
use crate::doc::NodeValue;
use crate::doc::Position;
use crate::doc::Property;
use crate::endpoint::endpoint_v;
use crate::endpoint::req_params_v;
use crate::endpoint::response_one_v;
use crate::endpoint::responses_v;
use crate::endpoint::count_placeholders;
use crate::endpoint::ParamsV;
use crate::entries::has_key;
use crate::entries::index_of_key;
use crate::entries::insert_v;
use crate::entries::lemma_index_of_key;
use crate::entries::lemma_insert_v_unique;
use crate::entries::unique_keys;
use crate::error::invalid_ast_v;
use crate::loader::drive_v;
use crate::loader::openapi_seed_v;
use crate::loader::parse_v;
use crate::loader::default_info_v;
use crate::loader::DriveV;
use crate::route::canonical_route_v;
use crate::route::method_of;
use crate::schema::finish_schema_v;
use crate::schema::infer_v;
use crate::schema::DefsV;
use crate::strings::parse_u32_seq;
use crate::strings::split_seq;
use crate::strings::trim_seq;
use crate::doc::string_ann_v;
use vstd::prelude::*;

verus! {

/// A document with no `openapi` annotation still yields a specification,
/// with the default metadata: the annotation's absence is never an error,
/// and on success the version tag and info block are the defaults.
pub proof fn lemma_default_metadata(node: Node)
    requires
        find_ann(node.annotations@, "openapi"@) is None,
    ensures
        openapi_seed_v(node.annotations@).2 is None,
        parse_v(node) is Ok ==> parse_v(node)->Ok_0.openapi == "3.0"@ && parse_v(node)->Ok_0.info
            == default_info_v(),
{
}

/// A `req.params` object whose property count differs from the number of
/// route placeholders is rejected with `does not match route`, and neither
/// registry changes.
pub proof fn lemma_params_count_mismatch(
    defs: DefsV,
    params: ParamsV,
    pprops: Seq<Property>,
    pos: Position,
    path_parts: Seq<Seq<char>>,
    scope: Seq<Seq<char>>,
)
    requires
        count_placeholders(path_parts) != pprops.len(),
    ensures
        req_params_v(defs, params, pprops, pos, path_parts, scope).0 == Err::<
            (Seq<char>, Seq<crate::openapi::ObjectOrReferenceV<crate::openapi::ParameterV>>),
            crate::error::ErrorV,
        >(invalid_ast_v("does not match route"@, scope, pos)),
        req_params_v(defs, params, pprops, pos, path_parts, scope).1 == defs,
        req_params_v(defs, params, pprops, pos, path_parts, scope).2 == params,
{
}

/// An endpoint whose route was already seen — same method and same original
/// path template, compared canonically, so the method's case does not
/// matter — is rejected with `is conflict`, and the registries and the
/// seen-route set are untouched.
pub proof fn lemma_duplicate_route_conflict(
    defs: DefsV,
    params: ParamsV,
    routes: Seq<Seq<char>>,
    prop: Property,
)
    requires
        crate::endpoint::endpoint_ann_v(prop.value.annotations@, seq![prop.key@]) is Ok,
        ({
            &&& prop.value.value matches NodeValue::Object(epv)
            &&& crate::doc::find_prop(epv@, "route"@) matches Some(rp)
            &&& rp.value.value matches NodeValue::Str(s)
            &&& split_seq(s@, ' ').len() == 2
            &&& method_of(split_seq(s@, ' ')[0]) matches Some(m)
            &&& routes.contains(canonical_route_v(m, trim_seq(split_seq(s@, ' ')[1])))
        }),
    ensures
        endpoint_v(defs, params, routes, prop).0 is Err,
        exists|pos: Position|
            endpoint_v(defs, params, routes, prop).0->Err_0 == invalid_ast_v(
                "is conflict"@,
                seq![prop.key@].push("route"@),
                pos,
            ),
        endpoint_v(defs, params, routes, prop).1 == defs,
        endpoint_v(defs, params, routes, prop).2 == params,
        endpoint_v(defs, params, routes, prop).3 == routes,
{
    let epv = prop.value.value->Object_0;
    let rp = crate::doc::find_prop(epv@, "route"@)->Some_0;
    let rr = crate::route::route_v(
        routes,
        epv@,
        prop.value.position,
        seq![prop.key@].push("route"@),
    );
    assert(rr.0->Err_0 == invalid_ast_v(
        "is conflict"@,
        seq![prop.key@].push("route"@),
        rp.value.position,
    ));
}

/// A failed endpoint changes no path: the driver records the diagnostic and
/// the specification built so far — the earlier endpoints' operations —
/// stays exactly as it was.
pub proof fn lemma_failed_endpoint_keeps_paths(st: DriveV, prop: Property)
    requires
        endpoint_v(st.defs, st.params, st.routes, prop).0 is Err,
    ensures
        drive_v(st, seq![prop]).paths == st.paths,
        drive_v(st, seq![prop]).errors == st.errors.push(
            endpoint_v(st.defs, st.params, st.routes, prop).0->Err_0,
        ),
{
    assert(seq![prop].drop_last() =~= Seq::<Property>::empty());
    assert(seq![prop].last() == prop);
    assert(drive_v(st, Seq::<Property>::empty()) == st);
}

/// A response key outside `[100, 599]`, or not a number at all, is an
/// error, and no response is inserted: the whole response map fails.
pub proof fn lemma_bad_status_key(
    defs: DefsV,
    props: Seq<Property>,
    scope: Seq<Seq<char>>,
    i: int,
)
    requires
        0 <= i < props.len(),
        match parse_u32_seq(props[i].key@) {
            None => true,
            Some(st) => st < 100 || st > 599,
        },
    ensures
        responses_v(defs, props, scope).0 is Err,
    decreases props.len(),
{
    let p = props[i];
    assert(response_one_v(responses_v(defs, props.drop_last(), scope).1, p, scope).0 is Err);
    if i == props.len() - 1 {
    } else {
        lemma_bad_status_key(defs, props.drop_last(), scope, i);
        assert(props.drop_last()[i] == props[i]);
    }
}

/// Round-trip of a captured example: when inference of a primitive literal
/// yields an inline schema, that schema's `example` field holds exactly the
/// node's literal value.
pub proof fn lemma_example_round_trip(
    defs: DefsV,
    node: Node,
    is_parameter: bool,
    scope: Seq<Seq<char>>,
)
    requires
        node.value is Bool || node.value is Int || node.value is Float || node.value is Str,
        infer_v(defs, node, is_parameter, scope).0 matches Ok(s) && s is Inline,
    ensures
        infer_v(defs, node, is_parameter, scope).0->Ok_0->Inline_0.example == Some(
            crate::doc::spec_plain(node),
        ),
{
}

/// Registering twice under one name leaves exactly one entry for that name
/// — the later value, in the original position — and the map grows only on
/// the first registration.
pub proof fn lemma_save_idempotent<T>(m: Seq<(Seq<char>, T)>, name: Seq<char>, v1: T, v2: T)
    requires
        unique_keys(m),
    ensures
        ({
            let m2 = insert_v(insert_v(m, name, v1), name, v2);
            has_key(m2, name) && m2[index_of_key(m2, name)].1 == v2 && m2.len() == insert_v(
                m,
                name,
                v1,
            ).len() && unique_keys(m2) && forall|i: int|
                0 <= i < m2.len() && i != index_of_key(m2, name) ==> m2[i].0 != name
        }),
{
    let m1 = insert_v(m, name, v1);
    lemma_index_of_key(m, name);
    lemma_insert_v_unique(m, name, v1);
    if has_key(m, name) {
        assert(m1[index_of_key(m, name)].0 == name);
    } else {
        assert(m1[m.len() as int].0 == name);
    }
    lemma_index_of_key(m1, name);
    lemma_insert_v_unique(m1, name, v2);
    let m2 = insert_v(m1, name, v2);
    lemma_index_of_key(m2, name);
    if !has_key(m1, name) {
        assert(false);
    }
    assert(m2[index_of_key(m1, name)].0 == name);
    if !has_key(m2, name) {
        assert(false);
    }
    assert(m2[index_of_key(m2, name)].0 == name);
    assert forall|i: int|
        0 <= i < m2.len() && i != index_of_key(m2, name) implies m2[i].0 != name by {
        if m2[i].0 == name {
            assert(false);
        }
    }
}

/// Both registrations of one name hand back the same pointer: the canonical
/// pointer string depends on the name alone.
pub proof fn lemma_save_same_pointer(
    defs1: DefsV,
    defs2: DefsV,
    anns: Seq<crate::doc::Annotation>,
    scope: Seq<Seq<char>>,
    is1: crate::openapi::InlineSchemaV,
    is2: crate::openapi::InlineSchemaV,
)
    requires
        string_ann_v(anns, "save"@, scope) matches Ok(n) && n is Some,
    ensures
        finish_schema_v(defs1, anns, scope, is1).0 == finish_schema_v(defs2, anns, scope, is2).0,
        finish_schema_v(defs1, anns, scope, is1).0 matches Ok(s) && s is Reference,
{
}

} // verus!
