//! The document driver: seeds the specification from the root `openapi`
//! annotation, transforms every top-level property as an endpoint, collects
//! every diagnostic in one pass, and assembles the finished specification —
//! handed out only when the whole document produced no diagnostic.
use crate::doc::find_ann;
use crate::doc::Annotation;
use crate::doc::Node;
use crate::doc::NodeValue;
use crate::doc::Property;
use crate::endpoint::endpoint_v;
use crate::endpoint::parse_endpoint;
use crate::endpoint::Params;
use crate::endpoint::ParamsV;
use crate::entries::get_v;
use crate::entries::insert_v;
use crate::entries::Entries;
use crate::error::invalid_annotation_v;
use crate::error::invalid_ast_v;
use crate::error::Error;
use crate::error::ErrorV;
use crate::json::Json;
use crate::json::JsonV;
use crate::openapi::path_item_empty_v;
use crate::openapi::path_item_set_v;
use crate::openapi::Components;
use crate::openapi::ComponentsV;
use crate::openapi::Info;
use crate::openapi::InfoV;
use crate::openapi::Openapi;
use crate::openapi::OpenapiV;
use crate::openapi::PathItem;
use crate::openapi::PathItemV;
use crate::schema::Defs;
use crate::schema::DefsV;
use vstd::prelude::*;

verus! {

/// The default metadata: what the specification says of itself when the
/// document carries no `openapi` annotation at all.
pub open spec fn default_info_v() -> InfoV {
    InfoV { title: "openapi"@, version: "0.1.0"@, description: None }
}

/// The metadata seed read from the root `openapi` annotation: version tag
/// and info block, with the defaults filling anything left unsaid. A
/// wrongly shaped annotation yields a diagnostic and the defaults — the run
/// goes on, so every other problem in the document is still found.
pub open spec fn openapi_seed_v(anns: Seq<Annotation>) -> (Seq<char>, InfoV, Option<ErrorV>) {
    match find_ann(anns, "openapi"@) {
        None => ("3.0"@, default_info_v(), None),
        Some(a) => match a.value {
            Json::Obj(entries) => {
                let m = crate::json::json_view_obj(entries@);
                let ver = match get_v(m, "openapi"@) {
                    None => Some("3.0"@),
                    Some(JsonV::Str(s)) => Some(s),
                    Some(_) => None,
                };
                let info = match get_v(m, "info"@) {
                    None => Some(default_info_v()),
                    Some(JsonV::Obj(ients)) => {
                        let ti = match get_v(ients, "title"@) {
                            None => Some("openapi"@),
                            Some(JsonV::Str(s)) => Some(s),
                            Some(_) => None,
                        };
                        let ve = match get_v(ients, "version"@) {
                            None => Some("0.1.0"@),
                            Some(JsonV::Str(s)) => Some(s),
                            Some(_) => None,
                        };
                        let de = match get_v(ients, "description"@) {
                            None => Some(None),
                            Some(JsonV::Str(s)) => Some(Some(s)),
                            Some(_) => None,
                        };
                        if ti is Some && ve is Some && de is Some {
                            Some(
                                InfoV {
                                    title: ti->Some_0,
                                    version: ve->Some_0,
                                    description: de->Some_0,
                                },
                            )
                        } else {
                            None
                        }
                    },
                    Some(_) => None,
                };
                if ver is Some && info is Some {
                    (ver->Some_0, info->Some_0, None)
                } else {
                    (
                        "3.0"@,
                        default_info_v(),
                        Some(
                            invalid_annotation_v(
                                "is invalid"@,
                                "openapi"@,
                                Seq::empty(),
                                a.position,
                            ),
                        ),
                    )
                }
            },
            _ => (
                "3.0"@,
                default_info_v(),
                Some(
                    invalid_annotation_v("must be object"@, "openapi"@, Seq::empty(), a.position),
                ),
            ),
        },
    }
}

/// Reads the root `openapi` annotation into the metadata seed, as
/// [`openapi_seed_v`] describes.
pub fn parse_openapi_annotation(anns: &Vec<Annotation>) -> (r: (String, Info, Option<Error>))
    ensures
        ({
            let m = openapi_seed_v(anns@);
            r.0@ == m.0 && r.1@ == m.1 && match (r.2, m.2) {
                (Some(e), Some(me)) => e@ == me,
                (None, None) => true,
                _ => false,
            }
        }),
{
    let default_info = Info {
        title: String::from_str("openapi"),
        version: String::from_str("0.1.0"),
        description: None,
    };
    let a = match crate::doc::find_annotation(anns, "openapi") {
        None => {
            return (String::from_str("3.0"), default_info, None);
        },
        Some(a) => a,
    };
    let entries = match &a.value {
        Json::Obj(entries) => entries,
        _ => {
            let empty_scope: Vec<String> = Vec::new();
            let e = Error::invalid_annotation("must be object", "openapi", &empty_scope, a.position);
            proof {
                assert(empty_scope.deep_view() =~~= Seq::<Seq<char>>::empty());
            }
            return (String::from_str("3.0"), default_info, Some(e));
        },
    };
    proof {
        crate::json::lemma_json_view_obj(entries@);
    }
    let ver: Option<String> = match crate::schema_json::json_obj_find(entries, "openapi") {
        None => Some(String::from_str("3.0")),
        Some(i) => match &entries[i].1 {
            Json::Str(s) => Some(s.clone()),
            _ => None,
        },
    };
    let info: Option<Info> = match crate::schema_json::json_obj_find(entries, "info") {
        None => Some(default_info),
        Some(i) => match &entries[i].1 {
            Json::Obj(ients) => {
                proof {
                    crate::json::lemma_json_view_obj(ients@);
                }
                let ti: Option<String> = match crate::schema_json::json_obj_find(ients, "title") {
                    None => Some(String::from_str("openapi")),
                    Some(j) => match &ients[j].1 {
                        Json::Str(s) => Some(s.clone()),
                        _ => None,
                    },
                };
                let ve: Option<String> = match crate::schema_json::json_obj_find(
                    ients,
                    "version",
                ) {
                    None => Some(String::from_str("0.1.0")),
                    Some(j) => match &ients[j].1 {
                        Json::Str(s) => Some(s.clone()),
                        _ => None,
                    },
                };
                let de: Option<Option<String>> = match crate::schema_json::json_obj_find(
                    ients,
                    "description",
                ) {
                    None => Some(None),
                    Some(j) => match &ients[j].1 {
                        Json::Str(s) => Some(Some(s.clone())),
                        _ => None,
                    },
                };
                match (ti, ve, de) {
                    (Some(t), Some(v), Some(d)) => Some(Info { title: t, version: v, description: d }),
                    _ => None,
                }
            },
            _ => None,
        },
    };
    match (ver, info) {
        (Some(v), Some(inf)) => (v, inf, None),
        _ => {
            let empty_scope: Vec<String> = Vec::new();
            let e = Error::invalid_annotation("is invalid", "openapi", &empty_scope, a.position);
            proof {
                assert(empty_scope.deep_view() =~~= Seq::<Seq<char>>::empty());
            }
            (
                String::from_str("3.0"),
                Info {
                    title: String::from_str("openapi"),
                    version: String::from_str("0.1.0"),
                    description: None,
                },
                Some(e),
            )
        },
    }
}

/// The driver's running state: paths filled so far, diagnostics collected
/// so far, the two component registries, and the canonical routes seen.
#[verifier::ext_equal]
pub struct DriveV {
    pub paths: Seq<(Seq<char>, PathItemV)>,
    pub errors: Seq<ErrorV>,
    pub defs: DefsV,
    pub params: ParamsV,
    pub routes: Seq<Seq<char>>,
}

/// What driving the endpoints does: each top-level property is transformed
/// in order; a failed endpoint adds its diagnostic and the run goes on; a
/// successful one lands in its path's method slot, path items being created
/// on first use and a repeated slot being replaced.
pub open spec fn drive_v(st: DriveV, props: Seq<Property>) -> DriveV
    decreases props.len(),
{
    if props.len() == 0 {
        st
    } else {
        let st1 = drive_v(st, props.drop_last());
        let e = endpoint_v(st1.defs, st1.params, st1.routes, props.last());
        match e.0 {
            Err(err) => DriveV {
                errors: st1.errors.push(err),
                defs: e.1,
                params: e.2,
                routes: e.3,
                paths: st1.paths,
            },
            Ok(t) => {
                let existing = match get_v(st1.paths, t.0) {
                    Some(pi) => pi,
                    None => path_item_empty_v(),
                };
                DriveV {
                    paths: insert_v(st1.paths, t.0, path_item_set_v(existing, t.1, t.2)),
                    errors: st1.errors,
                    defs: e.1,
                    params: e.2,
                    routes: e.3,
                }
            },
        }
    }
}

/// The component block of the finished specification: absent when nothing
/// was registered, else the non-empty stores.
pub open spec fn components_of_v(defs: DefsV, params: ParamsV) -> Option<ComponentsV> {
    if defs.len() == 0 && params.len() == 0 {
        None
    } else {
        Some(
            ComponentsV {
                schemas: if defs.len() > 0 {
                    Some(defs)
                } else {
                    None
                },
                parameters: if params.len() > 0 {
                    Some(params)
                } else {
                    None
                },
            },
        )
    }
}

/// What the whole run computes: a complete specification exactly when the
/// document produced no diagnostic, else every diagnostic in document
/// order. The root must be an object; its `openapi` annotation (optional)
/// seeds the metadata.
pub open spec fn parse_v(node: Node) -> Result<OpenapiV, Seq<ErrorV>> {
    let seed = openapi_seed_v(node.annotations@);
    let errors0 = match seed.2 {
        Some(e) => seq![e],
        None => Seq::<ErrorV>::empty(),
    };
    let st0 = DriveV {
        paths: Seq::empty(),
        errors: errors0,
        defs: Seq::empty(),
        params: Seq::empty(),
        routes: Seq::empty(),
    };
    let stf = match node.value {
        NodeValue::Object(props) => drive_v(st0, props@),
        _ => DriveV {
            errors: st0.errors.push(invalid_ast_v("must be object"@, Seq::empty(), node.position)),
            ..st0
        },
    };
    if stf.errors.len() == 0 {
        Ok(
            OpenapiV {
                openapi: seed.0,
                info: seed.1,
                paths: stf.paths,
                components: components_of_v(stf.defs, stf.params),
            },
        )
    } else {
        Err(stf.errors)
    }
}

/// Makes the component block present, keeping an existing one untouched:
/// the lazy accessor the assembly and adapters share.
pub fn get_components_mut(spec: &mut Openapi)
    ensures
        final(spec).components matches Some(c) && c@ == (match old(spec).components {
            Some(c0) => c0@,
            None => ComponentsV { schemas: None, parameters: None },
        }),
        final(spec).openapi == old(spec).openapi,
        final(spec).info == old(spec).info,
        final(spec).paths == old(spec).paths,
{
    if spec.components.is_none() {
        spec.components = Some(Components::new());
    }
}

/// Transforms a whole document, as [`parse_v`] describes: the finished
/// specification, or every diagnostic found, never both.
#[verifier::rlimit(100)]
pub fn parse(node: &Node) -> (r: Result<Openapi, Vec<Error>>)
    ensures
        ({
            let m = parse_v(*node);
            match r {
                Ok(spec) => m == Ok::<OpenapiV, Seq<ErrorV>>(spec@) && spec.paths.wf(),
                Err(errs) => m == Err::<OpenapiV, Seq<ErrorV>>(errs.deep_view()) && errs@.len()
                    > 0,
            }
        }),
{
    let ghost seed_m = openapi_seed_v(node.annotations@);
    let seed = parse_openapi_annotation(&node.annotations);
    let (ver, info, seed_err) = seed;
    let mut errors: Vec<Error> = Vec::new();
    match seed_err {
        Some(e) => {
            errors.push(e);
        },
        None => {},
    }
    proof {
        assert(errors.deep_view() =~~= (match seed_m.2 {
            Some(e) => seq![e],
            None => Seq::<ErrorV>::empty(),
        }));
    }
    let mut paths: Entries<PathItem> = Entries::new();
    let mut defs: Defs = Entries::new();
    let mut params: Params = Entries::new();
    let mut routes: Vec<String> = Vec::new();
    let ghost st0 = DriveV {
        paths: Seq::empty(),
        errors: errors.deep_view(),
        defs: Seq::empty(),
        params: Seq::empty(),
        routes: Seq::empty(),
    };
    let ghost mut stf = st0;
    proof {
        assert(st0.paths =~= paths@);
        assert(st0.defs =~= defs@);
        assert(st0.params =~= params@);
        assert(st0.routes =~= routes.deep_view());
    }
    match &node.value {
        NodeValue::Object(props) => {
            let mut i: usize = 0;
            proof {
                assert(props@.take(0) =~= Seq::<Property>::empty());
            }
            while i < props.len()
                invariant
                    i <= props@.len(),
                    node.value == NodeValue::Object(*props),
                    defs.wf(),
                    params.wf(),
                    paths.wf(),
                    drive_v(st0, props@.take(i as int)) == (DriveV {
                        paths: paths@,
                        errors: errors.deep_view(),
                        defs: defs@,
                        params: params@,
                        routes: routes.deep_view(),
                    }),
                decreases props@.len() - i,
            {
                proof {
                    assert(props@.take(i + 1).drop_last() =~= props@.take(i as int));
                    assert(props@.take(i + 1).last() == props@[i as int]);
                }
                let ghost st1 = drive_v(st0, props@.take(i as int));
                let ghost em = endpoint_v(st1.defs, st1.params, st1.routes, props@[i as int]);
                match parse_endpoint(&mut defs, &mut params, &mut routes, &props[i]) {
                    Err(e) => {
                        errors.push(e);
                        proof {
                            assert(errors.deep_view() =~~= st1.errors.push(em.0->Err_0));
                            assert(drive_v(st0, props@.take(i + 1)) =~~= (DriveV {
                                paths: paths@,
                                errors: errors.deep_view(),
                                defs: defs@,
                                params: params@,
                                routes: routes.deep_view(),
                            }));
                        }
                    },
                    Ok(t) => {
                        let (pathname, method, operation) = t;
                        let ghost existing = match get_v(st1.paths, pathname@) {
                            Some(pi) => pi,
                            None => path_item_empty_v(),
                        };
                        match paths.index_of(pathname.as_str()) {
                            Some(idx) => {
                                let mut pi = paths.take_at(idx, PathItem::new());
                                proof {
                                    assert(pi@ == existing);
                                }
                                method.add_operation(&mut pi, operation);
                                paths.insert(pathname, pi);
                                proof {
                                    crate::entries::lemma_index_of_key(st1.paths, em.0->Ok_0.0);
                                    crate::entries::lemma_index_of_key_same_keys(
                                        st1.paths.update(
                                            idx as int,
                                            (st1.paths[idx as int].0, path_item_empty_v()),
                                        ),
                                        st1.paths,
                                        em.0->Ok_0.0,
                                    );
                                    assert(paths@ =~~= insert_v(
                                        st1.paths,
                                        em.0->Ok_0.0,
                                        path_item_set_v(existing, method, em.0->Ok_0.2),
                                    ));
                                }
                            },
                            None => {
                                let mut pi = PathItem::new();
                                method.add_operation(&mut pi, operation);
                                paths.insert(pathname, pi);
                                proof {
                                    assert(paths@ =~~= insert_v(
                                        st1.paths,
                                        em.0->Ok_0.0,
                                        path_item_set_v(existing, method, em.0->Ok_0.2),
                                    ));
                                }
                            },
                        }
                        proof {
                            assert(drive_v(st0, props@.take(i + 1)) =~~= (DriveV {
                                paths: paths@,
                                errors: errors.deep_view(),
                                defs: defs@,
                                params: params@,
                                routes: routes.deep_view(),
                            }));
                        }
                    },
                }
                i = i + 1;
            }
            proof {
                assert(props@.take(props@.len() as int) =~= props@);
                stf = drive_v(st0, props@);
            }
        },
        _ => {
            let empty_scope: Vec<String> = Vec::new();
            let e = Error::invalid_ast("must be object", &empty_scope, node.position);
            proof {
                assert(empty_scope.deep_view() =~~= Seq::<Seq<char>>::empty());
            }
            errors.push(e);
            proof {
                stf = DriveV {
                    errors: st0.errors.push(
                        invalid_ast_v("must be object"@, Seq::empty(), node.position),
                    ),
                    ..st0
                };
            }
        },
    }
    proof {
        assert(stf.errors == errors.deep_view());
        assert(stf.paths == paths@);
        assert(stf.defs == defs@);
        assert(stf.params == params@);
        assert(stf == (match node.value {
            NodeValue::Object(props) => drive_v(st0, props@),
            _ => DriveV {
                errors: st0.errors.push(
                    invalid_ast_v("must be object"@, Seq::empty(), node.position),
                ),
                ..st0
            },
        }));
    }
    if errors.len() == 0 {
        let components: Option<Components> = if defs.len() > 0 || params.len() > 0 {
            let mut c = Components::new();
            if defs.len() > 0 {
                c.schemas = Some(defs);
            }
            if params.len() > 0 {
                c.parameters = Some(params);
            }
            Some(c)
        } else {
            None
        };
        let spec = Openapi { openapi: ver, info, paths, components };
        proof {
            assert(spec@.components =~~= components_of_v(stf.defs, stf.params));
            assert(spec@ =~~= parse_v(*node)->Ok_0);
        }
        Ok(spec)
    } else {
        Err(errors)
    }
}

} // verus!
