//! Behavioral tests for the document-to-specification engine, driving it
//! with hand-built document trees.
use jsona_openapi::parse;
use jsona_openapi::Annotation;
use jsona_openapi::ComponentKind;
use jsona_openapi::Error;
use jsona_openapi::Json;
use jsona_openapi::Node;
use jsona_openapi::NodeValue;
use jsona_openapi::ObjectOrReference;
use jsona_openapi::Position;
use jsona_openapi::Property;
use jsona_openapi::MethodKind;
use jsona_openapi::Schema;

fn pos() -> Position {
    Position { line: 1, col: 1 }
}

fn node(value: NodeValue) -> Node {
    Node { value, annotations: Vec::new(), position: pos() }
}

fn node_with(value: NodeValue, annotations: Vec<Annotation>) -> Node {
    Node { value, annotations, position: pos() }
}

fn ann(name: &str, value: Json) -> Annotation {
    Annotation { name: name.to_string(), value, position: pos() }
}

fn prop(key: &str, value: Node) -> Property {
    Property { key: key.to_string(), position: pos(), value }
}

fn obj(props: Vec<Property>) -> NodeValue {
    NodeValue::Object(props)
}

fn string_node(s: &str) -> Node {
    node(NodeValue::Str(s.to_string()))
}

fn empty_obj_node() -> Node {
    node(obj(vec![]))
}

fn err_info(e: &Error) -> &str {
    match e {
        Error::InvalidAnnotation { info, .. } => info.as_str(),
        Error::InvalidAst { info, .. } => info.as_str(),
    }
}

#[test]
fn test_empty_document_defaults() {
    let root = node(obj(vec![]));
    let spec = parse(&root).unwrap();
    assert_eq!(spec.openapi, "3.0");
    assert_eq!(spec.info.title, "openapi");
    assert_eq!(spec.info.version, "0.1.0");
    assert_eq!(spec.info.description, None);
    assert_eq!(spec.paths.pairs().len(), 0);
    assert!(spec.components.is_none());
}

#[test]
fn test_openapi_annotation_seeds_metadata() {
    let meta = Json::Obj(vec![
        ("openapi".to_string(), Json::Str("3.0.3".to_string())),
        (
            "info".to_string(),
            Json::Obj(vec![
                ("title".to_string(), Json::Str("Pet Store".to_string())),
                ("version".to_string(), Json::Str("2.0".to_string())),
            ]),
        ),
    ]);
    let root = node_with(obj(vec![]), vec![ann("openapi", meta)]);
    let spec = parse(&root).unwrap();
    assert_eq!(spec.openapi, "3.0.3");
    assert_eq!(spec.info.title, "Pet Store");
    assert_eq!(spec.info.version, "2.0");
}

#[test]
fn test_openapi_annotation_must_be_object() {
    let root = node_with(obj(vec![]), vec![ann("openapi", Json::Str("x".to_string()))]);
    let errs = parse(&root).unwrap_err();
    assert_eq!(errs.len(), 1);
    assert_eq!(err_info(&errs[0]), "annotation(@openapi) must be object");
}

#[test]
fn test_root_must_be_object() {
    let root = node(NodeValue::Str("nope".to_string()));
    let errs = parse(&root).unwrap_err();
    assert_eq!(errs.len(), 1);
    assert_eq!(err_info(&errs[0]), "value() must be object");
}

#[test]
fn test_basic_endpoint() {
    // One endpoint: GET /users/{} with a declared path parameter `id`.
    let endpoint = node_with(
        obj(vec![
            prop("route", string_node("GET /users/{}")),
            prop(
                "req",
                node(obj(vec![prop("params", node(obj(vec![prop("id", empty_obj_node())])))])),
            ),
        ]),
        vec![ann("endpoint", Json::Obj(vec![]))],
    );
    let root = node(obj(vec![prop("getUser", endpoint)]));
    let spec = parse(&root).unwrap();
    assert_eq!(spec.paths.pairs().len(), 1);
    let (pathname, item) = &spec.paths.pairs()[0];
    assert_eq!(pathname, "/users/{id}");
    let op = item.get.as_ref().expect("get operation");
    assert_eq!(op.operation_id.as_deref(), Some("getUser"));
    let params = op.parameters.as_ref().expect("parameters");
    assert_eq!(params.len(), 1);
    match &params[0] {
        ObjectOrReference::Object(p) => {
            assert_eq!(p.name, "id");
            assert_eq!(p.location, "path");
            assert_eq!(p.required, Some(true));
            match p.schema.as_ref().expect("schema") {
                Schema::Inline(is) => {
                    assert_eq!(is.schema_type.as_deref(), Some("object"));
                },
                other => panic!("expected inline schema, got {:?}", other),
            }
        },
        other => panic!("expected inline parameter, got {:?}", other),
    }
    // The default response is a single empty-description 200.
    assert_eq!(op.responses.pairs().len(), 1);
    assert_eq!(op.responses.pairs()[0].0, "200");
    assert_eq!(op.responses.pairs()[0].1.description, "");
    assert!(op.responses.pairs()[0].1.content.is_none());
}

#[test]
fn test_route_conflict_case_insensitive() {
    let a = node(obj(vec![prop("route", string_node("get /x"))]));
    let b = node(obj(vec![prop("route", string_node("GET /x"))]));
    let root = node(obj(vec![prop("a", a), prop("b", b)]));
    let errs = parse(&root).unwrap_err();
    assert_eq!(errs.len(), 1);
    assert_eq!(err_info(&errs[0]), "value(b.route) is conflict");
}

#[test]
fn test_route_conflict_same_method_and_path() {
    let a = node(obj(vec![prop("route", string_node("POST /pets"))]));
    let b = node(obj(vec![prop("route", string_node("POST /pets"))]));
    let root = node(obj(vec![prop("first", a), prop("second", b)]));
    let errs = parse(&root).unwrap_err();
    assert_eq!(errs.len(), 1);
    assert_eq!(err_info(&errs[0]), "value(second.route) is conflict");
}

#[test]
fn test_distinct_routes_do_not_conflict() {
    let a = node(obj(vec![prop("route", string_node("GET /x"))]));
    let b = node(obj(vec![prop("route", string_node("POST /x"))]));
    let root = node(obj(vec![prop("a", a), prop("b", b)]));
    let spec = parse(&root).unwrap();
    assert_eq!(spec.paths.pairs().len(), 1);
    let item = &spec.paths.pairs()[0].1;
    assert!(item.get.is_some());
    assert!(item.post.is_some());
}

#[test]
fn test_params_count_mismatch() {
    // One placeholder, zero declared parameters.
    let endpoint = node(obj(vec![
        prop("route", string_node("GET /users/{}")),
        prop("req", node(obj(vec![prop("params", empty_obj_node())]))),
    ]));
    let root = node(obj(vec![prop("a", endpoint)]));
    let errs = parse(&root).unwrap_err();
    assert_eq!(errs.len(), 1);
    assert_eq!(err_info(&errs[0]), "value(a.req.params) does not match route");
}

#[test]
fn test_placeholders_require_params() {
    let endpoint = node(obj(vec![prop("route", string_node("GET /users/{}"))]));
    let root = node(obj(vec![prop("a", endpoint)]));
    let errs = parse(&root).unwrap_err();
    assert_eq!(errs.len(), 1);
    assert_eq!(err_info(&errs[0]), "value(a.req) req.params is required");
}

#[test]
fn test_route_is_required() {
    let root = node(obj(vec![prop("a", empty_obj_node())]));
    let errs = parse(&root).unwrap_err();
    assert_eq!(errs.len(), 1);
    assert_eq!(err_info(&errs[0]), "value(a.route) miss");
}

#[test]
fn test_route_must_be_two_tokens() {
    let endpoint = node(obj(vec![prop("route", string_node("GET"))]));
    let root = node(obj(vec![prop("a", endpoint)]));
    let errs = parse(&root).unwrap_err();
    assert_eq!(err_info(&errs[0]), "value(a.route) is invalid");
}

#[test]
fn test_route_unknown_method() {
    let endpoint = node(obj(vec![prop("route", string_node("FETCH /x"))]));
    let root = node(obj(vec![prop("a", endpoint)]));
    let errs = parse(&root).unwrap_err();
    assert_eq!(err_info(&errs[0]), "value(a.route) is invalid");
}

#[test]
fn test_endpoint_must_be_object() {
    let root = node(obj(vec![prop("a", string_node("nope"))]));
    let errs = parse(&root).unwrap_err();
    assert_eq!(err_info(&errs[0]), "value(a) must be object");
}

#[test]
fn test_errors_accumulate_across_endpoints() {
    // Two endpoints, each broken in its own way: both diagnostics arrive.
    let a = node(obj(vec![prop("route", string_node("NOPE /x"))]));
    let b = string_node("not an endpoint");
    let root = node(obj(vec![prop("a", a), prop("b", b)]));
    let errs = parse(&root).unwrap_err();
    assert_eq!(errs.len(), 2);
    assert_eq!(err_info(&errs[0]), "value(a.route) is invalid");
    assert_eq!(err_info(&errs[1]), "value(b) must be object");
}

fn endpoint_with_res(key: &str, res_value: Node) -> Node {
    node(obj(vec![
        prop("route", string_node("GET /r")),
        prop("res", node(obj(vec![prop(key, res_value)]))),
    ]))
}

#[test]
fn test_status_key_not_numeric() {
    let root = node(obj(vec![prop("a", endpoint_with_res("abc", string_node("ok")))]));
    let errs = parse(&root).unwrap_err();
    assert_eq!(errs.len(), 1);
    assert_eq!(err_info(&errs[0]), "value(a.res.abc) should be status code");
}

#[test]
fn test_status_key_too_large() {
    let root = node(obj(vec![prop("a", endpoint_with_res("600", string_node("ok")))]));
    let errs = parse(&root).unwrap_err();
    assert_eq!(err_info(&errs[0]), "value(a.res.600) must be integer in [100, 600)");
}

#[test]
fn test_status_key_too_small() {
    let root = node(obj(vec![prop("a", endpoint_with_res("99", string_node("ok")))]));
    let errs = parse(&root).unwrap_err();
    assert_eq!(err_info(&errs[0]), "value(a.res.99) must be integer in [100, 600)");
}

#[test]
fn test_response_body_and_description() {
    let res_value = node_with(
        NodeValue::Str("ok".to_string()),
        vec![ann("describe", Json::Str("all good".to_string()))],
    );
    let root = node(obj(vec![prop("a", endpoint_with_res("200", res_value))]));
    let spec = parse(&root).unwrap();
    let op = spec.paths.pairs()[0].1.get.as_ref().unwrap();
    let (status, resp) = &op.responses.pairs()[0];
    assert_eq!(status, "200");
    assert_eq!(resp.description, "all good");
    let content = resp.content.as_ref().unwrap();
    assert_eq!(content.pairs().len(), 1);
    assert_eq!(content.pairs()[0].0, "application/json");
    match content.pairs()[0].1.schema.as_ref().unwrap() {
        Schema::Inline(is) => {
            assert_eq!(is.schema_type.as_deref(), Some("string"));
            assert_eq!(is.example, Some(Json::Str("ok".to_string())));
        },
        other => panic!("expected inline schema, got {:?}", other),
    }
}

#[test]
fn test_with_header_response() {
    let res_value = node_with(
        obj(vec![
            prop("headers", node(obj(vec![prop("x-rate", node(NodeValue::Int(10)))]))),
            prop("body", string_node("payload")),
        ]),
        vec![ann("withHeader", Json::Null)],
    );
    let root = node(obj(vec![prop("a", endpoint_with_res("200", res_value))]));
    let spec = parse(&root).unwrap();
    let op = spec.paths.pairs()[0].1.get.as_ref().unwrap();
    let resp = &op.responses.pairs()[0].1;
    let headers = resp.headers.as_ref().unwrap();
    assert_eq!(headers.pairs().len(), 1);
    assert_eq!(headers.pairs()[0].0, "x-rate");
    match &headers.pairs()[0].1 {
        ObjectOrReference::Object(h) => {
            assert_eq!(h.required, Some(true));
            match h.schema.as_ref().unwrap() {
                Schema::Inline(is) => {
                    assert_eq!(is.schema_type.as_deref(), Some("integer"));
                },
                other => panic!("expected inline schema, got {:?}", other),
            }
        },
        other => panic!("expected inline header, got {:?}", other),
    }
    let content = resp.content.as_ref().unwrap();
    assert_eq!(content.pairs()[0].0, "application/json");
}

#[test]
fn test_request_body_and_content_type() {
    let body = node_with(
        NodeValue::Str("hello".to_string()),
        vec![ann("contentType", Json::Str("text/plain".to_string()))],
    );
    let endpoint = node(obj(vec![
        prop("route", string_node("POST /echo")),
        prop("req", node(obj(vec![prop("body", body)]))),
    ]));
    let root = node(obj(vec![prop("echo", endpoint)]));
    let spec = parse(&root).unwrap();
    let op = spec.paths.pairs()[0].1.post.as_ref().unwrap();
    match op.request_body.as_ref().unwrap() {
        ObjectOrReference::Object(rb) => {
            assert_eq!(rb.required, Some(true));
            assert_eq!(rb.content.pairs().len(), 1);
            assert_eq!(rb.content.pairs()[0].0, "text/plain");
        },
        other => panic!("expected inline request body, got {:?}", other),
    }
}

#[test]
fn test_query_and_header_groups() {
    let q = node_with(NodeValue::Str("term".to_string()), vec![ann("optional", Json::Null)]);
    let endpoint = node(obj(vec![
        prop("route", string_node("GET /search")),
        prop(
            "req",
            node(obj(vec![
                prop("query", node(obj(vec![prop("q", q)]))),
                prop("header", node(obj(vec![prop("x-token", empty_obj_node())]))),
            ])),
        ),
    ]));
    let root = node(obj(vec![prop("search", endpoint)]));
    let spec = parse(&root).unwrap();
    let op = spec.paths.pairs()[0].1.get.as_ref().unwrap();
    let params = op.parameters.as_ref().unwrap();
    assert_eq!(params.len(), 2);
    match &params[0] {
        ObjectOrReference::Object(p) => {
            assert_eq!(p.name, "q");
            assert_eq!(p.location, "query");
            assert_eq!(p.required, Some(false));
        },
        other => panic!("expected inline parameter, got {:?}", other),
    }
    match &params[1] {
        ObjectOrReference::Object(p) => {
            assert_eq!(p.name, "x-token");
            assert_eq!(p.location, "header");
            assert_eq!(p.required, Some(true));
        },
        other => panic!("expected inline parameter, got {:?}", other),
    }
}

#[test]
fn test_method_slots() {
    let mk = |route: &str| node(obj(vec![prop("route", string_node(route))]));
    let root = node(obj(vec![
        prop("c", mk("POST /a")),
        prop("u", mk("PUT /a")),
        prop("d", mk("DELETE /a")),
        prop("p", mk("PATCH /a")),
    ]));
    let spec = parse(&root).unwrap();
    assert_eq!(spec.paths.pairs().len(), 1);
    let item = &spec.paths.pairs()[0].1;
    assert!(item.get.is_none());
    assert!(item.post.is_some());
    assert!(item.put.is_some());
    assert!(item.delete.is_some());
    assert!(item.patch.is_some());
}

#[test]
fn test_endpoint_metadata() {
    let meta = Json::Obj(vec![
        ("summary".to_string(), Json::Str("List pets".to_string())),
        (
            "tags".to_string(),
            Json::Arr(vec![Json::Str("pets".to_string()), Json::Str("list".to_string())]),
        ),
    ]);
    let endpoint = node_with(
        obj(vec![prop("route", string_node("GET /pets"))]),
        vec![ann("endpoint", meta)],
    );
    let root = node(obj(vec![prop("listPets", endpoint)]));
    let spec = parse(&root).unwrap();
    let op = spec.paths.pairs()[0].1.get.as_ref().unwrap();
    assert_eq!(op.summary.as_deref(), Some("List pets"));
    assert_eq!(op.tags, Some(vec!["pets".to_string(), "list".to_string()]));
}

#[test]
fn test_endpoint_metadata_wrong_shape() {
    let meta = Json::Obj(vec![("summary".to_string(), Json::Int(5))]);
    let endpoint = node_with(
        obj(vec![prop("route", string_node("GET /pets"))]),
        vec![ann("endpoint", meta)],
    );
    let root = node(obj(vec![prop("a", endpoint)]));
    let errs = parse(&root).unwrap_err();
    assert_eq!(err_info(&errs[0]), "annotation(a@endpoint) is invalid");
}

#[test]
fn test_compute_ref() {
    assert_eq!(ComponentKind::Schema.compute_ref("Pet"), "#/components/schemas/Pet");
    assert_eq!(ComponentKind::Parameter.compute_ref("P"), "#/components/parameters/P");
}

#[test]
fn test_get_components_mut_lazy() {
    let root = node(obj(vec![]));
    let mut spec = parse(&root).unwrap();
    assert!(spec.components.is_none());
    jsona_openapi::get_components_mut(&mut spec);
    let c = spec.components.as_ref().unwrap();
    assert!(c.schemas.is_none());
    assert!(c.parameters.is_none());
}

#[test]
fn test_method_from_str_case_insensitive() {
    assert_eq!(MethodKind::from_str("GeT"), Some(MethodKind::Get));
    assert_eq!(MethodKind::from_str(" delete "), Some(MethodKind::Delete));
    assert_eq!(MethodKind::from_str("fetch"), None);
    assert_eq!(MethodKind::from_str(""), None);
}

#[test]
fn test_parameter_save_registers_component() {
    let q = node_with(
        NodeValue::Str("term".to_string()),
        vec![ann("save", Json::Str("Q".to_string()))],
    );
    let endpoint = node(obj(vec![
        prop("route", string_node("GET /s")),
        prop("req", node(obj(vec![prop("query", node(obj(vec![prop("q", q)])))]))),
    ]));
    let root = node(obj(vec![prop("s", endpoint)]));
    let spec = parse(&root).unwrap();
    let op = spec.paths.pairs()[0].1.get.as_ref().unwrap();
    let params = op.parameters.as_ref().unwrap();
    assert_eq!(
        params[0],
        ObjectOrReference::Ref { ref_path: "#/components/parameters/Q".to_string() }
    );
    let comps = spec.components.as_ref().unwrap();
    let saved = comps.parameters.as_ref().unwrap();
    assert_eq!(saved.pairs().len(), 1);
    assert_eq!(saved.pairs()[0].0, "Q");
    match &saved.pairs()[0].1 {
        ObjectOrReference::Object(p) => {
            assert_eq!(p.name, "q");
            assert_eq!(p.location, "query");
        },
        other => panic!("expected the saved parameter, got {:?}", other),
    }
}

#[test]
fn test_parameter_use_reference() {
    let q = node_with(
        NodeValue::Str("ignored".to_string()),
        vec![ann("use", Json::Str("Q".to_string()))],
    );
    let endpoint = node(obj(vec![
        prop("route", string_node("GET /s")),
        prop("req", node(obj(vec![prop("query", node(obj(vec![prop("q", q)])))]))),
    ]));
    let root = node(obj(vec![prop("s", endpoint)]));
    let spec = parse(&root).unwrap();
    let op = spec.paths.pairs()[0].1.get.as_ref().unwrap();
    let params = op.parameters.as_ref().unwrap();
    assert_eq!(
        params[0],
        ObjectOrReference::Ref { ref_path: "#/components/parameters/Q".to_string() }
    );
    assert!(spec.components.is_none());
}

#[test]
fn test_parameter_example_capture() {
    let q = node_with(NodeValue::Int(42), vec![ann("example", Json::Null)]);
    let endpoint = node(obj(vec![
        prop("route", string_node("GET /s")),
        prop("req", node(obj(vec![prop("query", node(obj(vec![prop("q", q)])))]))),
    ]));
    let root = node(obj(vec![prop("s", endpoint)]));
    let spec = parse(&root).unwrap();
    let op = spec.paths.pairs()[0].1.get.as_ref().unwrap();
    match &op.parameters.as_ref().unwrap()[0] {
        ObjectOrReference::Object(p) => {
            assert_eq!(p.example, Some(Json::Int(42)));
        },
        other => panic!("expected inline parameter, got {:?}", other),
    }
}

#[test]
fn test_saved_schema_lands_in_components() {
    let body = node_with(
        NodeValue::Str("x".to_string()),
        vec![ann("save", Json::Str("Body".to_string()))],
    );
    let endpoint = node(obj(vec![
        prop("route", string_node("POST /b")),
        prop("req", node(obj(vec![prop("body", body)]))),
    ]));
    let root = node(obj(vec![prop("b", endpoint)]));
    let spec = parse(&root).unwrap();
    let comps = spec.components.as_ref().unwrap();
    let schemas = comps.schemas.as_ref().unwrap();
    assert_eq!(schemas.pairs().len(), 1);
    assert_eq!(schemas.pairs()[0].0, "Body");
    assert!(comps.parameters.is_none());
}

#[test]
fn test_multi_placeholder_substitution() {
    let params_obj = node(obj(vec![
        prop("owner", empty_obj_node()),
        prop("repo", empty_obj_node()),
    ]));
    let endpoint = node(obj(vec![
        prop("route", string_node("GET /repos/{}/{}/issues")),
        prop("req", node(obj(vec![prop("params", params_obj)]))),
    ]));
    let root = node(obj(vec![prop("issues", endpoint)]));
    let spec = parse(&root).unwrap();
    assert_eq!(spec.paths.pairs()[0].0, "/repos/{owner}/{repo}/issues");
}
