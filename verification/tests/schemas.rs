//! Behavioral tests for the schema inference engine and the component
//! registry, driving `parse_schema` directly.
use jsona_openapi::entries::Entries;
use jsona_openapi::schema::parse_schema;
use jsona_openapi::Annotation;
use jsona_openapi::Json;
use jsona_openapi::Node;
use jsona_openapi::NodeValue;
use jsona_openapi::ObjectOrReference;
use jsona_openapi::Position;
use jsona_openapi::Property;
use jsona_openapi::Schema;
use jsona_openapi::strings::chars_to_string;
use jsona_openapi::strings::split_chars;
use jsona_openapi::strings::str_to_chars;
use jsona_openapi::strings::trim_chars;
use jsona_openapi::strings::usize_to_string;

fn pos() -> Position {
    Position { line: 1, col: 1 }
}

fn node(value: NodeValue) -> Node {
    Node { value, annotations: Vec::new(), position: pos() }
}

fn node_with(value: NodeValue, annotations: Vec<Annotation>) -> Node {
    Node { value, annotations, position: pos() }
}

fn ann(name: &str, value: Json) -> Annotation {
    Annotation { name: name.to_string(), value, position: pos() }
}

fn prop(key: &str, value: Node) -> Property {
    Property { key: key.to_string(), position: pos(), value }
}

fn infer(node: &Node) -> Schema {
    let mut defs = Entries::new();
    parse_schema(&mut defs, node, false, &Vec::new()).unwrap()
}

fn inline(s: Schema) -> jsona_openapi::InlineSchema {
    match s {
        Schema::Inline(is) => is,
        other => panic!("expected inline schema, got {:?}", other),
    }
}

#[test]
fn test_object_inference() {
    // {"foo": 1} inferred in object context.
    let n = node(NodeValue::Object(vec![prop("foo", node(NodeValue::Int(1)))]));
    let is = inline(infer(&n));
    assert_eq!(is.schema_type.as_deref(), Some("object"));
    assert_eq!(is.required, Some(vec!["foo".to_string()]));
    let props = is.properties.as_ref().unwrap();
    assert_eq!(props.pairs().len(), 1);
    assert_eq!(props.pairs()[0].0, "foo");
    match &props.pairs()[0].1 {
        Schema::Inline(f) => {
            assert_eq!(f.schema_type.as_deref(), Some("integer"));
            assert_eq!(f.example, Some(Json::Int(1)));
            assert_eq!(f.format.as_deref(), Some("int64"));
        },
        other => panic!("expected inline schema, got {:?}", other),
    }
}

#[test]
fn test_example_round_trip_bool() {
    let is = inline(infer(&node(NodeValue::Bool(true))));
    assert_eq!(is.schema_type.as_deref(), Some("boolean"));
    assert_eq!(is.example, Some(Json::Bool(true)));
}

#[test]
fn test_example_round_trip_int() {
    let is = inline(infer(&node(NodeValue::Int(-7))));
    assert_eq!(is.schema_type.as_deref(), Some("integer"));
    assert_eq!(is.example, Some(Json::Int(-7)));
    assert_eq!(is.format.as_deref(), Some("int64"));
}

#[test]
fn test_example_round_trip_float() {
    let is = inline(infer(&node(NodeValue::Float("2.5".to_string()))));
    assert_eq!(is.schema_type.as_deref(), Some("number"));
    assert_eq!(is.example, Some(Json::Float("2.5".to_string())));
}

#[test]
fn test_example_round_trip_string() {
    let is = inline(infer(&node(NodeValue::Str("hi".to_string()))));
    assert_eq!(is.schema_type.as_deref(), Some("string"));
    assert_eq!(is.example, Some(Json::Str("hi".to_string())));
}

#[test]
fn test_null_is_rejected() {
    let mut defs = Entries::new();
    let e = parse_schema(&mut defs, &node(NodeValue::Null), false, &Vec::new()).unwrap_err();
    match e {
        jsona_openapi::Error::InvalidAst { info, .. } => {
            assert_eq!(info, "value() can not be null");
        },
        other => panic!("expected a value diagnostic, got {:?}", other),
    }
}

#[test]
fn test_empty_array() {
    let is = inline(infer(&node(NodeValue::Array(vec![]))));
    assert_eq!(is.schema_type.as_deref(), Some("array"));
    assert!(is.items.is_none());
}

#[test]
fn test_array_items_from_first_element() {
    let n = node(NodeValue::Array(vec![node(NodeValue::Int(1)), node(NodeValue::Bool(true))]));
    let is = inline(infer(&n));
    // A non-empty array only records its first element's shape.
    assert!(is.schema_type.is_none());
    match is.items.as_deref().unwrap() {
        Schema::Inline(item) => {
            assert_eq!(item.schema_type.as_deref(), Some("integer"));
        },
        other => panic!("expected inline items, got {:?}", other),
    }
}

#[test]
fn test_combinator_any_of() {
    let n = node_with(
        NodeValue::Array(vec![node(NodeValue::Int(1)), node(NodeValue::Str("x".to_string()))]),
        vec![ann("schemaCombine", Json::Str("anyOf".to_string()))],
    );
    let is = inline(infer(&n));
    let list = is.any_of.as_ref().unwrap();
    assert_eq!(list.len(), 2);
    assert!(is.items.is_none());
    match &list[0] {
        Schema::Inline(a) => assert_eq!(a.schema_type.as_deref(), Some("integer")),
        other => panic!("expected inline schema, got {:?}", other),
    }
    match &list[1] {
        Schema::Inline(b) => assert_eq!(b.schema_type.as_deref(), Some("string")),
        other => panic!("expected inline schema, got {:?}", other),
    }
}

#[test]
fn test_combinator_rejects_unknown_name() {
    let n = node_with(
        NodeValue::Array(vec![]),
        vec![ann("schemaCombine", Json::Str("noneOf".to_string()))],
    );
    let mut defs = Entries::new();
    let e = parse_schema(&mut defs, &n, false, &Vec::new()).unwrap_err();
    match e {
        jsona_openapi::Error::InvalidAnnotation { info, .. } => {
            assert_eq!(info, "annotation(@schemaCombine) ");
        },
        other => panic!("expected an annotation diagnostic, got {:?}", other),
    }
}

#[test]
fn test_schema_override_set_once() {
    // The explicit type wins over the literal's; everything else still fires.
    let n = node_with(
        NodeValue::Int(5),
        vec![ann(
            "schema",
            Json::Obj(vec![("type".to_string(), Json::Str("string".to_string()))]),
        )],
    );
    let is = inline(infer(&n));
    assert_eq!(is.schema_type.as_deref(), Some("string"));
    assert_eq!(is.example, Some(Json::Int(5)));
    assert_eq!(is.format.as_deref(), Some("int64"));
}

#[test]
fn test_schema_override_must_be_object() {
    let n = node_with(NodeValue::Int(5), vec![ann("schema", Json::Str("int".to_string()))]);
    let mut defs = Entries::new();
    let e = parse_schema(&mut defs, &n, false, &Vec::new()).unwrap_err();
    match e {
        jsona_openapi::Error::InvalidAnnotation { info, .. } => {
            assert_eq!(info, "annotation(@schema) must be object");
        },
        other => panic!("expected an annotation diagnostic, got {:?}", other),
    }
}

#[test]
fn test_schema_override_bad_field_shape() {
    let n = node_with(
        NodeValue::Int(5),
        vec![ann("schema", Json::Obj(vec![("type".to_string(), Json::Int(3))]))],
    );
    let mut defs = Entries::new();
    let e = parse_schema(&mut defs, &n, false, &Vec::new()).unwrap_err();
    match e {
        jsona_openapi::Error::InvalidAnnotation { info, .. } => {
            assert_eq!(info, "annotation(@schema) is invalid");
        },
        other => panic!("expected an annotation diagnostic, got {:?}", other),
    }
}

#[test]
fn test_describe_applies_to_schema() {
    let n = node_with(
        NodeValue::Str("v".to_string()),
        vec![ann("describe", Json::Str("a value".to_string()))],
    );
    let is = inline(infer(&n));
    assert_eq!(is.description.as_deref(), Some("a value"));
}

#[test]
fn test_describe_must_be_string() {
    let n = node_with(NodeValue::Str("v".to_string()), vec![ann("describe", Json::Int(1))]);
    let mut defs = Entries::new();
    let e = parse_schema(&mut defs, &n, false, &Vec::new()).unwrap_err();
    match e {
        jsona_openapi::Error::InvalidAnnotation { info, .. } => {
            assert_eq!(info, "annotation(@describe) must be string");
        },
        other => panic!("expected an annotation diagnostic, got {:?}", other),
    }
}

#[test]
fn test_use_short_circuits() {
    let n = node_with(
        NodeValue::Str("ignored".to_string()),
        vec![ann("use", Json::Str("Pet".to_string()))],
    );
    let mut defs = Entries::new();
    let s = parse_schema(&mut defs, &n, false, &Vec::new()).unwrap();
    assert_eq!(s, Schema::Reference { ref_path: "#/components/schemas/Pet".to_string() });
    assert_eq!(defs.pairs().len(), 0);
}

#[test]
fn test_use_suppressed_in_parameter_context() {
    let n = node_with(
        NodeValue::Str("expanded".to_string()),
        vec![ann("use", Json::Str("Pet".to_string()))],
    );
    let mut defs = Entries::new();
    let s = parse_schema(&mut defs, &n, true, &Vec::new()).unwrap();
    match s {
        Schema::Inline(is) => assert_eq!(is.schema_type.as_deref(), Some("string")),
        other => panic!("expected inline schema, got {:?}", other),
    }
}

#[test]
fn test_save_registers_and_returns_reference() {
    let n = node_with(
        NodeValue::Str("x".to_string()),
        vec![ann("save", Json::Str("Name".to_string()))],
    );
    let mut defs = Entries::new();
    let s = parse_schema(&mut defs, &n, false, &Vec::new()).unwrap();
    assert_eq!(s, Schema::Reference { ref_path: "#/components/schemas/Name".to_string() });
    assert_eq!(defs.pairs().len(), 1);
    assert_eq!(defs.pairs()[0].0, "Name");
    match &defs.pairs()[0].1 {
        ObjectOrReference::Object(Schema::Inline(is)) => {
            assert_eq!(is.schema_type.as_deref(), Some("string"));
        },
        other => panic!("expected the saved inline schema, got {:?}", other),
    }
}

#[test]
fn test_save_idempotent_same_name() {
    // Registering twice under one name: one entry, identical pointers.
    let mk = |lit: i64| {
        node_with(NodeValue::Int(lit), vec![ann("save", Json::Str("Pet".to_string()))])
    };
    let mut defs = Entries::new();
    let s1 = parse_schema(&mut defs, &mk(1), false, &Vec::new()).unwrap();
    let s2 = parse_schema(&mut defs, &mk(2), false, &Vec::new()).unwrap();
    assert_eq!(s1, s2);
    assert_eq!(defs.pairs().len(), 1);
    assert_eq!(defs.pairs()[0].0, "Pet");
    // Last write wins.
    match &defs.pairs()[0].1 {
        ObjectOrReference::Object(Schema::Inline(is)) => {
            assert_eq!(is.example, Some(Json::Int(2)));
        },
        other => panic!("expected the saved inline schema, got {:?}", other),
    }
}

#[test]
fn test_optional_marks_property_not_required() {
    let optional_value = node_with(NodeValue::Int(1), vec![ann("optional", Json::Null)]);
    let n = node(NodeValue::Object(vec![
        prop("must", node(NodeValue::Bool(false))),
        prop("may", optional_value),
    ]));
    let is = inline(infer(&n));
    assert_eq!(is.required, Some(vec!["must".to_string()]));
    assert_eq!(is.properties.as_ref().unwrap().pairs().len(), 2);
}

#[test]
fn test_all_optional_leaves_required_absent() {
    let optional_value = node_with(NodeValue::Int(1), vec![ann("optional", Json::Null)]);
    let n = node(NodeValue::Object(vec![prop("may", optional_value)]));
    let is = inline(infer(&n));
    assert_eq!(is.required, None);
    assert!(is.properties.is_some());
}

#[test]
fn test_entries_insert_replaces_in_place() {
    let mut e: Entries<Json> = Entries::new();
    e.insert("a".to_string(), Json::Int(1));
    e.insert("b".to_string(), Json::Int(2));
    e.insert("a".to_string(), Json::Int(3));
    assert_eq!(e.pairs().len(), 2);
    assert_eq!(e.pairs()[0].0, "a");
    assert_eq!(e.pairs()[0].1, Json::Int(3));
    assert_eq!(e.pairs()[1].0, "b");
}

#[test]
fn test_combinator_element_error_carries_index_scope() {
    let n = node_with(
        NodeValue::Array(vec![node(NodeValue::Int(1)), node(NodeValue::Null)]),
        vec![ann("schemaCombine", Json::Str("oneOf".to_string()))],
    );
    let mut defs = Entries::new();
    let e = parse_schema(&mut defs, &n, false, &Vec::new()).unwrap_err();
    match e {
        jsona_openapi::Error::InvalidAst { info, scope, .. } => {
            assert_eq!(info, "value(1) can not be null");
            assert_eq!(scope, vec!["1".to_string()]);
        },
        other => panic!("expected a value diagnostic, got {:?}", other),
    }
}

#[test]
fn test_float_kept_as_text() {
    let is = inline(infer(&node(NodeValue::Float("3.14159".to_string()))));
    assert_eq!(is.example, Some(Json::Float("3.14159".to_string())));
}

#[test]
fn test_nested_save_inside_object() {
    // A property saved by name while the surrounding object is inferred.
    let inner = node_with(
        NodeValue::Str("x".to_string()),
        vec![ann("save", Json::Str("Inner".to_string()))],
    );
    let n = node(NodeValue::Object(vec![prop("field", inner)]));
    let mut defs = Entries::new();
    let s = parse_schema(&mut defs, &n, false, &Vec::new()).unwrap();
    assert_eq!(defs.pairs().len(), 1);
    assert_eq!(defs.pairs()[0].0, "Inner");
    let is = inline(s);
    assert_eq!(
        is.properties.as_ref().unwrap().pairs()[0].1,
        Schema::Reference { ref_path: "#/components/schemas/Inner".to_string() }
    );
}

#[test]
fn test_schema_override_fixes_items() {
    // The override's items win over the first element's shape.
    let n = node_with(
        NodeValue::Array(vec![node(NodeValue::Int(1))]),
        vec![ann(
            "schema",
            Json::Obj(vec![(
                "items".to_string(),
                Json::Obj(vec![("type".to_string(), Json::Str("string".to_string()))]),
            )]),
        )],
    );
    let is = inline(infer(&n));
    match is.items.as_deref().unwrap() {
        Schema::Inline(item) => assert_eq!(item.schema_type.as_deref(), Some("string")),
        other => panic!("expected inline items, got {:?}", other),
    }
}

#[test]
fn test_schema_override_ref_key_makes_reference_seed_invalid() {
    // A `$ref` literal cannot seed an inline override.
    let n = node_with(
        NodeValue::Int(5),
        vec![ann(
            "schema",
            Json::Obj(vec![("$ref".to_string(), Json::Str("#/x".to_string()))]),
        )],
    );
    let mut defs = Entries::new();
    let e = parse_schema(&mut defs, &n, false, &Vec::new()).unwrap_err();
    match e {
        jsona_openapi::Error::InvalidAnnotation { info, .. } => {
            assert_eq!(info, "annotation(@schema) is invalid");
        },
        other => panic!("expected an annotation diagnostic, got {:?}", other),
    }
}

#[test]
fn test_string_utilities() {
    assert_eq!(usize_to_string(0), "0");
    assert_eq!(usize_to_string(407), "407");
    let chars = str_to_chars("  a/b//c  ");
    let trimmed = trim_chars(&chars);
    assert_eq!(chars_to_string(&trimmed), "a/b//c");
    let parts = split_chars(&trimmed, '/');
    let rendered: Vec<String> = parts.iter().map(chars_to_string).collect();
    assert_eq!(rendered, vec!["a", "b", "", "c"]);
}
