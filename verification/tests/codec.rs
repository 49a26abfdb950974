use oas::codec::Codec;
use oas::document::{Components, OpenAPIV3};
use oas::err::DecodeError;
use oas::info::{Contact, Info, License};
use oas::meta::{ParameterIn, Server, ServerVariable, Tag};
use oas::params::{Parameter, Response};
use oas::paths::{Operation, PathItem, Responses};
use oas::refs::{Reference, Referenceable};
use oas::schema::Schema;
use oas::security::{SecurityScheme, SecurityType};
use oas::smap::SortedMap;
use oas::value::Value;

fn s(x: &str) -> Value {
    Value::Str(String::from(x))
}

fn obj(entries: Vec<(&str, Value)>) -> Value {
    Value::Obj(entries.into_iter().map(|(k, v)| (String::from(k), v)).collect())
}

fn keys(v: &Value) -> Vec<String> {
    match v {
        Value::Obj(entries) => entries.iter().map(|(k, _)| k.clone()).collect(),
        _ => panic!("not an object"),
    }
}

fn get<'a>(v: &'a Value, k: &str) -> &'a Value {
    match v {
        Value::Obj(entries) => &entries.iter().find(|(key, _)| key == k).unwrap().1,
        _ => panic!("not an object"),
    }
}

fn value_eq(a: &Value, b: &Value) -> bool {
    match (a, b) {
        (Value::Null, Value::Null) => true,
        (Value::Bool(x), Value::Bool(y)) => x == y,
        (Value::Int(x), Value::Int(y)) => x == y,
        (Value::Str(x), Value::Str(y)) => x == y,
        (Value::Arr(x), Value::Arr(y)) => {
            x.len() == y.len() && x.iter().zip(y.iter()).all(|(p, q)| value_eq(p, q))
        }
        (Value::Obj(x), Value::Obj(y)) => {
            x.len() == y.len()
                && x.iter()
                    .zip(y.iter())
                    .all(|(p, q)| p.0 == q.0 && value_eq(&p.1, &q.1))
        }
        _ => false,
    }
}

#[test]
fn metadata_scenario_decodes_and_reencodes_exactly() {
    let input = obj(vec![("title", s("T")), ("version", s("1.0"))]);
    let info = Info::decode(&input).unwrap();
    assert_eq!(info.title, "T");
    assert_eq!(info.version, "1.0");
    assert!(info.description.is_none());
    let out = info.encode();
    assert_eq!(keys(&out), vec!["title".to_string(), "version".to_string()]);
    assert!(value_eq(&out, &input));
}

#[test]
fn metadata_missing_required_field_is_reported() {
    let input = obj(vec![("title", s("T"))]);
    let err = Info::decode(&input).unwrap_err();
    assert!(matches!(err, DecodeError::MissingRequiredField { .. }));
}

#[test]
fn metadata_type_mismatch_is_reported() {
    let input = obj(vec![("title", Value::Int(3)), ("version", s("1.0"))]);
    let err = Info::decode(&input).unwrap_err();
    assert!(matches!(err, DecodeError::TypeMismatch { .. }));
}

#[test]
fn optional_field_never_set_is_never_emitted() {
    let c = Contact::new().with_name("A");
    let out = c.encode();
    assert_eq!(keys(&out), vec!["name".to_string()]);
    let back = Contact::decode(&out).unwrap();
    assert!(back.url.is_none());
    assert!(back.email.is_none());
}

#[test]
fn reference_dispatch_always_wins() {
    // the pointer sentinel key wins, even beside noise keys
    let input = obj(vec![
        ("$ref", s("#/components/schemas/User")),
        ("type", s("object")),
    ]);
    let node = Referenceable::<Schema>::decode(&input).unwrap();
    assert!(node.is_reference());
    assert_eq!(
        node.as_reference().unwrap()._ref,
        "#/components/schemas/User"
    );
}

#[test]
fn missing_sentinel_key_decodes_inline() {
    let input = obj(vec![("type", s("string"))]);
    let node = Referenceable::<Schema>::decode(&input).unwrap();
    assert!(node.is_data());
    assert_eq!(node.as_data().unwrap()._type.as_deref(), Some("string"));
}

#[test]
fn component_ref_builds_the_component_path() {
    let r = Referenceable::<Schema>::component_ref("schemas", "User");
    assert_eq!(r.as_reference().unwrap()._ref, "#/components/schemas/User");
    let r2 = Referenceable::<Response>::response_ref("NotFound");
    assert_eq!(
        r2.as_reference().unwrap()._ref,
        "#/components/responses/NotFound"
    );
}

#[test]
fn reference_encodes_only_the_sentinel_field() {
    let node: Referenceable<Schema> = Referenceable::reference("#/components/schemas/User");
    let out = node.encode();
    assert_eq!(keys(&out), vec!["$ref".to_string()]);
}

#[test]
fn extension_fields_are_captured_in_order_and_reemitted() {
    let input = obj(vec![
        ("type", s("object")),
        ("x-custom", Value::Int(42)),
        ("x-list", Value::Arr(vec![Value::Int(1), Value::Int(2)])),
    ]);
    let schema = Schema::decode(&input).unwrap();
    assert_eq!(schema.extras.len(), 2);
    assert_eq!(schema.extras[0].0, "x-custom");
    assert_eq!(schema.extras[1].0, "x-list");
    let out = schema.encode();
    assert!(value_eq(&out, &input));
    assert_eq!(
        keys(&out),
        vec![
            "type".to_string(),
            "x-custom".to_string(),
            "x-list".to_string()
        ]
    );
}

#[test]
fn security_scheme_scenario_roundtrips_in_order() {
    let input = obj(vec![
        ("type", s("http")),
        ("scheme", s("bearer")),
        ("bearerFormat", s("JWT")),
    ]);
    let scheme = SecurityScheme::decode(&input).unwrap();
    match &scheme._type {
        SecurityType::Http {
            scheme: sch,
            bearer_format,
        } => {
            assert_eq!(sch, "bearer");
            assert_eq!(bearer_format.as_deref(), Some("JWT"));
        }
        _ => panic!("wrong shape"),
    }
    assert!(scheme.description.is_none());
    let out = scheme.encode();
    assert_eq!(
        keys(&out),
        vec![
            "type".to_string(),
            "scheme".to_string(),
            "bearerFormat".to_string()
        ]
    );
    assert!(value_eq(&out, &input));
}

#[test]
fn unknown_variant_never_picks_a_default() {
    let input = obj(vec![("type", s("magic"))]);
    let err = SecurityScheme::decode(&input).unwrap_err();
    match err {
        DecodeError::UnknownVariant { value, .. } => assert_eq!(value, "magic"),
        other => panic!("expected UnknownVariant, got {:?}", other),
    }
}

#[test]
fn api_key_scheme_roundtrips() {
    let input = obj(vec![
        ("type", s("apiKey")),
        ("name", s("X-Token")),
        ("in", s("header")),
    ]);
    let scheme = SecurityType::decode(&input).unwrap();
    match &scheme {
        SecurityType::ApiKey { name, _in } => {
            assert_eq!(name, "X-Token");
            assert_eq!(*_in, ParameterIn::Header);
        }
        _ => panic!("wrong shape"),
    }
    assert!(value_eq(&scheme.encode(), &input));
}

#[test]
fn buckets_encode_in_ascending_key_order() {
    let mut map: SortedMap<ServerVariable> = SortedMap::new();
    map.insert(String::from("zeta"), ServerVariable::new("z"));
    map.insert(String::from("alpha"), ServerVariable::new("a"));
    map.insert(String::from("midl"), ServerVariable::new("m"));
    let server = Server::new("https://api.example.com").with_variables(map);
    let out = server.encode();
    let vars = get(&out, "variables");
    assert_eq!(
        keys(vars),
        vec!["alpha".to_string(), "midl".to_string(), "zeta".to_string()]
    );
}

#[test]
fn bucket_insert_with_equal_key_replaces() {
    let mut map: SortedMap<ServerVariable> = SortedMap::new();
    map.insert(String::from("a"), ServerVariable::new("one"));
    map.insert(String::from("a"), ServerVariable::new("two"));
    assert_eq!(map.len(), 1);
    assert_eq!(map.get(&String::from("a")).unwrap().default, "two");
}

#[test]
fn document_roundtrip_with_components_and_extensions() {
    let input = obj(vec![
        ("openapi", s("3.0.0")),
        (
            "info",
            obj(vec![("title", s("Pets")), ("version", s("1.0"))]),
        ),
        (
            "paths",
            obj(vec![(
                "/pets",
                obj(vec![(
                    "get",
                    obj(vec![(
                        "responses",
                        obj(vec![(
                            "200",
                            obj(vec![("description", s("A list of pets"))]),
                        )]),
                    )]),
                )]),
            )]),
        ),
        (
            "components",
            obj(vec![(
                "schemas",
                obj(vec![
                    ("Err", obj(vec![("$ref", s("#/components/schemas/Pet"))])),
                    ("Pet", obj(vec![("type", s("object"))])),
                ]),
            )]),
        ),
        ("x-vendor", Value::Bool(true)),
    ]);
    let doc = OpenAPIV3::decode(&input).unwrap();
    assert_eq!(doc.openapi, "3.0.0");
    assert_eq!(doc.info.title, "Pets");
    assert_eq!(doc.paths.len(), 1);
    assert_eq!(doc.extras.len(), 1);
    let out = doc.encode();
    assert!(value_eq(&out, &input));
    // stability: a second decode/encode cycle reproduces the same tree
    let doc2 = OpenAPIV3::decode(&out).unwrap();
    assert!(value_eq(&doc2.encode(), &out));
}

#[test]
fn responses_default_and_status_codes_roundtrip() {
    let input = obj(vec![
        ("default", obj(vec![("description", s("fallback"))])),
        ("404", obj(vec![("description", s("missing"))])),
        ("200", obj(vec![("description", s("fine"))])),
    ]);
    let r = Responses::decode(&input).unwrap();
    assert!(r.default.is_some());
    assert_eq!(r.data.len(), 2);
    let out = r.encode();
    assert_eq!(
        keys(&out),
        vec!["default".to_string(), "200".to_string(), "404".to_string()]
    );
}

#[test]
fn builders_assemble_a_document() {
    let api = oas::builders::api("My API", "1.0.0")
        .with_description("A sample API")
        .add_server(Server::new("https://api.example.com"))
        .add_path(
            "/users",
            PathItem::new().with_get(oas::builders::get("List users").build()),
        );
    assert_eq!(api.info.description.as_deref(), Some("A sample API"));
    let out = api.encode();
    assert_eq!(
        keys(&out),
        vec![
            "openapi".to_string(),
            "info".to_string(),
            "servers".to_string(),
            "paths".to_string()
        ]
    );
    let back = OpenAPIV3::decode(&out).unwrap();
    assert!(value_eq(&back.encode(), &out));
}

#[test]
fn tag_and_license_builders() {
    let t = Tag::with_description("pets", "All about pets");
    assert_eq!(t.name, "pets");
    assert_eq!(t.description.as_deref(), Some("All about pets"));
    let l = License::new("MIT").with_url("https://mit-license.org");
    assert_eq!(l.name, "MIT");
    let info = Info::new("t", "v").with_license(l).with_contact(
        Contact::new().with_email("o@example.com"),
    );
    let out = info.encode();
    assert!(value_eq(get(get(&out, "license"), "name"), &s("MIT")));
}

#[test]
fn parameter_builders_set_location_and_required() {
    let p = Referenceable::<Parameter>::path_param("id");
    let inner = p.as_data().unwrap();
    assert_eq!(inner.name, "id");
    assert_eq!(inner._in, ParameterIn::Path);
    assert_eq!(inner.required, Some(true));
    let out = inner.encode();
    assert!(value_eq(get(&out, "in"), &s("path")));
}

#[test]
fn schema_builders_set_the_type_keyword() {
    assert_eq!(Schema::string()._type.as_deref(), Some("string"));
    assert_eq!(Schema::object()._type.as_deref(), Some("object"));
    let node = Referenceable::<Schema>::integer_schema();
    assert_eq!(node.as_data().unwrap()._type.as_deref(), Some("integer"));
}

#[test]
fn reference_new_stores_the_string_verbatim() {
    let r = Reference::new("not a pointer at all");
    assert_eq!(r._ref, "not a pointer at all");
}

#[test]
fn empty_components_encode_without_keys() {
    let c = Components::new();
    let out = c.encode();
    assert_eq!(keys(&out).len(), 0);
}

#[test]
fn response_missing_description_is_missing_required_field() {
    let input = obj(vec![("headers", obj(vec![]))]);
    let err = Response::decode(&input).unwrap_err();
    match err {
        DecodeError::MissingRequiredField { field, .. } => assert_eq!(field, "description"),
        other => panic!("expected MissingRequiredField, got {:?}", other),
    }
    // and the failure fails the enclosing decode: a document whose only
    // response lacks its description does not decode at all
    let doc = obj(vec![
        ("openapi", s("3.0.0")),
        ("info", obj(vec![("title", s("T")), ("version", s("1"))])),
        (
            "paths",
            obj(vec![(
                "/a",
                obj(vec![(
                    "get",
                    obj(vec![("responses", obj(vec![("200", obj(vec![]))]))]),
                )]),
            )]),
        ),
    ]);
    let err = oas::document::OpenAPIV3::decode(&doc).unwrap_err();
    assert!(matches!(err, DecodeError::MissingRequiredField { .. }));
}

#[test]
fn non_object_input_is_a_type_mismatch() {
    let err = Response::decode(&s("nope")).unwrap_err();
    assert!(matches!(err, DecodeError::TypeMismatch { .. }));
    let err = Info::decode(&Value::Int(7)).unwrap_err();
    assert!(matches!(err, DecodeError::TypeMismatch { .. }));
    let err = SecurityScheme::decode(&Value::Null).unwrap_err();
    assert!(matches!(err, DecodeError::TypeMismatch { .. }));
}

#[test]
fn with_operations_folds_method_names() {
    let item = PathItem::new().with_operations(vec![
        (String::from("GET"), Operation::new(Responses::new())),
        (String::from("Post"), Operation::new(Responses::new())),
        (String::from("brew"), Operation::new(Responses::new())),
    ]);
    // case-folded routing: "GET" lands in the get slot, "Post" in post;
    // an unknown method changes nothing
    assert!(item.get.is_some());
    assert!(item.post.is_some());
    assert!(item.put.is_none());
    assert!(item.delete.is_none());
}

#[test]
fn add_paths_inserts_each_binding_in_key_order() {
    let api = oas::builders::api("A", "1")
        .add_paths(vec![
            (String::from("/z"), PathItem::new()),
            (String::from("/a"), PathItem::new()),
        ]);
    assert_eq!(api.paths.len(), 2);
    let out = api.encode();
    assert_eq!(
        keys(get(&out, "paths")),
        vec!["/a".to_string(), "/z".to_string()]
    );
}

#[test]
fn quick_builders_fix_their_responses() {
    let op = oas::builders::post("Create user").build();
    assert_eq!(op.summary.as_deref(), Some("Create user"));
    assert_eq!(op.responses.data.len(), 2);
    assert_eq!(
        op.responses
            .data
            .get(&String::from("201"))
            .unwrap()
            .as_data()
            .unwrap()
            .description,
        "Created"
    );
    assert_eq!(
        op.responses
            .data
            .get(&String::from("400"))
            .unwrap()
            .as_data()
            .unwrap()
            .description,
        "Bad Request"
    );
    assert!(op.tags.is_none() && op.deprecated.is_none());
    let del = oas::builders::delete("Remove").build();
    assert_eq!(del.responses.data.len(), 2);
    assert!(del
        .responses
        .data
        .get(&String::from("204"))
        .is_some());
}
