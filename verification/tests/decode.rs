use openapiv3::{Any, DecodeError, OpenAPIV3, Parseable, Referenceable, Schema, Server, Type};

fn obj(entries: Vec<(&str, Any)>) -> Any {
    Any::Obj(entries.into_iter().map(|(k, v)| (k.to_string(), v)).collect())
}

fn s(text: &str) -> Any {
    Any::Str(text.to_string())
}

#[test]
fn parseable_returns_string_if_value_is_invalid() {
    let test = r#"{"url": "hello"}"#;

    let tree = openapiv3::text_to_value(test).expect("Should deserialize");
    let actual: Server = Server::from_value(tree).expect("Should deserialize");

    match actual.url {
        Parseable::Valid(_) => panic!("Should be invalid"),
        Parseable::Invalid(invalid) => assert_eq!(&invalid, "hello"),
    }
}

#[test]
fn parseable_returns_the_parsed_value_if_valid() {
    let test = r#"{"url": "http://google.com"}"#;

    let tree = openapiv3::text_to_value(test).unwrap();
    let actual: Server = Server::from_value(tree).unwrap();

    match actual.url {
        Parseable::Valid(valid) => {
            assert_eq!(valid, url::Url::parse("http://google.com").unwrap().as_str())
        }
        Parseable::Invalid(_) => panic!("Should be invalid"),
    }
}

#[test]
fn lenient_url_field_keeps_raw_text() {
    // A syntactically valid but semantically invalid scalar decodes to the
    // raw text, never to a failure, and encodes back unchanged.
    let tree = openapiv3::text_to_value(r#"{"url": "not-a-url"}"#).unwrap();
    let server = Server::from_value(tree).unwrap();
    assert!(!server.url.is_valid());
    match &server.url {
        Parseable::Invalid(raw) => assert_eq!(raw, "not-a-url"),
        Parseable::Valid(_) => panic!("should have fallen back to raw text"),
    }
    let expected = obj(vec![("url", s("not-a-url"))]);
    assert_eq!(server.to_value(), expected);
}

#[test]
fn url_valid_text_is_canonicalized() {
    let tree = openapiv3::text_to_value(r#"{"url": "http://google.com"}"#).unwrap();
    let server = Server::from_value(tree).unwrap();
    match &server.url {
        Parseable::Valid(c) => assert_eq!(c, "http://google.com/"),
        Parseable::Invalid(_) => panic!("should be valid"),
    }
}

#[test]
fn slot_with_ref_marker_is_a_reference() {
    let tree = openapiv3::text_to_value(r##"{"$ref": "#/components/schemas/Pet"}"##).unwrap();
    let slot = Referenceable::<Schema>::from_value(tree).unwrap();
    assert!(slot.is_reference());
    match slot {
        Referenceable::Reference(r) => assert_eq!(r._ref, "#/components/schemas/Pet"),
        Referenceable::Data(_) => panic!("should be a reference"),
    }
}

#[test]
fn slot_ref_marker_takes_precedence_over_siblings() {
    // Even though the siblings form a perfectly valid inline schema, the
    // reference marker wins.
    let tree =
        openapiv3::text_to_value(r##"{"$ref": "#/components/schemas/Pet", "type": "string"}"##)
            .unwrap();
    let slot = Referenceable::<Schema>::from_value(tree).unwrap();
    assert!(slot.is_reference());
}

#[test]
fn slot_without_marker_is_inline_data() {
    let tree = openapiv3::text_to_value(r#"{"type": "string"}"#).unwrap();
    let slot = Referenceable::<Schema>::from_value(tree).unwrap();
    assert!(!slot.is_reference());
    match slot {
        Referenceable::Data(schema) => assert_eq!(schema._type, Some(Type::String)),
        Referenceable::Reference(_) => panic!("should be inline data"),
    }
}

#[test]
fn slot_encodes_reference_as_marker_mapping() {
    let slot: Referenceable<Schema> = Referenceable::Reference(openapiv3::Reference {
        _ref: "#/components/schemas/Pet".to_string(),
    });
    let expected = obj(vec![("$ref", s("#/components/schemas/Pet"))]);
    assert_eq!(slot.to_value(), expected);
}

#[test]
fn extras_capture_unknown_keys_and_encode_reproduces_them() {
    // The record knows the name and url fields; the vendor extension lands in
    // extras with its value untouched, and the encoded output carries every
    // key of the source.
    let tree = openapiv3::text_to_value(r#"{"name": "x", "x-vendor": 42}"#).unwrap();
    let license = openapiv3::License::from_value(tree).unwrap();
    assert_eq!(license.name, "x");
    assert_eq!(license.extras.len(), 1);
    assert_eq!(license.extras[0].0, "x-vendor");
    assert_eq!(license.extras[0].1, Any::Num("42".to_string()));
    let expected = obj(vec![("name", s("x")), ("x-vendor", Any::Num("42".to_string()))]);
    assert_eq!(license.to_value(), expected);
}

#[test]
fn open_enum_keeps_unknown_literal_verbatim() {
    let tree = openapiv3::text_to_value(r#"{"type": "custom-thing"}"#).unwrap();
    let schema = Schema::from_value(tree).unwrap();
    match &schema._type {
        Some(Type::Other(raw)) => assert_eq!(raw, "custom-thing"),
        other => panic!("expected the fallback variant, got {:?}", other),
    }
    let expected = obj(vec![("type", s("custom-thing"))]);
    assert_eq!(schema.to_value(), expected);
}

#[test]
fn open_enum_known_literals_decode_to_known_values() {
    let tree = openapiv3::text_to_value(r#"{"type": "integer", "format": "int32"}"#).unwrap();
    let schema = Schema::from_value(tree).unwrap();
    assert_eq!(schema._type, Some(Type::Integer));
    assert_eq!(schema.format, Some(openapiv3::Format::Int32));
    let expected = obj(vec![("type", s("integer")), ("format", s("int32"))]);
    assert_eq!(schema.to_value(), expected);
}

#[test]
fn syntax_error_is_fatal() {
    match openapiv3::parse("{ not json") {
        Err(DecodeError::Syntax) => {}
        other => panic!("expected a syntax error, got {:?}", other),
    }
}

#[test]
fn missing_required_field_names_its_path() {
    let tree = openapiv3::text_to_value(r#"{}"#).unwrap();
    match Server::from_value(tree) {
        Err(DecodeError::MissingRequiredField(path)) => {
            assert_eq!(path, vec!["url".to_string()])
        }
        other => panic!("expected a missing-field error, got {:?}", other),
    }
}

#[test]
fn structural_mismatch_names_its_path_and_expectation() {
    let tree = openapiv3::text_to_value(r#"{"url": 42}"#).unwrap();
    match Server::from_value(tree) {
        Err(DecodeError::StructuralTypeMismatch(path, expected)) => {
            assert_eq!(path, vec!["url".to_string()]);
            assert_eq!(expected, "string");
        }
        other => panic!("expected a mismatch error, got {:?}", other),
    }
}

#[test]
fn nested_failure_bubbles_with_full_path() {
    let text = r#"{"openapi": "3.0.0", "info": {"title": 5, "version": "1"}, "paths": {}}"#;
    match openapiv3::parse(text) {
        Err(DecodeError::StructuralTypeMismatch(path, expected)) => {
            assert_eq!(path, vec!["info".to_string(), "title".to_string()]);
            assert_eq!(expected, "string");
        }
        other => panic!("expected a nested mismatch error, got {:?}", other),
    }
}

#[test]
fn document_round_trip_is_stable() {
    // Decode, encode, decode again: the two decoded documents are equal,
    // extras, unknown enum literals and raw scalars included.
    let text = r#"{
        "openapi": "3.0.0",
        "info": {
            "title": "Sample API",
            "version": "0.1.9",
            "contact": {"name": "Ann", "email": "ann@example.com", "url": "not a url"},
            "license": {"name": "MIT", "url": "https://mit-license.org"},
            "x-info-note": ["kept", 1, null]
        },
        "servers": [
            {"url": "https://api.example.com/v1", "description": "prod",
             "variables": {"port": {"enum": ["443", "8443"], "default": "443"}}},
            {"url": "not-a-url"}
        ],
        "paths": {"/pets": {"get": {"responses": {"200": {"description": "ok"}}}}},
        "tags": [{"name": "pets", "externalDocs": {"url": "https://docs.example.com"}}],
        "externalDocs": {"description": "more", "url": "https://example.com"},
        "components": {"schemas": {"Pet": {"type": "object"}}},
        "x-vendor": {"deep": [true, false]}
    }"#;
    let first = openapiv3::parse(text).expect("first decode");
    let encoded = first.to_string();
    let second = openapiv3::parse(&encoded).expect("second decode");
    assert_eq!(first, second);
}

#[test]
fn unknown_version_is_kept_raw() {
    let text = r#"{"openapi": "4.0-future", "info": {"title": "t", "version": "1"}, "paths": {}}"#;
    let doc: OpenAPIV3 = openapiv3::parse(text).unwrap();
    assert!(!doc.openapi.is_valid());
    match &doc.openapi {
        Parseable::Invalid(raw) => assert_eq!(raw, "4.0-future"),
        Parseable::Valid(_) => panic!("an unknown version must be kept raw"),
    }
}

#[test]
fn valid_version_is_parsed() {
    let text = r#"{"openapi": "3.0.0", "info": {"title": "t", "version": "1"}, "paths": {}}"#;
    let doc = openapiv3::parse(text).unwrap();
    assert!(doc.openapi.is_valid());
    match &doc.openapi {
        Parseable::Valid(v) => assert_eq!(v, "3.0.0"),
        Parseable::Invalid(_) => panic!("a semantic version must parse"),
    }
}

#[test]
fn email_validity_distinguishes() {
    let good = openapiv3::text_to_value(r#"{"email": "ann@example.com"}"#).unwrap();
    let bad = openapiv3::text_to_value(r#"{"email": "nope"}"#).unwrap();
    let good = openapiv3::Contact::from_value(good).unwrap();
    let bad = openapiv3::Contact::from_value(bad).unwrap();
    assert!(good.email.unwrap().is_valid());
    assert!(!bad.email.unwrap().is_valid());
}

#[test]
fn number_literals_survive_as_text() {
    let tree = openapiv3::text_to_value(r#"{"a": 42}"#).unwrap();
    let expected = obj(vec![("a", Any::Num("42".to_string()))]);
    assert_eq!(tree, expected);
    assert_eq!(openapiv3::value_to_text(&expected), r#"{"a":42}"#);
}

#[test]
fn tag_new_has_no_docs_and_no_extras() {
    let tag = openapiv3::Tag::new("pets".to_string(), Some("all pets".to_string()));
    assert_eq!(tag.name, "pets");
    assert_eq!(tag.description, Some("all pets".to_string()));
    assert!(tag.external_docs.is_none());
    assert!(tag.extras.is_empty());
}

#[test]
fn server_variables_round_trip_with_enum_values() {
    let text = r#"{"url": "/", "variables": {"port": {"enum": ["443", "8443"],
        "default": "443", "x-note": 7}}}"#;
    let tree = openapiv3::text_to_value(text).unwrap();
    let server = Server::from_value(tree).unwrap();
    let vars = server.variables.as_ref().unwrap();
    assert_eq!(vars.len(), 1);
    assert_eq!(vars[0].0, "port");
    assert_eq!(vars[0].1._enum, Some(vec!["443".to_string(), "8443".to_string()]));
    assert_eq!(vars[0].1.default, "443");
    assert_eq!(vars[0].1.extras, vec![("x-note".to_string(), Any::Num("7".to_string()))]);
    let reencoded = server.to_value();
    let again = Server::from_value(reencoded).unwrap();
    assert_eq!(server, again);
}

#[test]
fn bad_server_variable_reports_its_nested_path() {
    let text = r#"{"url": "/", "variables": {"port": {"enum": "not-a-list"}}}"#;
    let tree = openapiv3::text_to_value(text).unwrap();
    match Server::from_value(tree) {
        Err(DecodeError::StructuralTypeMismatch(path, expected)) => {
            assert_eq!(
                path,
                vec!["variables".to_string(), "port".to_string(), "enum".to_string()]
            );
            assert_eq!(expected, "array of strings");
        }
        other => panic!("expected a nested mismatch error, got {:?}", other),
    }
}

#[test]
fn bad_tag_docs_reports_its_nested_path() {
    let text = r#"{"openapi": "3.0.0", "info": {"title": "t", "version": "1"},
        "paths": {}, "tags": [{"name": "ok"}, {"name": "bad", "externalDocs": {}}]}"#;
    match openapiv3::parse(text) {
        Err(DecodeError::MissingRequiredField(path)) => {
            assert_eq!(
                path,
                vec!["tags".to_string(), "externalDocs".to_string(), "url".to_string()]
            );
        }
        other => panic!("expected a nested missing-field error, got {:?}", other),
    }
}

#[test]
fn unknown_root_sections_survive_in_extras() {
    // Node kinds outside the modeled schema, such as reusable components,
    // ride along in extras and come back verbatim.
    let text = r#"{"openapi": "3.0.0", "info": {"title": "t", "version": "1"},
        "paths": {}, "components": {"schemas": {"Pet": {"type": "object"}}}}"#;
    let doc = openapiv3::parse(text).unwrap();
    assert_eq!(doc.extras.len(), 1);
    assert_eq!(doc.extras[0].0, "components");
    let reencoded = openapiv3::text_to_value(&doc.to_string()).unwrap();
    match reencoded {
        Any::Obj(entries) => {
            assert!(entries.iter().any(|(k, _)| k == "components"));
        }
        _ => panic!("a document encodes as a mapping"),
    }
}

#[test]
fn duplicate_keys_keep_first_known_and_all_extras() {
    // A later entry under an already-filled known name never shadows the
    // first; unknown duplicates are all retained.
    let tree = Any::Obj(vec![
        ("url".to_string(), s("first")),
        ("url".to_string(), s("second")),
        ("x".to_string(), Any::Bool(true)),
        ("x".to_string(), Any::Bool(false)),
    ]);
    let server = Server::from_value(tree).unwrap();
    match &server.url {
        Parseable::Invalid(raw) => assert_eq!(raw, "first"),
        Parseable::Valid(_) => panic!("not a url"),
    }
    assert_eq!(server.extras.len(), 2);
    assert_eq!(server.extras[0].1, Any::Bool(true));
    assert_eq!(server.extras[1].1, Any::Bool(false));
}
