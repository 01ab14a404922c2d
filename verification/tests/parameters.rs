use openapiv3::{Any, DecodeError, Discriminator, Example, Parameter, ParameterIn, Style};

fn obj(entries: Vec<(&str, Any)>) -> Any {
    Any::Obj(entries.into_iter().map(|(k, v)| (k.to_string(), v)).collect())
}

fn s(text: &str) -> Any {
    Any::Str(text.to_string())
}

#[test]
fn parameter_reads_its_location_under_the_in_key() {
    // The document-facing name is the reserved word `in`; the record carries
    // it as its aliased field and restores the name on encode.
    let tree = openapiv3::text_to_value(r#"{"name": "petId", "in": "path", "required": true}"#)
        .unwrap();
    let p = Parameter::from_value(tree).unwrap();
    assert_eq!(p.name, "petId");
    assert_eq!(p._in, ParameterIn::Path);
    assert_eq!(p.required, Some(true));
    let expected = obj(vec![("name", s("petId")), ("in", s("path")), ("required", Any::Bool(true))]);
    assert_eq!(p.to_value(), expected);
}

#[test]
fn parameter_location_vocabulary_is_closed() {
    let tree = openapiv3::text_to_value(r#"{"name": "x", "in": "belly"}"#).unwrap();
    match Parameter::from_value(tree) {
        Err(DecodeError::StructuralTypeMismatch(path, expected)) => {
            assert_eq!(path, vec!["in".to_string()]);
            assert_eq!(expected, "parameter location");
        }
        other => panic!("expected a mismatch error, got {:?}", other),
    }
}

#[test]
fn parameter_style_vocabulary_is_closed() {
    let good = openapiv3::text_to_value(
        r#"{"name": "x", "in": "query", "style": "deepObject"}"#,
    )
    .unwrap();
    let p = Parameter::from_value(good).unwrap();
    assert_eq!(p.style, Some(Style::DeepObject));

    let bad = openapiv3::text_to_value(r#"{"name": "x", "in": "query", "style": "spiral"}"#)
        .unwrap();
    match Parameter::from_value(bad) {
        Err(DecodeError::StructuralTypeMismatch(path, expected)) => {
            assert_eq!(path, vec!["style".to_string()]);
            assert_eq!(expected, "style");
        }
        other => panic!("expected a mismatch error, got {:?}", other),
    }
}

#[test]
fn parameter_schema_slot_obeys_ref_precedence() {
    let tree = openapiv3::text_to_value(
        r##"{"name": "x", "in": "query", "schema": {"$ref": "#/components/schemas/Id"}}"##,
    )
    .unwrap();
    let p = Parameter::from_value(tree).unwrap();
    assert!(p.schema.unwrap().is_reference());
}

#[test]
fn parameter_keeps_example_and_vendor_fields_verbatim() {
    let tree = openapiv3::text_to_value(
        r#"{"name": "x", "in": "query", "example": [1, 2], "x-note": null}"#,
    )
    .unwrap();
    let p = Parameter::from_value(tree).unwrap();
    assert_eq!(
        p.example,
        Some(Any::Arr(vec![Any::Num("1".to_string()), Any::Num("2".to_string())]))
    );
    assert_eq!(p.extras, vec![("x-note".to_string(), Any::Null)]);
    let expected = obj(vec![
        ("name", s("x")),
        ("in", s("query")),
        ("example", Any::Arr(vec![Any::Num("1".to_string()), Any::Num("2".to_string())])),
        ("x-note", Any::Null),
    ]);
    assert_eq!(p.to_value(), expected);
}

#[test]
fn example_carries_its_payload_verbatim() {
    let tree = openapiv3::text_to_value(r#"{"summary": "one", "value": {"deep": [true]}}"#)
        .unwrap();
    let e = Example::from_value(tree).unwrap();
    assert_eq!(e.summary, Some("one".to_string()));
    assert_eq!(
        e.value,
        Some(obj(vec![("deep", Any::Arr(vec![Any::Bool(true)]))]))
    );
    let expected = obj(vec![
        ("summary", s("one")),
        ("value", obj(vec![("deep", Any::Arr(vec![Any::Bool(true)]))])),
    ]);
    assert_eq!(e.to_value(), expected);
}

#[test]
fn discriminator_maps_values_to_schema_names() {
    let tree = openapiv3::text_to_value(
        r#"{"propertyName": "petType", "mapping": {"dog": "Dog", "cat": "Cat"}}"#,
    )
    .unwrap();
    let d = Discriminator::from_value(tree).unwrap();
    assert_eq!(d.property_name, "petType");
    let mapping = d.mapping.clone().unwrap();
    assert_eq!(mapping.len(), 2);
    let expected = obj(vec![
        ("propertyName", s("petType")),
        ("mapping", obj(vec![("cat", s("Cat")), ("dog", s("Dog"))])),
    ]);
    assert_eq!(d.to_value(), expected);
}

#[test]
fn link_keeps_parameters_and_body_verbatim() {
    let tree = openapiv3::text_to_value(
        r#"{"operationId": "getPet", "parameters": {"petId": "$request.path.id"},
            "requestBody": {"mode": 1}, "server": {"url": "/"}}"#,
    )
    .unwrap();
    let link = openapiv3::Link::from_value(tree).unwrap();
    assert_eq!(link.operation_id, "getPet");
    assert_eq!(
        link.parameters,
        Some(vec![("petId".to_string(), s("$request.path.id"))])
    );
    assert_eq!(link.request_body, Some(obj(vec![("mode", Any::Num("1".to_string()))])));
    let server = link.server.as_ref().unwrap();
    assert!(!server.url.is_valid());
    let expected = obj(vec![
        ("operationId", s("getPet")),
        ("parameters", obj(vec![("petId", s("$request.path.id"))])),
        ("requestBody", obj(vec![("mode", Any::Num("1".to_string()))])),
        ("server", obj(vec![("url", s("/"))])),
    ]);
    assert_eq!(link.to_value(), expected);
}

#[test]
fn header_decodes_like_a_nameless_parameter() {
    let tree = openapiv3::text_to_value(
        r#"{"description": "how many", "required": true, "style": "simple",
            "schema": {"type": "integer", "format": "int32"}, "x-unit": "items"}"#,
    )
    .unwrap();
    let h = openapiv3::Header::from_value(tree).unwrap();
    assert_eq!(h.description, Some("how many".to_string()));
    assert_eq!(h.required, Some(true));
    assert_eq!(h.style, Some(Style::Simple));
    assert!(!h.schema.as_ref().unwrap().is_reference());
    assert_eq!(h.extras, vec![("x-unit".to_string(), s("items"))]);
    let expected = obj(vec![
        ("description", s("how many")),
        ("required", Any::Bool(true)),
        ("style", s("simple")),
        ("schema", obj(vec![("type", s("integer")), ("format", s("int32"))])),
        ("x-unit", s("items")),
    ]);
    assert_eq!(h.to_value(), expected);
}

#[test]
fn discriminator_requires_its_property_name() {
    let tree = openapiv3::text_to_value(r#"{"mapping": {}}"#).unwrap();
    match Discriminator::from_value(tree) {
        Err(DecodeError::MissingRequiredField(path)) => {
            assert_eq!(path, vec!["propertyName".to_string()])
        }
        other => panic!("expected a missing-field error, got {:?}", other),
    }
}
