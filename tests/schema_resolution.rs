use lancelot::{resolve, type_tag, FieldType, Key, Number, TranscodeError, Value};

fn text(s: &str) -> Value {
    Value::Str(s.to_string())
}

fn integer(i: i64) -> Value {
    Value::Num(Number { exact: Some(i), wide: (i as f64).to_bits(), narrow: (i as f32).to_bits() })
}

fn float(x: f64) -> Value {
    Value::Num(Number { exact: None, wide: x.to_bits(), narrow: (x as f32).to_bits() })
}

fn hash(entries: Vec<(&str, Value)>) -> Value {
    Value::Hash(entries.into_iter().map(|(k, v)| (Key::Symbol(k.to_string()), v)).collect())
}

fn entry(name: &str, d: Value) -> (String, Value) {
    (name.to_string(), d)
}

#[test]
fn scalar_tag_resolves_to_nullable_field() {
    let schema = resolve(&vec![entry("score", text("float32"))]).unwrap();
    assert_eq!(schema.fields.len(), 1);
    assert_eq!(schema.fields[0].name, "score");
    assert_eq!(schema.fields[0].field_type, FieldType::Float32);
    assert!(schema.fields[0].nullable);
}

#[test]
fn vector_descriptor_resolves_with_dimension() {
    let d = hash(vec![("type", text("vector")), ("dimension", integer(4))]);
    let schema = resolve(&vec![entry("embedding", d)]).unwrap();
    assert_eq!(schema.fields.len(), 1);
    assert_eq!(schema.fields[0].name, "embedding");
    assert_eq!(schema.fields[0].field_type, FieldType::Vector(4));
    assert!(schema.fields[0].nullable);
}

#[test]
fn every_scalar_tag_is_recognized_in_order() {
    let entries = vec![
        entry("a", text("string")),
        entry("b", text("float32")),
        entry("c", text("float64")),
        entry("d", text("int32")),
        entry("e", text("int64")),
        entry("f", text("boolean")),
    ];
    let schema = resolve(&entries).unwrap();
    let got: Vec<(String, FieldType)> =
        schema.fields.iter().map(|f| (f.name.clone(), f.field_type)).collect();
    assert_eq!(
        got,
        vec![
            ("a".to_string(), FieldType::Utf8),
            ("b".to_string(), FieldType::Float32),
            ("c".to_string(), FieldType::Float64),
            ("d".to_string(), FieldType::Int32),
            ("e".to_string(), FieldType::Int64),
            ("f".to_string(), FieldType::Boolean),
        ]
    );
    assert!(schema.is_valid());
}

#[test]
fn unknown_tag_is_rejected() {
    match resolve(&vec![entry("x", text("currency"))]) {
        Err(TranscodeError::UnknownType(t)) => assert_eq!(t, "currency"),
        _ => panic!("expected UnknownType"),
    }
}

#[test]
fn unknown_structured_type_is_rejected() {
    let d = hash(vec![("type", text("matrix")), ("dimension", integer(4))]);
    match resolve(&vec![entry("m", d)]) {
        Err(TranscodeError::UnknownType(t)) => assert_eq!(t, "matrix"),
        _ => panic!("expected UnknownType"),
    }
}

#[test]
fn descriptor_without_type_is_malformed() {
    let d = hash(vec![("dimension", integer(4))]);
    match resolve(&vec![entry("v", d)]) {
        Err(TranscodeError::MalformedDescriptor(n)) => assert_eq!(n, "v"),
        _ => panic!("expected MalformedDescriptor"),
    }
}

#[test]
fn vector_without_dimension_is_malformed() {
    let d = hash(vec![("type", text("vector"))]);
    assert!(matches!(resolve(&vec![entry("v", d)]), Err(TranscodeError::MalformedDescriptor(_))));
}

#[test]
fn non_positive_or_fractional_dimension_is_malformed() {
    for dim in [integer(0), integer(-3), float(2.5), text("4"), integer(1 << 31)] {
        let d = hash(vec![("type", text("vector")), ("dimension", dim)]);
        assert!(matches!(resolve(&vec![entry("v", d)]), Err(TranscodeError::MalformedDescriptor(_))));
    }
}

#[test]
fn descriptor_of_another_shape_is_malformed() {
    assert!(matches!(resolve(&vec![entry("v", integer(3))]), Err(TranscodeError::MalformedDescriptor(_))));
    assert!(matches!(resolve(&vec![entry("v", Value::Null)]), Err(TranscodeError::MalformedDescriptor(_))));
}

#[test]
fn structured_keys_may_be_plain_strings() {
    let d = Value::Hash(vec![
        (Key::Text("type".to_string()), text("vector")),
        (Key::Text("dimension".to_string()), integer(3)),
    ]);
    let schema = resolve(&vec![entry("v", d)]).unwrap();
    assert_eq!(schema.fields[0].field_type, FieldType::Vector(3));
}

#[test]
fn first_failing_entry_decides_the_error() {
    let entries = vec![entry("a", text("string")), entry("b", text("money")), entry("c", text("coins"))];
    match resolve(&entries) {
        Err(TranscodeError::UnknownType(t)) => assert_eq!(t, "money"),
        _ => panic!("expected UnknownType"),
    }
}

#[test]
fn empty_mapping_gives_empty_schema() {
    let schema = resolve(&vec![]).unwrap();
    assert!(schema.fields.is_empty());
}

#[test]
fn tags_name_their_types() {
    assert_eq!(type_tag(FieldType::Utf8).as_deref(), Some("string"));
    assert_eq!(type_tag(FieldType::Float32).as_deref(), Some("float32"));
    assert_eq!(type_tag(FieldType::Float64).as_deref(), Some("float64"));
    assert_eq!(type_tag(FieldType::Int32).as_deref(), Some("int32"));
    assert_eq!(type_tag(FieldType::Int64).as_deref(), Some("int64"));
    assert_eq!(type_tag(FieldType::Boolean).as_deref(), Some("boolean"));
    assert_eq!(type_tag(FieldType::Vector(8)).as_deref(), Some("vector"));
    assert_eq!(type_tag(FieldType::Other), None);
}

#[test]
fn tags_resolve_back_to_their_types() {
    for t in [FieldType::Utf8, FieldType::Float32, FieldType::Float64, FieldType::Int32, FieldType::Int64, FieldType::Boolean] {
        let tag = type_tag(t).unwrap();
        let schema = resolve(&vec![entry("f", Value::Str(tag))]).unwrap();
        assert_eq!(schema.fields[0].field_type, t);
    }
}
