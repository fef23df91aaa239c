use lancelot::{
    decode, decode_all, encode, Batch, BatchColumn, Cell, Column, ColumnSchema, FieldDef, FieldType, Key, Number,
    TranscodeError, Value,
};

fn field(name: &str, t: FieldType) -> FieldDef {
    FieldDef { name: name.to_string(), field_type: t, nullable: true }
}

fn schema(fields: Vec<FieldDef>) -> ColumnSchema {
    ColumnSchema { fields }
}

fn sym(name: &str, v: Value) -> (Key, Value) {
    (Key::Symbol(name.to_string()), v)
}

fn plain(name: &str, v: Value) -> (Key, Value) {
    (Key::Text(name.to_string()), v)
}

fn text(s: &str) -> Value {
    Value::Str(s.to_string())
}

fn integer(i: i64) -> Value {
    Value::Num(Number { exact: Some(i), wide: (i as f64).to_bits(), narrow: (i as f32).to_bits() })
}

fn float(x: f64) -> Value {
    Value::Num(Number { exact: None, wide: x.to_bits(), narrow: (x as f32).to_bits() })
}

fn list(xs: &[f64]) -> Value {
    Value::List(xs.iter().map(|x| float(*x)).collect())
}

fn bits(xs: &[f32]) -> Vec<u32> {
    xs.iter().map(|x| x.to_bits()).collect()
}

fn cell_of<'a>(record: &'a [(String, Cell)], name: &str) -> &'a Cell {
    &record.iter().find(|(n, _)| n == name).expect("field present").1
}

fn full_schema() -> ColumnSchema {
    schema(vec![
        field("text", FieldType::Utf8),
        field("score", FieldType::Float32),
        field("ratio", FieldType::Float64),
        field("small", FieldType::Int32),
        field("count", FieldType::Int64),
        field("flag", FieldType::Boolean),
        field("embedding", FieldType::Vector(3)),
    ])
}

#[test]
fn round_trip_preserves_values_and_nulls() {
    let s = full_schema();
    let records = vec![
        vec![
            sym("text", text("hello")),
            sym("score", float(0.5)),
            sym("ratio", float(0.1)),
            sym("small", integer(-7)),
            sym("count", integer(1 << 40)),
            sym("flag", Value::Bool(true)),
            sym("embedding", list(&[1.0, 2.5, -3.0])),
        ],
        vec![
            sym("text", Value::Null),
            sym("score", Value::Null),
            sym("ratio", Value::Null),
            sym("small", Value::Null),
            sym("count", Value::Null),
            sym("flag", Value::Null),
            sym("embedding", Value::Null),
        ],
    ];
    let batch = encode(&records, &s).unwrap();
    assert_eq!(batch.num_rows, 2);
    let out = decode(&batch).unwrap();
    assert_eq!(out.len(), 2);
    let names: Vec<&str> = out[0].iter().map(|(n, _)| n.as_str()).collect();
    assert_eq!(names, vec!["text", "score", "ratio", "small", "count", "flag", "embedding"]);
    assert_eq!(
        out[0].iter().map(|(_, c)| c.clone()).collect::<Vec<Cell>>(),
        vec![
            Cell::Utf8("hello".to_string()),
            Cell::Float32(0.5f32.to_bits()),
            Cell::Float64(0.1f64.to_bits()),
            Cell::Int32(-7),
            Cell::Int64(1 << 40),
            Cell::Boolean(true),
            Cell::Vector(bits(&[1.0, 2.5, -3.0])),
        ]
    );
    assert!(out[1].iter().all(|(_, c)| *c == Cell::Null));
}

#[test]
fn explicit_null_text_decodes_as_null() {
    let s = schema(vec![field("text", FieldType::Utf8)]);
    let records = vec![vec![sym("text", Value::Null)]];
    let out = decode(&encode(&records, &s).unwrap()).unwrap();
    assert_eq!(*cell_of(&out[0], "text"), Cell::Null);
    assert_ne!(*cell_of(&out[0], "text"), Cell::Utf8(String::new()));
}

#[test]
fn vector_of_wrong_length_is_rejected() {
    let s = schema(vec![field("embedding", FieldType::Vector(4))]);
    let records = vec![vec![sym("embedding", list(&[1.0, 2.0, 3.0]))]];
    match encode(&records, &s) {
        Err(TranscodeError::VectorDimensionMismatch(n, e, a)) => {
            assert_eq!(n, "embedding");
            assert_eq!(e, 4);
            assert_eq!(a, 3);
        }
        other => panic!("expected VectorDimensionMismatch, got {:?}", other),
    }
}

#[test]
fn plain_string_key_decodes_like_symbol_key() {
    let s = schema(vec![field("text", FieldType::Utf8), field("score", FieldType::Float32)]);
    let by_symbol = vec![vec![sym("text", text("doc")), sym("score", float(1.5))]];
    let by_string = vec![vec![plain("text", text("doc")), sym("score", float(1.5))]];
    let a = decode(&encode(&by_symbol, &s).unwrap()).unwrap();
    let b = decode(&encode(&by_string, &s).unwrap()).unwrap();
    assert_eq!(a, b);
    assert_eq!(*cell_of(&b[0], "text"), Cell::Utf8("doc".to_string()));
}

#[test]
fn empty_records_give_empty_batch() {
    let s = full_schema();
    let batch = encode(&vec![], &s).unwrap();
    assert_eq!(batch.num_rows, 0);
    assert_eq!(batch.columns.len(), 7);
    assert_eq!(batch.columns[0].data, Column::Utf8(vec![]));
    assert_eq!(
        batch.columns[6].data,
        Column::Vector { dimension: 3, values: vec![], validity: vec![] }
    );
    assert!(decode(&batch).unwrap().is_empty());
}

#[test]
fn empty_schema_and_records_give_empty_batch() {
    let batch = encode(&vec![], &schema(vec![])).unwrap();
    assert_eq!(batch.num_rows, 0);
    assert!(batch.columns.is_empty());
    assert!(decode(&batch).unwrap().is_empty());
}

#[test]
fn null_vector_row_keeps_a_zero_window() {
    let s = schema(vec![field("v", FieldType::Vector(2))]);
    let records = vec![
        vec![sym("v", list(&[1.0, 2.0]))],
        vec![sym("v", Value::Null)],
        vec![sym("v", list(&[3.0, 4.0]))],
    ];
    let batch = encode(&records, &s).unwrap();
    assert_eq!(
        batch.columns[0].data,
        Column::Vector {
            dimension: 2,
            values: bits(&[1.0, 2.0, 0.0, 0.0, 3.0, 4.0]),
            validity: vec![true, false, true],
        }
    );
    let out = decode(&batch).unwrap();
    assert_eq!(out[1][0].1, Cell::Null);
    assert_eq!(out[2][0].1, Cell::Vector(bits(&[3.0, 4.0])));
}

#[test]
fn scalar_columns_hold_options_in_row_order() {
    let s = schema(vec![field("n", FieldType::Int64), field("t", FieldType::Utf8)]);
    let records = vec![
        vec![sym("n", integer(3)), sym("t", text("a"))],
        vec![sym("n", Value::Null), sym("t", text("b"))],
    ];
    let batch = encode(&records, &s).unwrap();
    assert_eq!(batch.columns[0].field.name, "n");
    assert_eq!(batch.columns[0].data, Column::Int64(vec![Some(3), None]));
    assert_eq!(batch.columns[1].data, Column::Utf8(vec![Some("a".to_string()), Some("b".to_string())]));
}

#[test]
fn float32_narrows_doubles_and_integers() {
    let s = schema(vec![field("x", FieldType::Float32)]);
    let records = vec![vec![sym("x", float(0.1))], vec![sym("x", integer(3))]];
    let batch = encode(&records, &s).unwrap();
    assert_eq!(
        batch.columns[0].data,
        Column::Float32(vec![Some((0.1f64 as f32).to_bits()), Some(3.0f32.to_bits())])
    );
}

#[test]
fn float64_keeps_full_precision() {
    let s = schema(vec![field("x", FieldType::Float64)]);
    let batch = encode(&vec![vec![sym("x", float(0.1))]], &s).unwrap();
    assert_eq!(batch.columns[0].data, Column::Float64(vec![Some(0.1f64.to_bits())]));
}

#[test]
fn missing_field_is_an_error() {
    let s = schema(vec![field("text", FieldType::Utf8), field("score", FieldType::Float32)]);
    let records = vec![vec![sym("text", text("a")), sym("score", float(1.0))], vec![sym("text", text("b"))]];
    match encode(&records, &s) {
        Err(TranscodeError::MissingField(i, n)) => {
            assert_eq!(i, 1);
            assert_eq!(n, "score");
        }
        other => panic!("expected MissingField, got {:?}", other),
    }
}

#[test]
fn string_column_rejects_numbers() {
    let s = schema(vec![field("text", FieldType::Utf8)]);
    match encode(&vec![vec![sym("text", integer(5))]], &s) {
        Err(TranscodeError::TypeMismatch(i, n, t)) => {
            assert_eq!(i, 0);
            assert_eq!(n, "text");
            assert_eq!(t, FieldType::Utf8);
        }
        other => panic!("expected TypeMismatch, got {:?}", other),
    }
}

#[test]
fn int64_column_rejects_fractions() {
    let s = schema(vec![field("count", FieldType::Int64)]);
    assert!(matches!(
        encode(&vec![vec![sym("count", float(2.5))]], &s),
        Err(TranscodeError::TypeMismatch(0, _, FieldType::Int64))
    ));
}

#[test]
fn int32_column_rejects_out_of_range() {
    let s = schema(vec![field("small", FieldType::Int32)]);
    assert!(matches!(
        encode(&vec![vec![sym("small", integer(1 << 31))]], &s),
        Err(TranscodeError::TypeMismatch(0, _, FieldType::Int32))
    ));
    let batch = encode(&vec![vec![sym("small", integer(i32::MIN as i64))]], &s).unwrap();
    assert_eq!(batch.columns[0].data, Column::Int32(vec![Some(i32::MIN)]));
}

#[test]
fn boolean_column_rejects_strings() {
    let s = schema(vec![field("flag", FieldType::Boolean)]);
    assert!(matches!(
        encode(&vec![vec![sym("flag", text("true"))]], &s),
        Err(TranscodeError::TypeMismatch(0, _, FieldType::Boolean))
    ));
}

#[test]
fn vector_column_rejects_non_numeric_entries() {
    let s = schema(vec![field("v", FieldType::Vector(2))]);
    let bad = Value::List(vec![float(1.0), text("x")]);
    assert!(matches!(
        encode(&vec![vec![sym("v", bad)]], &s),
        Err(TranscodeError::TypeMismatch(0, _, FieldType::Vector(2)))
    ));
    assert!(matches!(
        encode(&vec![vec![sym("v", float(1.0))]], &s),
        Err(TranscodeError::TypeMismatch(0, _, FieldType::Vector(2)))
    ));
}

#[test]
fn first_record_in_order_decides_the_error() {
    let s = schema(vec![field("a", FieldType::Int64), field("b", FieldType::Utf8)]);
    let records = vec![
        vec![sym("a", integer(1)), sym("b", integer(9))],
        vec![sym("b", text("x"))],
    ];
    assert!(matches!(encode(&records, &s), Err(TranscodeError::TypeMismatch(0, _, FieldType::Utf8))));
}

#[test]
fn extra_keys_are_ignored() {
    let s = schema(vec![field("text", FieldType::Utf8)]);
    let records = vec![vec![sym("other", integer(1)), sym("text", text("kept")), plain("more", Value::Bool(false))]];
    let out = decode(&encode(&records, &s).unwrap()).unwrap();
    assert_eq!(out[0], vec![("text".to_string(), Cell::Utf8("kept".to_string()))]);
}

#[test]
fn symbol_key_wins_over_plain_string() {
    let s = schema(vec![field("text", FieldType::Utf8)]);
    let records = vec![vec![plain("text", text("plain")), sym("text", text("symbol"))]];
    let out = decode(&encode(&records, &s).unwrap()).unwrap();
    assert_eq!(out[0][0].1, Cell::Utf8("symbol".to_string()));
}

fn one_column_batch(t: FieldType, data: Column, rows: usize) -> Batch {
    Batch { num_rows: rows, columns: vec![BatchColumn { field: field("c", t), data }] }
}

#[test]
fn column_of_wrong_length_is_corrupt() {
    let b = one_column_batch(FieldType::Int64, Column::Int64(vec![Some(1)]), 2);
    match decode(&b) {
        Err(TranscodeError::CorruptBatch(n)) => assert_eq!(n, "c"),
        other => panic!("expected CorruptBatch, got {:?}", other),
    }
}

#[test]
fn column_of_wrong_kind_is_corrupt() {
    let b = one_column_batch(FieldType::Utf8, Column::Boolean(vec![Some(true)]), 1);
    assert!(matches!(decode(&b), Err(TranscodeError::CorruptBatch(_))));
}

#[test]
fn vector_column_with_short_backing_array_is_corrupt() {
    let data = Column::Vector { dimension: 2, values: vec![0, 0, 0], validity: vec![true, true] };
    let b = one_column_batch(FieldType::Vector(2), data, 2);
    assert!(matches!(decode(&b), Err(TranscodeError::CorruptBatch(_))));
}

#[test]
fn first_corrupt_column_is_named() {
    let b = Batch {
        num_rows: 1,
        columns: vec![
            BatchColumn { field: field("ok", FieldType::Boolean), data: Column::Boolean(vec![None]) },
            BatchColumn { field: field("bad1", FieldType::Int32), data: Column::Int32(vec![]) },
            BatchColumn { field: field("bad2", FieldType::Int64), data: Column::Int32(vec![]) },
        ],
    };
    match decode(&b) {
        Err(TranscodeError::CorruptBatch(n)) => assert_eq!(n, "bad1"),
        other => panic!("expected CorruptBatch, got {:?}", other),
    }
}

#[test]
fn unreadable_columns_are_skipped() {
    let b = Batch {
        num_rows: 1,
        columns: vec![
            BatchColumn { field: field("when", FieldType::Other), data: Column::Other },
            BatchColumn { field: field("n", FieldType::Int64), data: Column::Int64(vec![Some(42)]) },
        ],
    };
    let out = decode(&b).unwrap();
    assert_eq!(out, vec![vec![("n".to_string(), Cell::Int64(42))]]);
}

#[test]
fn batches_decode_one_after_another() {
    let s = schema(vec![field("n", FieldType::Int64)]);
    let a = encode(&vec![vec![sym("n", integer(1))], vec![sym("n", integer(2))]], &s).unwrap();
    let b = encode(&vec![vec![sym("n", integer(3))]], &s).unwrap();
    let out = decode_all(&vec![a, b]).unwrap();
    let got: Vec<Cell> = out.iter().map(|r| r[0].1.clone()).collect();
    assert_eq!(got, vec![Cell::Int64(1), Cell::Int64(2), Cell::Int64(3)]);
    assert!(decode_all(&vec![]).unwrap().is_empty());
}

#[test]
fn corrupt_batch_stops_decoding_all() {
    let s = schema(vec![field("n", FieldType::Int64)]);
    let good = encode(&vec![vec![sym("n", integer(1))]], &s).unwrap();
    let bad = one_column_batch(FieldType::Int64, Column::Int64(vec![]), 1);
    assert!(matches!(decode_all(&vec![good, bad]), Err(TranscodeError::CorruptBatch(_))));
}

#[test]
fn schema_validity_rejects_unreadable_types() {
    assert!(full_schema().is_valid());
    assert!(!schema(vec![field("x", FieldType::Other)]).is_valid());
    assert!(!schema(vec![field("v", FieldType::Vector(0))]).is_valid());
}

#[test]
fn duplicate_keeps_every_field() {
    let s = full_schema();
    assert_eq!(s.duplicate(), s);
}

#[test]
fn field_lookup_prefers_symbol_then_plain_string() {
    let entries = vec![plain("a", integer(1)), sym("b", integer(2)), sym("a", integer(3))];
    assert_eq!(lancelot::value::find_field(&entries, &"a".to_string()), Some(2));
    assert_eq!(lancelot::value::find_field(&entries, &"b".to_string()), Some(1));
    let only_plain = vec![sym("x", integer(0)), plain("a", integer(1))];
    assert_eq!(lancelot::value::find_field(&only_plain, &"a".to_string()), Some(1));
    assert_eq!(lancelot::value::find_field(&only_plain, &"zzz".to_string()), None);
}

#[test]
fn coerce_reads_each_number_at_its_column_precision() {
    let n = float(2.0);
    let name = "x".to_string();
    assert_eq!(lancelot::coerce(0, &name, FieldType::Float32, &n).unwrap(), Cell::Float32(2.0f32.to_bits()));
    assert_eq!(lancelot::coerce(0, &name, FieldType::Float64, &n).unwrap(), Cell::Float64(2.0f64.to_bits()));
    assert_eq!(lancelot::coerce(0, &name, FieldType::Int64, &integer(-9)).unwrap(), Cell::Int64(-9));
    assert_eq!(lancelot::coerce(4, &name, FieldType::Utf8, &Value::Null).unwrap(), Cell::Null);
    assert_eq!(
        lancelot::coerce(4, &name, FieldType::Other, &integer(1)),
        Err(TranscodeError::TypeMismatch(4, "x".to_string(), FieldType::Other))
    );
}
