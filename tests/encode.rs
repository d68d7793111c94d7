use std::sync::Arc;

use peer_bridge::encode::{encode_value, encode_values, records_to_query_response, EncodeError, WireField};
use peer_bridge::value::{Column, FieldFormat, Kind, Record, Records, Schema, Value};

fn schema(n: usize) -> Arc<Schema> {
    let columns = (0..n)
        .map(|i| Column { name: format!("c{}", i), type_oid: 25, format: FieldFormat::Text })
        .collect();
    Arc::new(Schema { columns })
}

fn text(f: &WireField) -> String {
    match f {
        WireField::Text(s) => s.clone(),
        _ => panic!("expected a text field"),
    }
}

#[test]
fn reserved_enum_is_refused() {
    let r = encode_value(Value::Enum("happy".to_string()));
    assert!(matches!(r, Err(EncodeError::Unsupported(Kind::Enum))));
    let r = encode_value(Value::Hstore("a=>1".to_string()));
    assert!(matches!(r, Err(EncodeError::Unsupported(Kind::Hstore))));
}

#[test]
fn record_with_enum_is_refused_at_its_first_reserved_value() {
    let values = vec![Value::Bool(true), Value::Hstore("x".to_string()), Value::Enum("y".to_string())];
    assert!(matches!(encode_values(values), Err(EncodeError::Unsupported(Kind::Hstore))));
}

#[test]
fn numeric_survives_encoding_exactly() {
    let f = encode_value(Value::Numeric("12345678901234567890.123".to_string())).unwrap();
    assert_eq!(text(&f), "12345678901234567890.123");
}

#[test]
fn uuid_is_written_hyphenated() {
    let f = encode_value(Value::Uuid(0xa1a2a3a4b1b2c1c2d1d2d3d4d5d6d7d8)).unwrap();
    assert_eq!(text(&f), "a1a2a3a4-b1b2-c1c2-d1d2-d3d4d5d6d7d8");
    let f = encode_value(Value::Uuid(0)).unwrap();
    assert_eq!(text(&f), "00000000-0000-0000-0000-000000000000");
}

#[test]
fn char_is_written_as_text() {
    let f = encode_value(Value::Char('x')).unwrap();
    assert_eq!(text(&f), "x");
}

#[test]
fn native_kinds_keep_their_wire_type() {
    assert!(matches!(encode_value(Value::Null), Ok(WireField::Null)));
    assert!(matches!(encode_value(Value::Bool(false)), Ok(WireField::Bool(false))));
    assert!(matches!(encode_value(Value::TinyInt(-2)), Ok(WireField::TinyInt(-2))));
    assert!(matches!(encode_value(Value::Integer(42)), Ok(WireField::Integer(42))));
    assert!(matches!(encode_value(Value::Double(7)), Ok(WireField::Double(7))));
    assert!(matches!(encode_value(Value::PostgresTimestamp(5)), Ok(WireField::Timestamp(5))));
    assert!(matches!(encode_value(Value::TimeWithTimeZone(5)), Ok(WireField::Time(5))));
    assert!(matches!(encode_value(Value::Binary(vec![9])), Ok(WireField::Bytes(ref b)) if b == &vec![9u8]));
    assert_eq!(text(&encode_value(Value::JsonB("[1]".to_string())).unwrap()), "[1]");
    assert_eq!(text(&encode_value(Value::IpAddr("10.0.0.1".to_string())).unwrap()), "10.0.0.1");
}

#[test]
fn records_keep_their_order() {
    let s = schema(1);
    let records = (0..3)
        .map(|i| Record { values: vec![Value::Integer(i)], schema: s.clone() })
        .collect();
    let out = records_to_query_response(Records { records, schema: s.clone() });
    assert!(Arc::ptr_eq(&out.schema, &s));
    assert_eq!(out.rows.len(), 3);
    for (i, row) in out.rows.iter().enumerate() {
        let fields = row.as_ref().unwrap();
        assert!(matches!(fields[0], WireField::Integer(x) if x == i as i32));
    }
}

#[test]
fn empty_result_set_has_no_rows_but_keeps_its_schema() {
    let s = schema(2);
    let out = records_to_query_response(Records { records: vec![], schema: s.clone() });
    assert!(out.rows.is_empty());
    assert_eq!(out.schema.columns.len(), 2);
    assert_eq!(out.schema.columns[1].name, "c1");
}

#[test]
fn a_refused_row_stays_in_its_place() {
    let s = schema(1);
    let records = vec![
        Record { values: vec![Value::Integer(1)], schema: s.clone() },
        Record { values: vec![Value::Enum("e".to_string())], schema: s.clone() },
        Record { values: vec![Value::Integer(3)], schema: s.clone() },
    ];
    let out = records_to_query_response(Records { records, schema: s });
    assert!(out.rows[0].is_ok());
    assert!(matches!(out.rows[1], Err(EncodeError::Unsupported(Kind::Enum))));
    assert!(out.rows[2].is_ok());
}
