use peer_bridge::decode::{
    cells_fit, decode_cell, rule_for_type, rules_for_types, values_from_row, Cell, DecodeError,
    Rule,
};
use peer_bridge::value::{ArrayValue, Value};

#[test]
fn bool_and_null_integer_row() {
    let rules = rules_for_types(&vec![16, 23]).unwrap();
    assert_eq!(rules, vec![Rule::Bool, Rule::Integer]);
    let cells = vec![Cell::Bool(true), Cell::Null];
    assert!(cells_fit(&rules, &cells));
    let values = values_from_row(&rules, cells);
    assert_eq!(values.len(), 2);
    assert!(matches!(values[0], Value::Bool(true)));
    assert!(matches!(values[1], Value::Null));
}

#[test]
fn text_array_keeps_embedded_commas_and_spaces() {
    assert_eq!(rule_for_type(1015), Ok(Rule::VarCharArray));
    let cell = Cell::TextList(vec!["a, b".to_string(), " c ".to_string()]);
    match decode_cell(Rule::VarCharArray, cell) {
        Value::Array(ArrayValue::VarChar(v)) => {
            assert_eq!(v, vec!["a, b".to_string(), " c ".to_string()]);
        }
        _ => panic!("expected a varchar array"),
    }
}

#[test]
fn text_array_row_decodes_element_wise() {
    let rules = rules_for_types(&vec![1009]).unwrap();
    assert_eq!(rules, vec![Rule::VarCharArray]);
    let cells = vec![Cell::TextList(vec!["a, b".to_string(), " c ".to_string()])];
    assert!(cells_fit(&rules, &cells));
    let values = values_from_row(&rules, cells);
    assert_eq!(values.len(), 1);
    match &values[0] {
        Value::Array(ArrayValue::VarChar(v)) => {
            assert_eq!(v, &vec!["a, b".to_string(), " c ".to_string()]);
        }
        other => panic!("expected a varchar array, got {:?}", other),
    }
}

#[test]
fn numeric_is_kept_as_exact_text() {
    assert_eq!(rule_for_type(1700), Ok(Rule::Numeric));
    let v = decode_cell(Rule::Numeric, Cell::Text("12345678901234567890.123".to_string()));
    match v {
        Value::Numeric(s) => assert_eq!(s, "12345678901234567890.123"),
        _ => panic!("expected a numeric"),
    }
}

#[test]
fn name_like_and_degraded_types_read_as_text() {
    for oid in [19u32, 25, 1042, 1043, 2205, 869, 650, 1186, 600, 3614, 3220, 4532] {
        assert_eq!(rule_for_type(oid), Ok(Rule::Text), "oid {}", oid);
    }
    let v = decode_cell(Rule::Text, Cell::Text("(1,2)".to_string()));
    assert!(matches!(v, Value::Text(ref s) if s == "(1,2)"));
}

#[test]
fn json_and_jsonb_read_as_binary_json() {
    assert_eq!(rule_for_type(114), Ok(Rule::JsonB));
    assert_eq!(rule_for_type(3802), Ok(Rule::JsonB));
    let v = decode_cell(Rule::JsonB, Cell::Text("{\"a\":1}".to_string()));
    assert!(matches!(v, Value::JsonB(ref s) if s == "{\"a\":1}"));
}

#[test]
fn scalar_types_map_to_their_kinds() {
    assert!(matches!(decode_cell(Rule::SmallInt, Cell::Int2(-3)), Value::SmallInt(-3)));
    assert!(matches!(decode_cell(Rule::Integer, Cell::Int4(7)), Value::Integer(7)));
    assert!(matches!(decode_cell(Rule::BigInt, Cell::Int8(1 << 40)), Value::BigInt(x) if x == 1 << 40));
    assert!(matches!(decode_cell(Rule::Oid, Cell::Oid(26)), Value::Oid(26)));
    assert!(matches!(decode_cell(Rule::Float, Cell::Float4(0x3fc0_0000)), Value::Float(0x3fc0_0000)));
    assert!(matches!(decode_cell(Rule::Uuid, Cell::Uuid(5)), Value::Uuid(5)));
    assert!(matches!(decode_cell(Rule::PostgresTimestamp, Cell::Timestamp(9)), Value::PostgresTimestamp(9)));
    assert!(matches!(decode_cell(Rule::TimestampWithTimeZone, Cell::Timestamp(9)), Value::TimestampWithTimeZone(9)));
    assert!(matches!(decode_cell(Rule::TimeWithTimeZone, Cell::Time(4)), Value::TimeWithTimeZone(4)));
    assert!(matches!(decode_cell(Rule::Date, Cell::Date(-1)), Value::Date(-1)));
    assert!(matches!(decode_cell(Rule::VarBinary, Cell::Bytes(vec![1, 2])), Value::VarBinary(ref b) if b == &vec![1u8, 2]));
    assert_eq!(rule_for_type(27), Ok(Rule::Integer));
    assert_eq!(rule_for_type(30), Ok(Rule::IntegerArray));
}

#[test]
fn absent_cells_decode_to_null() {
    for rule in [Rule::Bool, Rule::Text, Rule::Numeric, Rule::IntegerArray, Rule::Uuid, Rule::Date] {
        assert!(matches!(decode_cell(rule, Cell::Null), Value::Null));
    }
}

#[test]
fn void_and_internal_are_null() {
    assert_eq!(rule_for_type(2278), Ok(Rule::AlwaysNull));
    assert_eq!(rule_for_type(2281), Ok(Rule::AlwaysNull));
    assert!(matches!(decode_cell(Rule::AlwaysNull, Cell::Text("x".to_string())), Value::Null));
}

#[test]
fn single_byte_characters() {
    assert!(matches!(decode_cell(Rule::Char, Cell::Char(65)), Value::Char('A')));
    assert!(matches!(decode_cell(Rule::Char, Cell::Char(-1)), Value::Char('\0')));
}

#[test]
fn unsupported_types_fail() {
    assert_eq!(rule_for_type(2277), Err(DecodeError::UnsupportedArray));
    assert_eq!(rule_for_type(142), Err(DecodeError::UnsupportedType(142)));
    assert_eq!(
        rules_for_types(&vec![16, 142, 2277]),
        Err(DecodeError::UnsupportedType(142))
    );
}

#[test]
fn wide_row_keeps_its_width() {
    let n = 1000;
    let rules = vec![Rule::BigInt; n];
    let cells: Vec<Cell> = (0..n as i64).map(Cell::Int8).collect();
    let values = values_from_row(&rules, cells);
    assert_eq!(values.len(), n);
    assert!(matches!(values[999], Value::BigInt(999)));
    assert!(values_from_row(&vec![], vec![]).is_empty());
}

#[test]
fn misfit_cells_are_detected() {
    assert!(!cells_fit(&vec![Rule::Bool], &vec![Cell::Int4(1)]));
    assert!(!cells_fit(&vec![Rule::Bool], &vec![]));
    assert!(cells_fit(&vec![Rule::Bool], &vec![Cell::Null]));
}
