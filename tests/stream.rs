use std::sync::Arc;

use peer_bridge::decode::{Cell, DecodeError, Rule};
use peer_bridge::encode::{EncodeError, WireField};
use peer_bridge::stream::{encode_stream_item, run_stream, PgRecordStream, ResponseError, RowEvent, Step, StreamError};
use peer_bridge::value::{Column, FieldFormat, Kind, Record, Schema, Value};

fn schema() -> Arc<Schema> {
    Arc::new(Schema {
        columns: vec![Column { name: "n".to_string(), type_oid: 23, format: FieldFormat::Binary }],
    })
}

fn row(x: i32) -> RowEvent {
    RowEvent::Row { rules: vec![Rule::Integer], cells: vec![Cell::Int4(x)] }
}

fn record_value(step: &Step) -> i32 {
    match step {
        Step::Ready(Some(Ok(rec))) => {
            assert_eq!(rec.values.len(), 1);
            match rec.values[0] {
                Value::Integer(x) => x,
                _ => panic!("expected an integer"),
            }
        }
        _ => panic!("expected a record"),
    }
}

#[test]
fn rows_come_out_in_order_then_end() {
    let s = schema();
    let mut stream = PgRecordStream::new(s.clone());
    assert!(Arc::ptr_eq(&stream.schema(), &s));
    let mut seen = vec![];
    for x in [10, 20, 30] {
        seen.push(record_value(&stream.poll_next(row(x))));
    }
    assert_eq!(seen, vec![10, 20, 30]);
    assert!(matches!(stream.poll_next(RowEvent::End), Step::Ready(None)));
    assert!(matches!(stream.poll_next(row(40)), Step::Ready(None)));
}

#[test]
fn empty_backend_result_ends_at_once() {
    let mut stream = PgRecordStream::new(schema());
    assert!(matches!(stream.poll_next(RowEvent::End), Step::Ready(None)));
}

#[test]
fn pending_delivers_nothing() {
    let mut stream = PgRecordStream::new(schema());
    assert!(matches!(stream.poll_next(RowEvent::Pending), Step::Pending));
    assert_eq!(record_value(&stream.poll_next(row(1))), 1);
}

#[test]
fn a_failed_row_does_not_touch_earlier_rows() {
    let mut stream = PgRecordStream::new(schema());
    let first = stream.poll_next(row(1));
    let second = stream.poll_next(RowEvent::Failed("connection reset".to_string()));
    let third = stream.poll_next(RowEvent::Undecodable(DecodeError::UnsupportedType(142)));
    let fourth = stream.poll_next(row(4));
    assert_eq!(record_value(&first), 1);
    assert!(matches!(second, Step::Ready(Some(Err(StreamError::Backend(ref m)))) if m == "connection reset"));
    assert!(matches!(third, Step::Ready(Some(Err(StreamError::Decode(DecodeError::UnsupportedType(142)))))));
    assert_eq!(record_value(&fourth), 4);
}

#[test]
fn rows_of_the_wrong_shape_are_errors() {
    let mut stream = PgRecordStream::new(schema());
    let wide = RowEvent::Row { rules: vec![Rule::Integer, Rule::Integer], cells: vec![Cell::Int4(1), Cell::Int4(2)] };
    assert!(matches!(stream.poll_next(wide), Step::Ready(Some(Err(StreamError::Width { columns: 2, width: 1 })))));
    let misfit = RowEvent::Row { rules: vec![Rule::Integer], cells: vec![Cell::Bool(true)] };
    assert!(matches!(stream.poll_next(misfit), Step::Ready(Some(Err(StreamError::CellMismatch)))));
}

#[test]
fn stream_items_encode_or_pass_errors_on() {
    let s = schema();
    let ok = encode_stream_item(Ok(Record { values: vec![Value::Integer(3)], schema: s.clone() })).unwrap();
    assert!(matches!(ok[0], WireField::Integer(3)));
    let refused = encode_stream_item(Ok(Record { values: vec![Value::Enum("e".to_string())], schema: s }));
    assert!(matches!(refused, Err(ResponseError::Encode(EncodeError::Unsupported(Kind::Enum)))));
    let failed = encode_stream_item(Err(StreamError::Backend("gone".to_string())));
    assert!(matches!(failed, Err(ResponseError::Stream(StreamError::Backend(ref m))) if m == "gone"));
}

#[test]
fn running_over_rows_then_end_gives_each_record_once_in_order() {
    let events = vec![row(7), row(8), RowEvent::Pending, row(9), RowEvent::End, row(10)];
    let outs = run_stream(schema(), events);
    assert_eq!(outs.len(), 6);
    assert_eq!(record_value(&outs[0]), 7);
    assert_eq!(record_value(&outs[1]), 8);
    assert!(matches!(outs[2], Step::Pending));
    assert_eq!(record_value(&outs[3]), 9);
    assert!(matches!(outs[4], Step::Ready(None)));
    assert!(matches!(outs[5], Step::Ready(None)));
    assert!(run_stream(schema(), vec![]).is_empty());
}
