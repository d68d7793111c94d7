use vstd::arithmetic::div_mod::{lemma_basic_div, lemma_div_denominator, lemma_fundamental_div_mod};
use vstd::arithmetic::power::{lemma_pow0, lemma_pow_positive, pow};
use vstd::prelude::*;

use crate::value::{ArrayValue, Kind, Record, Records, SchemaRef, Value};

verus! {

/// One field of an outgoing data row, as the wire encoder takes it: a native
/// wire type, a text field, or the null marker.
///
/// Floating-point fields carry their bit patterns; temporal fields carry the
/// integers described at [`Value`].
#[derive(Debug)]
pub enum WireField {
    Null,
    Bool(bool),
    TinyInt(i8),
    SmallInt(i16),
    Integer(i32),
    BigInt(i64),
    Oid(u32),
    Float(u32),
    Double(u64),
    Text(String),
    Bytes(Vec<u8>),
    Date(i32),
    Time(i64),
    Timestamp(i64),
    TimestampWithTimeZone(i64),
    Array(ArrayValue),
}

/// A value that the wire protocol cannot carry.
#[derive(Clone, Copy, PartialEq, Eq, Structural, Debug)]
pub enum EncodeError {
    Unsupported(Kind),
}

/// The lowercase hexadecimal digit of `n`, for `0 <= n < 16`.
pub open spec fn hex_digit(n: int) -> char {
    seq!['0', '1', '2', '3', '4', '5', '6', '7', '8', '9', 'a', 'b', 'c', 'd', 'e', 'f'][n]
}

/// The `d`-th of the 32 hexadecimal digits of `u`, most significant first.
pub open spec fn uuid_digit(u: u128, d: int) -> char {
    hex_digit((u as int / pow(16, (31 - d) as nat)) % 16)
}

/// The hyphenated form of a UUID: 36 characters, its digits in groups of 8,
/// 4, 4, 4 and 12 separated by `-`.
pub open spec fn hyphenated(u: u128) -> Seq<char> {
    Seq::new(
        36,
        |k: int|
            if k == 8 || k == 13 || k == 18 || k == 23 {
                '-'
            } else if k < 8 {
                uuid_digit(u, k)
            } else if k < 13 {
                uuid_digit(u, k - 1)
            } else if k < 18 {
                uuid_digit(u, k - 2)
            } else if k < 23 {
                uuid_digit(u, k - 3)
            } else {
                uuid_digit(u, k - 4)
            },
    )
}

/// Relies on uuid's `Uuid::from_u128` (the number's big-endian bytes) and on
/// its `Display` impl, which writes the hyphenated lowercase form.
#[verifier::external_body]
fn uuid_text(u: u128) -> (r: String)
    ensures
        r@ == hyphenated(u),
{
    uuid::Uuid::from_u128(u).to_string()
}

/// Relies on std's `ToString` for `char`: a string of that one character.
#[verifier::external_body]
fn char_text(c: char) -> (r: String)
    ensures
        r@ == seq![c],
{
    c.to_string()
}

/// The number formed by the first `k` hexadecimal digits of `u`.
spec fn leading_digits(u: u128, k: nat) -> int {
    u as int / pow(16, (32 - k) as nat)
}

proof fn lemma_leading_digits_step(u: u128, k: nat)
    requires
        k < 32,
    ensures
        leading_digits(u, k + 1) == leading_digits(u, k) * 16 + (u as int / pow(16, (31 - k) as nat)) % 16,
        0 <= (u as int / pow(16, (31 - k) as nat)) % 16 < 16,
{
    let p = pow(16, (31 - k) as nat);
    lemma_pow_positive(16, (31 - k) as nat);
    reveal(pow);
    assert((32 - k) as nat == (31 - k) as nat + 1);
    assert(pow(16, (32 - k) as nat) == 16 * p);
    let x = u as int / p;
    lemma_div_denominator(u as int, p, 16);
    assert(p * 16 == 16 * p) by (nonlinear_arith);
    lemma_fundamental_div_mod(x, 16);
}

proof fn lemma_hex_digit_injective(a: int, b: int)
    requires
        0 <= a < 16,
        0 <= b < 16,
        hex_digit(a) == hex_digit(b),
    ensures
        a == b,
{
}

proof fn lemma_leading_digits_agree(u: u128, v: u128, k: nat)
    requires
        k <= 32,
        forall|d: int| 0 <= d < 32 ==> uuid_digit(u, d) == uuid_digit(v, d),
    ensures
        leading_digits(u, k) == leading_digits(v, k),
    decreases k,
{
    if k == 0 {
        reveal_with_fuel(pow, 33);
        assert(pow(16, 32) == 0x1_0000_0000_0000_0000_0000_0000_0000_0000int);
        lemma_basic_div(u as int, pow(16, 32));
        lemma_basic_div(v as int, pow(16, 32));
    } else {
        let j = (k - 1) as nat;
        lemma_leading_digits_agree(u, v, j);
        lemma_leading_digits_step(u, j);
        lemma_leading_digits_step(v, j);
        assert(uuid_digit(u, j as int) == uuid_digit(v, j as int));
        lemma_hex_digit_injective(
            (u as int / pow(16, (31 - j) as nat)) % 16,
            (v as int / pow(16, (31 - j) as nat)) % 16,
        );
    }
}

/// The hyphenated form of a UUID is one-to-one: it determines the UUID.
pub proof fn lemma_hyphenated_injective(u: u128, v: u128)
    requires
        hyphenated(u) == hyphenated(v),
    ensures
        u == v,
{
    assert forall|d: int| 0 <= d < 32 implies uuid_digit(u, d) == uuid_digit(v, d) by {
        let k = if d < 8 {
            d
        } else if d < 12 {
            d + 1
        } else if d < 16 {
            d + 2
        } else if d < 20 {
            d + 3
        } else {
            d + 4
        };
        assert(hyphenated(u)[k] == uuid_digit(u, d));
        assert(hyphenated(v)[k] == uuid_digit(v, d));
    }
    lemma_leading_digits_agree(u, v, 32);
    lemma_pow0(16);
}

/// Whether `f` is the wire field that `v` is written as: the native wire
/// type where the protocol has one, the canonical text for numerics,
/// characters, addresses, intervals, JSON and UUIDs, and the null marker for
/// null.
pub open spec fn encodes(v: Value, f: WireField) -> bool {
    match v {
        Value::Null => f is Null,
        Value::Bool(b) => f == WireField::Bool(b),
        Value::Oid(x) => f == WireField::Oid(x),
        Value::TinyInt(x) => f == WireField::TinyInt(x),
        Value::SmallInt(x) => f == WireField::SmallInt(x),
        Value::Integer(x) => f == WireField::Integer(x),
        Value::BigInt(x) => f == WireField::BigInt(x),
        Value::Float(x) => f == WireField::Float(x),
        Value::Double(x) => f == WireField::Double(x),
        Value::Numeric(s) => f is Text && f->Text_0@ == s@,
        Value::Char(c) => f is Text && f->Text_0@ == seq![c],
        Value::VarChar(s) => f is Text && f->Text_0@ == s@,
        Value::Text(s) => f is Text && f->Text_0@ == s@,
        Value::Binary(b) => f == WireField::Bytes(b),
        Value::VarBinary(b) => f == WireField::Bytes(b),
        Value::Date(d) => f == WireField::Date(d),
        Value::Time(t) => f == WireField::Time(t),
        Value::TimeWithTimeZone(t) => f == WireField::Time(t),
        Value::Timestamp(t) => f == WireField::TimestampWithTimeZone(t),
        Value::PostgresTimestamp(t) => f == WireField::Timestamp(t),
        Value::TimestampWithTimeZone(t) => f == WireField::TimestampWithTimeZone(t),
        Value::IpAddr(s) => f is Text && f->Text_0@ == s@,
        Value::Interval(s) => f is Text && f->Text_0@ == s@,
        Value::Array(a) => f == WireField::Array(a),
        Value::Json(s) => f is Text && f->Text_0@ == s@,
        Value::JsonB(s) => f is Text && f->Text_0@ == s@,
        Value::Uuid(u) => f is Text && f->Text_0@ == hyphenated(u),
        Value::Enum(_) => false,
        Value::Hstore(_) => false,
    }
}

/// Whether two values hold the same content: text compared by its
/// characters, everything else by equality.
pub open spec fn same_content(a: Value, b: Value) -> bool {
    match (a, b) {
        (Value::Numeric(x), Value::Numeric(y)) => x@ == y@,
        (Value::VarChar(x), Value::VarChar(y)) => x@ == y@,
        (Value::Text(x), Value::Text(y)) => x@ == y@,
        (Value::IpAddr(x), Value::IpAddr(y)) => x@ == y@,
        (Value::Interval(x), Value::Interval(y)) => x@ == y@,
        (Value::Json(x), Value::Json(y)) => x@ == y@,
        (Value::JsonB(x), Value::JsonB(y)) => x@ == y@,
        _ => a == b,
    }
}

/// Encoding loses nothing within a kind: two values of the same kind that
/// are written as the same wire field hold the same content.
pub proof fn lemma_encoding_keeps_content(a: Value, b: Value, f: WireField)
    requires
        a.kind() == b.kind(),
        encodes(a, f),
        encodes(b, f),
    ensures
        same_content(a, b),
{
    if let Value::Char(x) = a {
        if let Value::Char(y) = b {
            assert(seq![x][0] == seq![y][0]);
        }
    }
    if let Value::Uuid(x) = a {
        if let Value::Uuid(y) = b {
            lemma_hyphenated_injective(x, y);
        }
    }
}

/// Chooses the wire field for one value; the reserved kinds are refused.
pub fn encode_value(v: Value) -> (r: Result<WireField, EncodeError>)
    ensures
        r is Err <==> v.is_reserved(),
        r is Ok ==> encodes(v, r->Ok_0),
        r is Err ==> r->Err_0 == EncodeError::Unsupported(v.kind()),
{
    match v {
        Value::Null => Ok(WireField::Null),
        Value::Bool(b) => Ok(WireField::Bool(b)),
        Value::Oid(x) => Ok(WireField::Oid(x)),
        Value::TinyInt(x) => Ok(WireField::TinyInt(x)),
        Value::SmallInt(x) => Ok(WireField::SmallInt(x)),
        Value::Integer(x) => Ok(WireField::Integer(x)),
        Value::BigInt(x) => Ok(WireField::BigInt(x)),
        Value::Float(x) => Ok(WireField::Float(x)),
        Value::Double(x) => Ok(WireField::Double(x)),
        Value::Numeric(s) => Ok(WireField::Text(s)),
        Value::Char(c) => Ok(WireField::Text(char_text(c))),
        Value::VarChar(s) => Ok(WireField::Text(s)),
        Value::Text(s) => Ok(WireField::Text(s)),
        Value::Binary(b) => Ok(WireField::Bytes(b)),
        Value::VarBinary(b) => Ok(WireField::Bytes(b)),
        Value::Date(d) => Ok(WireField::Date(d)),
        Value::Time(t) => Ok(WireField::Time(t)),
        Value::TimeWithTimeZone(t) => Ok(WireField::Time(t)),
        Value::Timestamp(t) => Ok(WireField::TimestampWithTimeZone(t)),
        Value::PostgresTimestamp(t) => Ok(WireField::Timestamp(t)),
        Value::TimestampWithTimeZone(t) => Ok(WireField::TimestampWithTimeZone(t)),
        Value::IpAddr(s) => Ok(WireField::Text(s)),
        Value::Interval(s) => Ok(WireField::Text(s)),
        Value::Array(a) => Ok(WireField::Array(a)),
        Value::Json(s) => Ok(WireField::Text(s)),
        Value::JsonB(s) => Ok(WireField::Text(s)),
        Value::Uuid(u) => Ok(WireField::Text(uuid_text(u))),
        Value::Enum(_) => Err(EncodeError::Unsupported(Kind::Enum)),
        Value::Hstore(_) => Err(EncodeError::Unsupported(Kind::Hstore)),
    }
}

/// Whether `fields` is a row of values written field by field in order.
pub open spec fn encodes_row(values: Seq<Value>, fields: Seq<WireField>) -> bool {
    fields.len() == values.len() && forall|i: int|
        0 <= i < values.len() ==> encodes(#[trigger] values[i], fields[i])
}

/// Whether `e` is the error of the first reserved value among `values`.
pub open spec fn first_refusal(values: Seq<Value>, e: EncodeError) -> bool {
    exists|i: int|
        0 <= i < values.len() && (#[trigger] values[i]).is_reserved() && e
            == EncodeError::Unsupported(values[i].kind()) && forall|j: int|
            0 <= j < i ==> !(#[trigger] values[j]).is_reserved()
}

/// Writes the values of one record as wire fields, in schema order; fails
/// on the first value of a reserved kind.
pub fn encode_values(values: Vec<Value>) -> (r: Result<Vec<WireField>, EncodeError>)
    ensures
        r is Ok <==> forall|i: int| 0 <= i < values@.len() ==> !(#[trigger] values@[i]).is_reserved(),
        r is Ok ==> encodes_row(values@, r->Ok_0@),
        r is Err ==> first_refusal(values@, r->Err_0),
{
    let ghost all = values@;
    let n = values.len();
    let mut rest = values;
    let mut fields: Vec<WireField> = Vec::new();
    let mut i: usize = 0;
    while i < n
        invariant
            all == values@,
            n == all.len(),
            i <= n,
            rest@ == all.subrange(i as int, n as int),
            fields@.len() == i,
            forall|j: int| 0 <= j < i ==> encodes(#[trigger] all[j], fields@[j]),
            forall|j: int| 0 <= j < i ==> !(#[trigger] all[j]).is_reserved(),
        decreases n - i,
    {
        let v = rest.remove(0);
        assert(v == all[i as int]);
        match encode_value(v) {
            Ok(f) => fields.push(f),
            Err(e) => {
                assert(all[i as int].is_reserved());
                return Err(e);
            },
        }
        i = i + 1;
    }
    Ok(fields)
}

/// The rows of a response: the schema whose column metadata is sent first,
/// then one outcome per row in source order.
#[derive(Debug)]
pub struct QueryRows {
    pub schema: SchemaRef,
    pub rows: Vec<Result<Vec<WireField>, EncodeError>>,
}

/// Whether `out` is the outcome of writing `values` as one row.
pub open spec fn row_outcome(values: Seq<Value>, out: Result<Vec<WireField>, EncodeError>) -> bool {
    match out {
        Ok(fields) => encodes_row(values, fields@),
        Err(e) => first_refusal(values, e),
    }
}

/// Encodes a materialised result set row by row, keeping the row order; a
/// row that holds a reserved kind becomes an error in its own place.
pub fn records_to_query_response(records: Records) -> (r: QueryRows)
    ensures
        r.schema == records.schema,
        r.rows@.len() == records.records@.len(),
        forall|i: int|
            0 <= i < records.records@.len() ==> row_outcome(
                (#[trigger] records.records@[i]).values@,
                r.rows@[i],
            ),
{
    let Records { records: all_records, schema } = records;
    let ghost all = all_records@;
    let n = all_records.len();
    let mut rest = all_records;
    let mut rows: Vec<Result<Vec<WireField>, EncodeError>> = Vec::new();
    let mut i: usize = 0;
    while i < n
        invariant
            n == all.len(),
            i <= n,
            rest@ == all.subrange(i as int, n as int),
            rows@.len() == i,
            forall|j: int| 0 <= j < i ==> row_outcome((#[trigger] all[j]).values@, rows@[j]),
        decreases n - i,
    {
        let record = rest.remove(0);
        assert(record == all[i as int]);
        rows.push(encode_values(record.values));
        i = i + 1;
    }
    QueryRows { schema, rows }
}

/// Encodes one record as a data row.
pub fn encode_record(record: Record) -> (r: Result<Vec<WireField>, EncodeError>)
    ensures
        row_outcome(record.values@, r),
{
    encode_values(record.values)
}

} // verus!
