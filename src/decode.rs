use vstd::prelude::*;

use crate::value::{ArrayValue, ElementKind, Kind, Value};

verus! {

/// How the cells of one backend type are read and which canonical kind they
/// become.
#[derive(Clone, Copy, PartialEq, Eq, Structural, Debug)]
pub enum Rule {
    Bool,
    Char,
    Text,
    VarCharArray,
    SmallInt,
    SmallIntArray,
    Integer,
    IntegerArray,
    BigInt,
    BigIntArray,
    Oid,
    Float,
    FloatArray,
    Double,
    DoubleArray,
    Numeric,
    NumericArray,
    VarBinary,
    VarBinaryArray,
    JsonB,
    Uuid,
    PostgresTimestamp,
    TimestampWithTimeZone,
    Date,
    Time,
    TimeWithTimeZone,
    AlwaysNull,
}

/// Why a column cannot be decoded.
#[derive(Clone, Copy, PartialEq, Eq, Structural, Debug)]
pub enum DecodeError {
    /// The backend type identifier has no rule.
    UnsupportedType(u32),
    /// A column of the polymorphic array pseudo-type.
    UnsupportedArray,
}

/// The rule for each backend type identifier.
///
/// Name-like and registry types, network addresses, intervals, geometric,
/// full-text-search, snapshot, log-sequence and range pseudo-types all read
/// as text; both JSON storage formats read as binary JSON; the void and
/// internal pseudo-types always give null.
pub open spec fn rule_of(oid: u32) -> Result<Rule, DecodeError> {
    match oid {
            16 => Ok(Rule::Bool),
            18 => Ok(Rule::Char),
            1043 | 25 | 1042 | 19 | 1003 | 24 | 2202 | 2203 | 2204 | 2205 | 2206 | 3734 | 3769
            | 4089 | 4096 | 4191 | 2207 | 2208 | 2209 | 2210 | 2211 | 3735 | 3770 | 4090 | 4097
            | 4192 | 869 | 650 | 1186 | 600 | 1017 | 628 | 629 | 601 | 1018 | 603 | 1020 | 604
            | 1027 | 718 | 719 | 2276 | 2279 | 2280 | 2283 | 2776 | 5077 | 5078 | 5079 | 4538 | 4537
            | 2970 | 2949 | 3115 | 3220 | 3221 | 5038 | 5039 | 5069 | 271 | 3614 | 3643 | 3615
            | 3645 | 4532 | 6151 | 4533 | 6152 | 4534 | 6153 | 4535 | 6155 | 4451 | 6150 | 4536
            | 6157 => Ok(Rule::Text),
            1009 | 1015 | 1014 => Ok(Rule::VarCharArray),
            21 => Ok(Rule::SmallInt),
            1005 => Ok(Rule::SmallIntArray),
            23 | 27 | 28 | 29 | 3361 | 3402 => Ok(Rule::Integer),
            1007 | 1010 | 1011 | 1012 | 30 | 1013 => Ok(Rule::IntegerArray),
            20 => Ok(Rule::BigInt),
            1016 => Ok(Rule::BigIntArray),
            26 => Ok(Rule::Oid),
            700 => Ok(Rule::Float),
            1021 => Ok(Rule::FloatArray),
            701 => Ok(Rule::Double),
            1022 => Ok(Rule::DoubleArray),
            1700 => Ok(Rule::Numeric),
            1231 => Ok(Rule::NumericArray),
            17 => Ok(Rule::VarBinary),
            1001 => Ok(Rule::VarBinaryArray),
            114 | 3802 => Ok(Rule::JsonB),
            2950 => Ok(Rule::Uuid),
            1114 => Ok(Rule::PostgresTimestamp),
            1184 => Ok(Rule::TimestampWithTimeZone),
            1082 => Ok(Rule::Date),
            1083 => Ok(Rule::Time),
            1266 => Ok(Rule::TimeWithTimeZone),
            2278 | 2281 => Ok(Rule::AlwaysNull),
            2277 => Err(DecodeError::UnsupportedArray),
            _ => Err(DecodeError::UnsupportedType(oid)),
    }
}

/// Looks up the rule for a backend type identifier.
pub fn rule_for_type(oid: u32) -> (r: Result<Rule, DecodeError>)
    ensures
        r == rule_of(oid),
{
    match oid {
            16 => Ok(Rule::Bool),
            18 => Ok(Rule::Char),
            1043 | 25 | 1042 | 19 | 1003 | 24 | 2202 | 2203 | 2204 | 2205 | 2206 | 3734 | 3769
            | 4089 | 4096 | 4191 | 2207 | 2208 | 2209 | 2210 | 2211 | 3735 | 3770 | 4090 | 4097
            | 4192 | 869 | 650 | 1186 | 600 | 1017 | 628 | 629 | 601 | 1018 | 603 | 1020 | 604
            | 1027 | 718 | 719 | 2276 | 2279 | 2280 | 2283 | 2776 | 5077 | 5078 | 5079 | 4538 | 4537
            | 2970 | 2949 | 3115 | 3220 | 3221 | 5038 | 5039 | 5069 | 271 | 3614 | 3643 | 3615
            | 3645 | 4532 | 6151 | 4533 | 6152 | 4534 | 6153 | 4535 | 6155 | 4451 | 6150 | 4536
            | 6157 => Ok(Rule::Text),
            1009 | 1015 | 1014 => Ok(Rule::VarCharArray),
            21 => Ok(Rule::SmallInt),
            1005 => Ok(Rule::SmallIntArray),
            23 | 27 | 28 | 29 | 3361 | 3402 => Ok(Rule::Integer),
            1007 | 1010 | 1011 | 1012 | 30 | 1013 => Ok(Rule::IntegerArray),
            20 => Ok(Rule::BigInt),
            1016 => Ok(Rule::BigIntArray),
            26 => Ok(Rule::Oid),
            700 => Ok(Rule::Float),
            1021 => Ok(Rule::FloatArray),
            701 => Ok(Rule::Double),
            1022 => Ok(Rule::DoubleArray),
            1700 => Ok(Rule::Numeric),
            1231 => Ok(Rule::NumericArray),
            17 => Ok(Rule::VarBinary),
            1001 => Ok(Rule::VarBinaryArray),
            114 | 3802 => Ok(Rule::JsonB),
            2950 => Ok(Rule::Uuid),
            1114 => Ok(Rule::PostgresTimestamp),
            1184 => Ok(Rule::TimestampWithTimeZone),
            1082 => Ok(Rule::Date),
            1083 => Ok(Rule::Time),
            1266 => Ok(Rule::TimeWithTimeZone),
            2278 | 2281 => Ok(Rule::AlwaysNull),
            2277 => Err(DecodeError::UnsupportedArray),
            _ => Err(DecodeError::UnsupportedType(oid)),
    }
}

/// What a backend row's typed accessor handed back for one cell, with
/// floating-point values as their bit patterns, a UUID as its 128-bit number
/// and temporal values as in [`Value`].
#[derive(Debug)]
pub enum Cell {
    Null,
    Bool(bool),
    Char(i8),
    Text(String),
    TextList(Vec<String>),
    Int2(i16),
    Int2List(Vec<i16>),
    Int4(i32),
    Int4List(Vec<i32>),
    Int8(i64),
    Int8List(Vec<i64>),
    Oid(u32),
    Float4(u32),
    Float4List(Vec<u32>),
    Float8(u64),
    Float8List(Vec<u64>),
    Bytes(Vec<u8>),
    BytesList(Vec<Vec<u8>>),
    Uuid(u128),
    Date(i32),
    Time(i64),
    Timestamp(i64),
}

impl Rule {
    /// The canonical kind that a non-null cell read by this rule becomes.
    pub open spec fn target(self) -> Kind {
        match self {
            Rule::Bool => Kind::Bool,
            Rule::Char => Kind::Char,
            Rule::Text => Kind::Text,
            Rule::VarCharArray => Kind::Array(ElementKind::VarChar),
            Rule::SmallInt => Kind::SmallInt,
            Rule::SmallIntArray => Kind::Array(ElementKind::SmallInt),
            Rule::Integer => Kind::Integer,
            Rule::IntegerArray => Kind::Array(ElementKind::Integer),
            Rule::BigInt => Kind::BigInt,
            Rule::BigIntArray => Kind::Array(ElementKind::BigInt),
            Rule::Oid => Kind::Oid,
            Rule::Float => Kind::Float,
            Rule::FloatArray => Kind::Array(ElementKind::Float),
            Rule::Double => Kind::Double,
            Rule::DoubleArray => Kind::Array(ElementKind::Double),
            Rule::Numeric => Kind::Numeric,
            Rule::NumericArray => Kind::Array(ElementKind::Numeric),
            Rule::VarBinary => Kind::VarBinary,
            Rule::VarBinaryArray => Kind::Array(ElementKind::VarBinary),
            Rule::JsonB => Kind::JsonB,
            Rule::Uuid => Kind::Uuid,
            Rule::PostgresTimestamp => Kind::PostgresTimestamp,
            Rule::TimestampWithTimeZone => Kind::TimestampWithTimeZone,
            Rule::Date => Kind::Date,
            Rule::Time => Kind::Time,
            Rule::TimeWithTimeZone => Kind::TimeWithTimeZone,
            Rule::AlwaysNull => Kind::Null,
        }
    }

    /// Whether a cell has the shape that this rule's accessor returns.
    pub open spec fn fits(self, cell: Cell) -> bool {
        match (self, cell) {
            (_, Cell::Null) => true,
            (Rule::AlwaysNull, _) => true,
            (Rule::Bool, Cell::Bool(_)) => true,
            (Rule::Char, Cell::Char(_)) => true,
            (Rule::Text, Cell::Text(_)) => true,
            (Rule::Numeric, Cell::Text(_)) => true,
            (Rule::JsonB, Cell::Text(_)) => true,
            (Rule::VarCharArray, Cell::TextList(_)) => true,
            (Rule::NumericArray, Cell::TextList(_)) => true,
            (Rule::SmallInt, Cell::Int2(_)) => true,
            (Rule::SmallIntArray, Cell::Int2List(_)) => true,
            (Rule::Integer, Cell::Int4(_)) => true,
            (Rule::IntegerArray, Cell::Int4List(_)) => true,
            (Rule::BigInt, Cell::Int8(_)) => true,
            (Rule::BigIntArray, Cell::Int8List(_)) => true,
            (Rule::Oid, Cell::Oid(_)) => true,
            (Rule::Float, Cell::Float4(_)) => true,
            (Rule::FloatArray, Cell::Float4List(_)) => true,
            (Rule::Double, Cell::Float8(_)) => true,
            (Rule::DoubleArray, Cell::Float8List(_)) => true,
            (Rule::VarBinary, Cell::Bytes(_)) => true,
            (Rule::VarBinaryArray, Cell::BytesList(_)) => true,
            (Rule::Uuid, Cell::Uuid(_)) => true,
            (Rule::PostgresTimestamp, Cell::Timestamp(_)) => true,
            (Rule::TimestampWithTimeZone, Cell::Timestamp(_)) => true,
            (Rule::Date, Cell::Date(_)) => true,
            (Rule::Time, Cell::Time(_)) => true,
            (Rule::TimeWithTimeZone, Cell::Time(_)) => true,
            _ => false,
        }
    }
}

/// The character a single-byte backend character stands for: its code point
/// when non-negative, else the NUL character.
pub open spec fn char_of_byte(c: i8) -> char {
    if c >= 0 {
        (c as u8) as char
    } else {
        '\0'
    }
}

/// The value that a cell, read by a rule it fits, decodes to.
pub open spec fn value_of(rule: Rule, cell: Cell) -> Value {
    match (rule, cell) {
        (Rule::AlwaysNull, _) => Value::Null,
        (_, Cell::Null) => Value::Null,
        (_, Cell::Bool(b)) => Value::Bool(b),
        (_, Cell::Char(c)) => Value::Char(char_of_byte(c)),
        (Rule::Numeric, Cell::Text(s)) => Value::Numeric(s),
        (Rule::JsonB, Cell::Text(s)) => Value::JsonB(s),
        (_, Cell::Text(s)) => Value::Text(s),
        (Rule::NumericArray, Cell::TextList(v)) => Value::Array(ArrayValue::Numeric(v)),
        (_, Cell::TextList(v)) => Value::Array(ArrayValue::VarChar(v)),
        (_, Cell::Int2(x)) => Value::SmallInt(x),
        (_, Cell::Int2List(v)) => Value::Array(ArrayValue::SmallInt(v)),
        (_, Cell::Int4(x)) => Value::Integer(x),
        (_, Cell::Int4List(v)) => Value::Array(ArrayValue::Integer(v)),
        (_, Cell::Int8(x)) => Value::BigInt(x),
        (_, Cell::Int8List(v)) => Value::Array(ArrayValue::BigInt(v)),
        (_, Cell::Oid(x)) => Value::Oid(x),
        (_, Cell::Float4(x)) => Value::Float(x),
        (_, Cell::Float4List(v)) => Value::Array(ArrayValue::Float(v)),
        (_, Cell::Float8(x)) => Value::Double(x),
        (_, Cell::Float8List(v)) => Value::Array(ArrayValue::Double(v)),
        (_, Cell::Bytes(b)) => Value::VarBinary(b),
        (_, Cell::BytesList(v)) => Value::Array(ArrayValue::VarBinary(v)),
        (_, Cell::Uuid(u)) => Value::Uuid(u),
        (Rule::TimestampWithTimeZone, Cell::Timestamp(t)) => Value::TimestampWithTimeZone(t),
        (_, Cell::Timestamp(t)) => Value::PostgresTimestamp(t),
        (_, Cell::Date(d)) => Value::Date(d),
        (Rule::TimeWithTimeZone, Cell::Time(t)) => Value::TimeWithTimeZone(t),
        (_, Cell::Time(t)) => Value::Time(t),
    }
}

/// Decodes one cell read by the rule of its column.
pub fn decode_cell(rule: Rule, cell: Cell) -> (v: Value)
    requires
        rule.fits(cell),
    ensures
        v == value_of(rule, cell),
{
    match (rule, cell) {
        (Rule::AlwaysNull, _) => Value::Null,
        (_, Cell::Null) => Value::Null,
        (_, Cell::Bool(b)) => Value::Bool(b),
        (_, Cell::Char(c)) => {
            if c >= 0 {
                Value::Char((c as u8) as char)
            } else {
                Value::Char('\0')
            }
        },
        (Rule::Numeric, Cell::Text(s)) => Value::Numeric(s),
        (Rule::JsonB, Cell::Text(s)) => Value::JsonB(s),
        (_, Cell::Text(s)) => Value::Text(s),
        (Rule::NumericArray, Cell::TextList(v)) => Value::Array(ArrayValue::Numeric(v)),
        (_, Cell::TextList(v)) => Value::Array(ArrayValue::VarChar(v)),
        (_, Cell::Int2(x)) => Value::SmallInt(x),
        (_, Cell::Int2List(v)) => Value::Array(ArrayValue::SmallInt(v)),
        (_, Cell::Int4(x)) => Value::Integer(x),
        (_, Cell::Int4List(v)) => Value::Array(ArrayValue::Integer(v)),
        (_, Cell::Int8(x)) => Value::BigInt(x),
        (_, Cell::Int8List(v)) => Value::Array(ArrayValue::BigInt(v)),
        (_, Cell::Oid(x)) => Value::Oid(x),
        (_, Cell::Float4(x)) => Value::Float(x),
        (_, Cell::Float4List(v)) => Value::Array(ArrayValue::Float(v)),
        (_, Cell::Float8(x)) => Value::Double(x),
        (_, Cell::Float8List(v)) => Value::Array(ArrayValue::Double(v)),
        (_, Cell::Bytes(b)) => Value::VarBinary(b),
        (_, Cell::BytesList(v)) => Value::Array(ArrayValue::VarBinary(v)),
        (_, Cell::Uuid(u)) => Value::Uuid(u),
        (Rule::TimestampWithTimeZone, Cell::Timestamp(t)) => Value::TimestampWithTimeZone(t),
        (_, Cell::Timestamp(t)) => Value::PostgresTimestamp(t),
        (_, Cell::Date(d)) => Value::Date(d),
        (Rule::TimeWithTimeZone, Cell::Time(t)) => Value::TimeWithTimeZone(t),
        (_, Cell::Time(t)) => Value::Time(t),
    }
}

/// Decoding a cell of a supported backend type gives the canonical kind that
/// the type's rule documents, and an absent cell gives null.
pub proof fn lemma_decoded_kind(oid: u32, cell: Cell)
    requires
        rule_of(oid) is Ok,
        rule_of(oid)->Ok_0.fits(cell),
    ensures
        cell is Null ==> value_of(rule_of(oid)->Ok_0, cell) is Null,
        !(cell is Null) ==> value_of(rule_of(oid)->Ok_0, cell).kind() == rule_of(oid)->Ok_0.target(),
{
}

/// Looks up the rule of each column of a row, stopping at the first column
/// whose type has none.
pub fn rules_for_types(types: &Vec<u32>) -> (r: Result<Vec<Rule>, DecodeError>)
    ensures
        r is Ok <==> forall|i: int| 0 <= i < types@.len() ==> rule_of(#[trigger] types@[i]) is Ok,
        r is Ok ==> r->Ok_0@.len() == types@.len() && forall|i: int|
            0 <= i < types@.len() ==> rule_of(#[trigger] types@[i]) == Ok::<Rule, DecodeError>(
                r->Ok_0@[i],
            ),
        r is Err ==> exists|i: int|
            0 <= i < types@.len() && rule_of(#[trigger] types@[i]) == Err::<Rule, DecodeError>(
                r->Err_0,
            ) && forall|j: int| 0 <= j < i ==> rule_of(#[trigger] types@[j]) is Ok,
{
    let mut rules: Vec<Rule> = Vec::new();
    let mut i: usize = 0;
    while i < types.len()
        invariant
            i <= types@.len(),
            rules@.len() == i,
            forall|j: int| 0 <= j < i ==> rule_of(#[trigger] types@[j]) == Ok::<Rule, DecodeError>(rules@[j]),
        decreases types@.len() - i,
    {
        match rule_for_type(types[i]) {
            Ok(rule) => rules.push(rule),
            Err(e) => {
                assert(forall|j: int| 0 <= j < i ==> rule_of(#[trigger] types@[j]) is Ok);
                return Err(e);
            },
        }
        i = i + 1;
    }
    Ok(rules)
}

/// Decodes one backend row, given the rule of each column and the cell that
/// the rule's accessor read from it.
pub fn values_from_row(rules: &Vec<Rule>, cells: Vec<Cell>) -> (r: Vec<Value>)
    requires
        rules@.len() == cells@.len(),
        forall|i: int| 0 <= i < cells@.len() ==> #[trigger] rules@[i].fits(cells@[i]),
    ensures
        r@.len() == cells@.len(),
        forall|i: int| 0 <= i < cells@.len() ==> r@[i] == value_of(rules@[i], #[trigger] cells@[i]),
{
    let ghost all = cells@;
    let mut rest = cells;
    let mut values: Vec<Value> = Vec::new();
    let mut i: usize = 0;
    while i < rules.len()
        invariant
            rules@.len() == all.len(),
            i <= all.len(),
            rest@ == all.subrange(i as int, all.len() as int),
            values@.len() == i,
            forall|j: int| 0 <= j < all.len() ==> #[trigger] rules@[j].fits(all[j]),
            forall|j: int| 0 <= j < i ==> values@[j] == value_of(rules@[j], #[trigger] all[j]),
        decreases all.len() - i,
    {
        let cell = rest.remove(0);
        assert(cell == all[i as int]);
        values.push(decode_cell(rules[i], cell));
        i = i + 1;
    }
    values
}

impl Rule {
    /// Tells whether a cell has the shape that this rule's accessor returns.
    pub fn accepts(&self, cell: &Cell) -> (r: bool)
        ensures
            r == self.fits(*cell),
    {
        match (self, cell) {
            (_, Cell::Null) => true,
            (Rule::AlwaysNull, _) => true,
            (Rule::Bool, Cell::Bool(_)) => true,
            (Rule::Char, Cell::Char(_)) => true,
            (Rule::Text, Cell::Text(_)) => true,
            (Rule::Numeric, Cell::Text(_)) => true,
            (Rule::JsonB, Cell::Text(_)) => true,
            (Rule::VarCharArray, Cell::TextList(_)) => true,
            (Rule::NumericArray, Cell::TextList(_)) => true,
            (Rule::SmallInt, Cell::Int2(_)) => true,
            (Rule::SmallIntArray, Cell::Int2List(_)) => true,
            (Rule::Integer, Cell::Int4(_)) => true,
            (Rule::IntegerArray, Cell::Int4List(_)) => true,
            (Rule::BigInt, Cell::Int8(_)) => true,
            (Rule::BigIntArray, Cell::Int8List(_)) => true,
            (Rule::Oid, Cell::Oid(_)) => true,
            (Rule::Float, Cell::Float4(_)) => true,
            (Rule::FloatArray, Cell::Float4List(_)) => true,
            (Rule::Double, Cell::Float8(_)) => true,
            (Rule::DoubleArray, Cell::Float8List(_)) => true,
            (Rule::VarBinary, Cell::Bytes(_)) => true,
            (Rule::VarBinaryArray, Cell::BytesList(_)) => true,
            (Rule::Uuid, Cell::Uuid(_)) => true,
            (Rule::PostgresTimestamp, Cell::Timestamp(_)) => true,
            (Rule::TimestampWithTimeZone, Cell::Timestamp(_)) => true,
            (Rule::Date, Cell::Date(_)) => true,
            (Rule::Time, Cell::Time(_)) => true,
            (Rule::TimeWithTimeZone, Cell::Time(_)) => true,
            _ => false,
        }
    }
}

/// Whether each cell of a row fits the rule of its column.
pub open spec fn row_fits(rules: Seq<Rule>, cells: Seq<Cell>) -> bool {
    rules.len() == cells.len() && forall|i: int| 0 <= i < cells.len() ==> #[trigger] rules[i].fits(cells[i])
}

/// Tells whether each cell of a row fits the rule of its column.
pub fn cells_fit(rules: &Vec<Rule>, cells: &Vec<Cell>) -> (r: bool)
    ensures
        r == row_fits(rules@, cells@),
{
    if rules.len() != cells.len() {
        return false;
    }
    let mut i: usize = 0;
    while i < cells.len()
        invariant
            rules@.len() == cells@.len(),
            i <= cells@.len(),
            forall|j: int| 0 <= j < i ==> #[trigger] rules@[j].fits(cells@[j]),
        decreases cells@.len() - i,
    {
        if !rules[i].accepts(&cells[i]) {
            return false;
        }
        i = i + 1;
    }
    true
}

} // verus!
