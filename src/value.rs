use vstd::prelude::*;

verus! {

/// The elements of a homogeneous array value, one vector per element kind.
///
/// Floating-point elements are held as their IEEE-754 bit patterns.
#[derive(Debug)]
pub enum ArrayValue {
    SmallInt(Vec<i16>),
    Integer(Vec<i32>),
    BigInt(Vec<i64>),
    Float(Vec<u32>),
    Double(Vec<u64>),
    Numeric(Vec<String>),
    VarChar(Vec<String>),
    VarBinary(Vec<Vec<u8>>),
}

/// One cell of a record, in the canonical value model.
///
/// Temporal values are held as plain integers: a date as days since
/// 1970-01-01, a time of day as microseconds since midnight, and a timestamp
/// as microseconds since 1970-01-01 00:00:00 (UTC for the zoned flavour).
/// Floating-point values are held as their IEEE-754 bit patterns, a UUID as
/// its 128-bit big-endian number, and a numeric as its exact decimal text.
#[derive(Debug)]
pub enum Value {
    Null,
    Bool(bool),
    Oid(u32),
    TinyInt(i8),
    SmallInt(i16),
    Integer(i32),
    BigInt(i64),
    Float(u32),
    Double(u64),
    Numeric(String),
    Char(char),
    VarChar(String),
    Text(String),
    Binary(Vec<u8>),
    VarBinary(Vec<u8>),
    Date(i32),
    Time(i64),
    TimeWithTimeZone(i64),
    Timestamp(i64),
    PostgresTimestamp(i64),
    TimestampWithTimeZone(i64),
    IpAddr(String),
    Interval(String),
    Array(ArrayValue),
    Json(String),
    JsonB(String),
    Uuid(u128),
    Enum(String),
    Hstore(String),
}

/// The element kind of an array value.
#[derive(Clone, Copy, PartialEq, Eq, Structural, Debug)]
pub enum ElementKind {
    SmallInt,
    Integer,
    BigInt,
    Float,
    Double,
    Numeric,
    VarChar,
    VarBinary,
}

/// The canonical kind of a value: which variant of `Value` is active, and for
/// an array, the kind of its elements.
#[derive(Clone, Copy, PartialEq, Eq, Structural, Debug)]
pub enum Kind {
    Null,
    Bool,
    Oid,
    TinyInt,
    SmallInt,
    Integer,
    BigInt,
    Float,
    Double,
    Numeric,
    Char,
    VarChar,
    Text,
    Binary,
    VarBinary,
    Date,
    Time,
    TimeWithTimeZone,
    Timestamp,
    PostgresTimestamp,
    TimestampWithTimeZone,
    IpAddr,
    Interval,
    Array(ElementKind),
    Json,
    JsonB,
    Uuid,
    Enum,
    Hstore,
}

impl ArrayValue {
    pub open spec fn element_kind(&self) -> ElementKind {
        match self {
            ArrayValue::SmallInt(_) => ElementKind::SmallInt,
            ArrayValue::Integer(_) => ElementKind::Integer,
            ArrayValue::BigInt(_) => ElementKind::BigInt,
            ArrayValue::Float(_) => ElementKind::Float,
            ArrayValue::Double(_) => ElementKind::Double,
            ArrayValue::Numeric(_) => ElementKind::Numeric,
            ArrayValue::VarChar(_) => ElementKind::VarChar,
            ArrayValue::VarBinary(_) => ElementKind::VarBinary,
        }
    }
}

impl Value {
    pub open spec fn kind(&self) -> Kind {
        match self {
            Value::Null => Kind::Null,
            Value::Bool(_) => Kind::Bool,
            Value::Oid(_) => Kind::Oid,
            Value::TinyInt(_) => Kind::TinyInt,
            Value::SmallInt(_) => Kind::SmallInt,
            Value::Integer(_) => Kind::Integer,
            Value::BigInt(_) => Kind::BigInt,
            Value::Float(_) => Kind::Float,
            Value::Double(_) => Kind::Double,
            Value::Numeric(_) => Kind::Numeric,
            Value::Char(_) => Kind::Char,
            Value::VarChar(_) => Kind::VarChar,
            Value::Text(_) => Kind::Text,
            Value::Binary(_) => Kind::Binary,
            Value::VarBinary(_) => Kind::VarBinary,
            Value::Date(_) => Kind::Date,
            Value::Time(_) => Kind::Time,
            Value::TimeWithTimeZone(_) => Kind::TimeWithTimeZone,
            Value::Timestamp(_) => Kind::Timestamp,
            Value::PostgresTimestamp(_) => Kind::PostgresTimestamp,
            Value::TimestampWithTimeZone(_) => Kind::TimestampWithTimeZone,
            Value::IpAddr(_) => Kind::IpAddr,
            Value::Interval(_) => Kind::Interval,
            Value::Array(a) => Kind::Array(a.element_kind()),
            Value::Json(_) => Kind::Json,
            Value::JsonB(_) => Kind::JsonB,
            Value::Uuid(_) => Kind::Uuid,
            Value::Enum(_) => Kind::Enum,
            Value::Hstore(_) => Kind::Hstore,
        }
    }

    /// The kinds that have no encoding in the wire protocol.
    pub open spec fn is_reserved(&self) -> bool {
        self is Enum || self is Hstore
    }
}

/// How a column's values are laid out on the wire.
#[derive(Clone, Copy, PartialEq, Eq, Structural, Debug)]
pub enum FieldFormat {
    Text,
    Binary,
}

/// One column descriptor: its name, the backend type identifier it was
/// declared with, and its wire format.
#[derive(Debug)]
pub struct Column {
    pub name: String,
    pub type_oid: u32,
    pub format: FieldFormat,
}

/// The ordered column descriptors of one result set.
#[derive(Debug)]
pub struct Schema {
    pub columns: Vec<Column>,
}

impl Schema {
    pub open spec fn width(&self) -> nat {
        self.columns@.len()
    }

    pub fn len(&self) -> (r: usize)
        ensures
            r == self.width(),
    {
        self.columns.len()
    }
}

/// A shared, read-only handle on a schema.
pub type SchemaRef = std::sync::Arc<Schema>;

/// One row: values aligned by position with the columns of its schema.
#[derive(Debug)]
pub struct Record {
    pub values: Vec<Value>,
    pub schema: SchemaRef,
}

impl Record {
    /// The schema length invariant of a record.
    pub open spec fn aligned(&self) -> bool {
        self.values@.len() == self.schema.width()
    }
}

/// A finite, already materialised result set.
#[derive(Debug)]
pub struct Records {
    pub records: Vec<Record>,
    pub schema: SchemaRef,
}

} // verus!
