//! The values of a TOML document.

use crate::date_time::{Date, LocalTime, Time, TimeZoneOffset};
use crate::json::FloatText;
use vstd::prelude::*;

verus! {

/// Which kind of value a value is.
#[derive(Debug, Clone, Copy, PartialEq, Eq, Structural)]
pub enum ValueKind {
    Boolean,
    Integer,
    Float,
    String,
    OffsetDateTime,
    LocalDateTime,
    LocalDate,
    LocalTime,
    Array,
    Table,
}

impl ValueKind {
    /// The name of the kind.
    #[must_use]
    pub fn to_string(&self) -> (r: String)
        ensures
            r@ == (match self {
                ValueKind::Boolean => "Boolean"@,
                ValueKind::Integer => "Integer"@,
                ValueKind::Float => "Float"@,
                ValueKind::String => "String"@,
                ValueKind::OffsetDateTime => "OffsetDateTime"@,
                ValueKind::LocalDateTime => "LocalDateTime"@,
                ValueKind::LocalDate => "LocalDate"@,
                ValueKind::LocalTime => "LocalTime"@,
                ValueKind::Array => "Array"@,
                ValueKind::Table => "Table"@,
            }),
    {
        match self {
            Self::Boolean => "Boolean".to_owned(),
            Self::Integer => "Integer".to_owned(),
            Self::Float => "Float".to_owned(),
            Self::String => "String".to_owned(),
            Self::OffsetDateTime => "OffsetDateTime".to_owned(),
            Self::LocalDateTime => "LocalDateTime".to_owned(),
            Self::LocalDate => "LocalDate".to_owned(),
            Self::LocalTime => "LocalTime".to_owned(),
            Self::Array => "Array".to_owned(),
            Self::Table => "Table".to_owned(),
        }
    }
}

/// What a reader of values came upon where it expected something else.
/// It holds no more than is needed to tell the cases apart.
#[derive(Debug, Clone, Copy, PartialEq, Eq, Structural)]
pub enum UnexpectedKind {
    Bool,
    Unsigned,
    Signed,
    Float,
    Char,
    Str,
    Bytes,
    Unit,
    Option,
    NewtypeStruct,
    Sequence,
    Mapping,
    Enum,
    UnitVariant,
    NewtypeVariant,
    TupleVariant,
    StructVariant,
    Other,
}

impl ValueKind {
    /// The kind of value that stands for what was come upon, if one
    /// does: numbers are integers or floats, all that is text is a
    /// string, a sequence is an array and a map a table.
    pub fn try_from_unexpected(unexpected: UnexpectedKind) -> (r: Result<Self, UnexpectedKind>)
        ensures
            r == (match unexpected {
                UnexpectedKind::Bool => Ok(ValueKind::Boolean),
                UnexpectedKind::Unsigned => Ok(ValueKind::Integer),
                UnexpectedKind::Signed => Ok(ValueKind::Integer),
                UnexpectedKind::Float => Ok(ValueKind::Float),
                UnexpectedKind::Char => Ok(ValueKind::String),
                UnexpectedKind::Str => Ok(ValueKind::String),
                UnexpectedKind::Bytes => Ok(ValueKind::String),
                UnexpectedKind::Sequence => Ok(ValueKind::Array),
                UnexpectedKind::Mapping => Ok(ValueKind::Table),
                UnexpectedKind::StructVariant => Ok(ValueKind::String),
                _ => Err(unexpected),
            }),
    {
        match unexpected {
            UnexpectedKind::Bool => Ok(Self::Boolean),
            UnexpectedKind::Unsigned => Ok(Self::Integer),
            UnexpectedKind::Signed => Ok(Self::Integer),
            UnexpectedKind::Float => Ok(Self::Float),
            UnexpectedKind::Char => Ok(Self::String),
            UnexpectedKind::Str => Ok(Self::String),
            UnexpectedKind::Bytes => Ok(Self::String),
            UnexpectedKind::Sequence => Ok(Self::Array),
            UnexpectedKind::Mapping => Ok(Self::Table),
            UnexpectedKind::StructVariant => Ok(Self::String),
            UnexpectedKind::Unit
            | UnexpectedKind::Option
            | UnexpectedKind::NewtypeStruct
            | UnexpectedKind::Enum
            | UnexpectedKind::UnitVariant
            | UnexpectedKind::NewtypeVariant
            | UnexpectedKind::TupleVariant
            | UnexpectedKind::Other => Err(unexpected),
        }
    }
}

#[derive(Debug, Clone, Copy, PartialEq, Eq, Structural)]
pub struct Boolean {
    value: bool,
}

impl View for Boolean {
    type V = bool;

    closed spec fn view(&self) -> bool {
        self.value
    }
}

impl Boolean {
    #[inline]
    #[must_use]
    pub fn new(value: bool) -> (r: Self)
        ensures
            r@ == value,
    {
        Self { value }
    }

    #[inline]
    #[must_use]
    pub fn value(&self) -> (r: bool)
        ensures
            r == self@,
    {
        self.value
    }
}

#[derive(Debug, Clone, Copy, PartialEq, Eq, Structural)]
pub struct Integer {
    value: i64,
}

impl View for Integer {
    type V = i64;

    closed spec fn view(&self) -> i64 {
        self.value
    }
}

impl Integer {
    #[inline]
    #[must_use]
    pub fn new(value: i64) -> (r: Self)
        ensures
            r@ == value,
    {
        Self { value }
    }

    #[inline]
    #[must_use]
    pub fn value(&self) -> (r: i64)
        ensures
            r == self@,
    {
        self.value
    }
}

/// A date and a time with the offset of their time zone.
#[derive(Debug, Clone, Copy, PartialEq, Eq, Structural)]
pub struct OffsetDateTime {
    pub date: Date,
    pub time: Time,
    pub offset: TimeZoneOffset,
}

/// A date and a time without an offset.
#[derive(Debug, Clone, Copy, PartialEq, Eq, Structural)]
pub struct LocalDateTime {
    pub date: Date,
    pub time: Time,
}

/// A date without a time.
#[derive(Debug, Clone, Copy, PartialEq, Eq, Structural)]
pub struct LocalDate(pub Date);

/// A value of a document.
#[derive(Debug, PartialEq)]
pub enum Value {
    Boolean(Boolean),
    Integer(Integer),
    Float(FloatText),
    String(String),
    OffsetDateTime(OffsetDateTime),
    LocalDateTime(LocalDateTime),
    LocalDate(LocalDate),
    LocalTime(LocalTime),
    Array(Vec<Value>),
    Table(Vec<(String, Value)>),
}

impl Value {
    #[inline]
    #[must_use]
    pub fn kind(&self) -> (r: ValueKind)
        ensures
            r == (match self {
                Value::Boolean(_) => ValueKind::Boolean,
                Value::Integer(_) => ValueKind::Integer,
                Value::Float(_) => ValueKind::Float,
                Value::String(_) => ValueKind::String,
                Value::OffsetDateTime(_) => ValueKind::OffsetDateTime,
                Value::LocalDateTime(_) => ValueKind::LocalDateTime,
                Value::LocalDate(_) => ValueKind::LocalDate,
                Value::LocalTime(_) => ValueKind::LocalTime,
                Value::Array(_) => ValueKind::Array,
                Value::Table(_) => ValueKind::Table,
            }),
    {
        match self {
            Self::Boolean(_) => ValueKind::Boolean,
            Self::Integer(_) => ValueKind::Integer,
            Self::Float(_) => ValueKind::Float,
            Self::String(_) => ValueKind::String,
            Self::OffsetDateTime(_) => ValueKind::OffsetDateTime,
            Self::LocalDateTime(_) => ValueKind::LocalDateTime,
            Self::LocalDate(_) => ValueKind::LocalDate,
            Self::LocalTime(_) => ValueKind::LocalTime,
            Self::Array(_) => ValueKind::Array,
            Self::Table(_) => ValueKind::Table,
        }
    }

    /// What a reader that expected something else is told it came upon:
    /// a scalar by its sort, a date or time as something other, an array
    /// as a sequence and a table as a map.
    #[must_use]
    pub fn unexpected(&self) -> (r: UnexpectedKind)
        ensures
            r == (match self {
                Value::Boolean(_) => UnexpectedKind::Bool,
                Value::Integer(_) => UnexpectedKind::Signed,
                Value::Float(_) => UnexpectedKind::Float,
                Value::String(_) => UnexpectedKind::Str,
                Value::OffsetDateTime(_) => UnexpectedKind::Other,
                Value::LocalDateTime(_) => UnexpectedKind::Other,
                Value::LocalDate(_) => UnexpectedKind::Other,
                Value::LocalTime(_) => UnexpectedKind::Other,
                Value::Array(_) => UnexpectedKind::Sequence,
                Value::Table(_) => UnexpectedKind::Mapping,
            }),
    {
        match self {
            Self::Boolean(_) => UnexpectedKind::Bool,
            Self::Integer(_) => UnexpectedKind::Signed,
            Self::Float(_) => UnexpectedKind::Float,
            Self::String(_) => UnexpectedKind::Str,
            Self::OffsetDateTime(_) => UnexpectedKind::Other,
            Self::LocalDateTime(_) => UnexpectedKind::Other,
            Self::LocalDate(_) => UnexpectedKind::Other,
            Self::LocalTime(_) => UnexpectedKind::Other,
            Self::Array(_) => UnexpectedKind::Sequence,
            Self::Table(_) => UnexpectedKind::Mapping,
        }
    }
}

impl Value {
    /// Whether `other` holds what this value holds, all the way down.
    pub open spec fn same_as(&self, other: &Value) -> bool
        decreases self, 1nat,
    {
        match (self, other) {
            (Value::Boolean(a), Value::Boolean(b)) => a == b,
            (Value::Integer(a), Value::Integer(b)) => a == b,
            (Value::Float(a), Value::Float(b)) => a.text@ == b.text@,
            (Value::String(a), Value::String(b)) => a@ == b@,
            (Value::OffsetDateTime(a), Value::OffsetDateTime(b)) => a == b,
            (Value::LocalDateTime(a), Value::LocalDateTime(b)) => a == b,
            (Value::LocalDate(a), Value::LocalDate(b)) => a == b,
            (Value::LocalTime(a), Value::LocalTime(b)) => a == b,
            (Value::Array(a), Value::Array(b)) => same_values(a@, b@),
            (Value::Table(a), Value::Table(b)) => same_entries(a@, b@),
            _ => false,
        }
    }
}

/// Whether two lists of values hold the same, value by value.
pub open spec fn same_values(left: Seq<Value>, right: Seq<Value>) -> bool
    decreases left, 0nat,
{
    left.len() == right.len() && forall|i: int|
        #![trigger left[i]]
        0 <= i < left.len() ==> left[i].same_as(&right[i])
}

/// Whether two lists of entries hold the same, entry by entry.
pub open spec fn same_entries(left: Seq<(String, Value)>, right: Seq<(String, Value)>) -> bool
    decreases left, 0nat,
{
    left.len() == right.len() && forall|i: int|
        #![trigger left[i]]
        0 <= i < left.len() ==> left[i].0@ == right[i].0@ && left[i].1.same_as(&right[i].1)
}

/// Copies a list of values.
fn clone_values(values: &Vec<Value>) -> (r: Vec<Value>)
    ensures
        same_values(values@, r@),
    decreases values,
{
    let mut out: Vec<Value> = Vec::new();
    let mut i: usize = 0;
    while i < values.len()
        invariant
            i <= values.len(),
            out.len() == i,
            forall|j: int| #![trigger values@[j]] 0 <= j < i ==> values@[j].same_as(&out@[j]),
        decreases values.len() - i,
    {
        out.push(values[i].clone());
        i += 1;
    }
    out
}

/// Copies a list of entries.
fn clone_entries(entries: &Vec<(String, Value)>) -> (r: Vec<(String, Value)>)
    ensures
        same_entries(entries@, r@),
    decreases entries,
{
    let mut out: Vec<(String, Value)> = Vec::new();
    let mut i: usize = 0;
    while i < entries.len()
        invariant
            i <= entries.len(),
            out.len() == i,
            forall|j: int|
                #![trigger entries@[j]]
                0 <= j < i ==> entries@[j].0@ == out@[j].0@ && entries@[j].1.same_as(&out@[j].1),
        decreases entries.len() - i,
    {
        out.push((entries[i].0.clone(), entries[i].1.clone()));
        i += 1;
    }
    out
}

impl Clone for Value {
    fn clone(&self) -> (r: Self)
        ensures
            self.same_as(&r),
        decreases self,
    {
        match self {
            Value::Boolean(value) => Value::Boolean(*value),
            Value::Integer(value) => Value::Integer(*value),
            Value::Float(value) => Value::Float(FloatText { text: value.text.clone() }),
            Value::String(value) => Value::String(value.clone()),
            Value::OffsetDateTime(value) => Value::OffsetDateTime(*value),
            Value::LocalDateTime(value) => Value::LocalDateTime(*value),
            Value::LocalDate(value) => Value::LocalDate(*value),
            Value::LocalTime(value) => Value::LocalTime(*value),
            Value::Array(values) => Value::Array(clone_values(values)),
            Value::Table(entries) => Value::Table(clone_entries(entries)),
        }
    }
}

} // verus!
