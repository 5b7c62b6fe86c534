//! What a JSON schema says about a value of one type, read from the
//! object that describes it.

use crate::json::{FloatText, ObjectNode, ValueNode};
use crate::text::Range;
use crate::value_type::ValueType;
use vstd::prelude::*;

verus! {

/// How schemas are used.
#[derive(Debug, Clone, Copy, Default, PartialEq, Eq)]
pub struct Options {
    /// Whether what a schema does not mention is an error.
    pub strict: Option<bool>,
    /// Whether schemas may only be taken from what is at hand.
    pub offline: Option<bool>,
}

/// The text of an optional string.
pub open spec fn opt_text(value: Option<String>) -> Option<Seq<char>> {
    match value {
        Some(text) => Some(text@),
        None => None,
    }
}

/// The items of an optional list.
pub open spec fn opt_items<T>(value: Option<Vec<T>>) -> Option<Seq<T>> {
    match value {
        Some(items) => Some(items@),
        None => None,
    }
}

/// The texts of an optional list of strings.
pub open spec fn opt_texts(value: Option<Vec<String>>) -> Option<Seq<Seq<char>>> {
    match value {
        Some(items) => Some(crate::strings::texts(items@)),
        None => None,
    }
}

/// The booleans among `items`, in their order.
pub open spec fn bools_of(items: Seq<ValueNode>) -> Seq<bool>
    decreases items.len(),
{
    if items.len() == 0 {
        Seq::empty()
    } else {
        match items.last().bool_value() {
            Some(value) => bools_of(items.drop_last()).push(value),
            None => bools_of(items.drop_last()),
        }
    }
}

/// The integers among `items`, in their order.
pub open spec fn i64s_of(items: Seq<ValueNode>) -> Seq<i64>
    decreases items.len(),
{
    if items.len() == 0 {
        Seq::empty()
    } else {
        match items.last().i64_value() {
            Some(value) => i64s_of(items.drop_last()).push(value),
            None => i64s_of(items.drop_last()),
        }
    }
}

/// The texts of the strings among `items`, in their order.
pub open spec fn strs_of(items: Seq<ValueNode>) -> Seq<Seq<char>>
    decreases items.len(),
{
    if items.len() == 0 {
        Seq::empty()
    } else {
        match items.last().str_value() {
            Some(value) => strs_of(items.drop_last()).push(value),
            None => strs_of(items.drop_last()),
        }
    }
}

impl ObjectNode {
    /// The text of the property `key`, if it is a string.
    pub open spec fn str_field(&self, key: Seq<char>) -> Option<Seq<char>> {
        match self.field(key) {
            Some(value) => value.str_value(),
            None => None,
        }
    }

    /// The boolean of the property `key`, if it is one.
    pub open spec fn bool_field(&self, key: Seq<char>) -> Option<bool> {
        match self.field(key) {
            Some(value) => value.bool_value(),
            None => None,
        }
    }

    /// The integer of the property `key`, if it is one.
    pub open spec fn i64_field(&self, key: Seq<char>) -> Option<i64> {
        match self.field(key) {
            Some(value) => value.i64_value(),
            None => None,
        }
    }

    /// The items of the property `key`, if it is an array.
    pub open spec fn array_field(&self, key: Seq<char>) -> Option<Seq<ValueNode>> {
        match self.field(key) {
            Some(ValueNode::Array(array)) => Some(array.items@),
            _ => None,
        }
    }

    /// The booleans in the array of the property `key`.
    pub open spec fn bools_field(&self, key: Seq<char>) -> Option<Seq<bool>> {
        match self.array_field(key) {
            Some(items) => Some(bools_of(items)),
            None => None,
        }
    }

    /// The integers in the array of the property `key`.
    pub open spec fn i64s_field(&self, key: Seq<char>) -> Option<Seq<i64>> {
        match self.array_field(key) {
            Some(items) => Some(i64s_of(items)),
            None => None,
        }
    }

    /// The strings in the array of the property `key`.
    pub open spec fn strs_field(&self, key: Seq<char>) -> Option<Seq<Seq<char>>> {
        match self.array_field(key) {
            Some(items) => Some(strs_of(items)),
            None => None,
        }
    }

    /// Reads the property `key` as a string.
    pub fn get_str(&self, key: &str) -> (r: Option<String>)
        ensures
            opt_text(r) == self.str_field(key@),
    {
        match self.get(key) {
            Some(value) => match value.as_str() {
                Some(text) => Some(text.to_owned()),
                None => None,
            },
            None => None,
        }
    }

    /// Reads the property `key` as a boolean.
    pub fn get_bool(&self, key: &str) -> (r: Option<bool>)
        ensures
            r == self.bool_field(key@),
    {
        match self.get(key) {
            Some(value) => value.as_bool(),
            None => None,
        }
    }

    /// Reads the property `key` as an integer.
    pub fn get_i64(&self, key: &str) -> (r: Option<i64>)
        ensures
            r == self.i64_field(key@),
    {
        match self.get(key) {
            Some(value) => value.as_i64(),
            None => None,
        }
    }

    /// Reads the booleans of the array at the property `key`; what else
    /// stands in the array is passed over.
    pub fn get_bools(&self, key: &str) -> (r: Option<Vec<bool>>)
        ensures
            opt_items(r) == self.bools_field(key@),
    {
        match self.get(key) {
            Some(ValueNode::Array(array)) => {
                let mut out: Vec<bool> = Vec::new();
                let mut i: usize = 0;
                while i < array.items.len()
                    invariant
                        i <= array.items.len(),
                        out@ == bools_of(array.items@.take(i as int)),
                    decreases array.items.len() - i,
                {
                    assert(array.items@.take(i + 1).drop_last() =~= array.items@.take(i as int));
                    match array.items[i].as_bool() {
                        Some(value) => out.push(value),
                        None => {},
                    }
                    i += 1;
                }
                assert(array.items@.take(i as int) =~= array.items@);
                Some(out)
            },
            _ => None,
        }
    }

    /// Reads the integers of the array at the property `key`; what else
    /// stands in the array is passed over.
    pub fn get_i64s(&self, key: &str) -> (r: Option<Vec<i64>>)
        ensures
            opt_items(r) == self.i64s_field(key@),
    {
        match self.get(key) {
            Some(ValueNode::Array(array)) => {
                let mut out: Vec<i64> = Vec::new();
                let mut i: usize = 0;
                while i < array.items.len()
                    invariant
                        i <= array.items.len(),
                        out@ == i64s_of(array.items@.take(i as int)),
                    decreases array.items.len() - i,
                {
                    assert(array.items@.take(i + 1).drop_last() =~= array.items@.take(i as int));
                    match array.items[i].as_i64() {
                        Some(value) => out.push(value),
                        None => {},
                    }
                    i += 1;
                }
                assert(array.items@.take(i as int) =~= array.items@);
                Some(out)
            },
            _ => None,
        }
    }

    /// Reads the strings of the array at the property `key`; what else
    /// stands in the array is passed over.
    pub fn get_strs(&self, key: &str) -> (r: Option<Vec<String>>)
        ensures
            opt_texts(r) == self.strs_field(key@),
    {
        match self.get(key) {
            Some(ValueNode::Array(array)) => {
                let mut out: Vec<String> = Vec::new();
                let mut i: usize = 0;
                while i < array.items.len()
                    invariant
                        i <= array.items.len(),
                        crate::strings::texts(out@) == strs_of(array.items@.take(i as int)),
                    decreases array.items.len() - i,
                {
                    assert(array.items@.take(i + 1).drop_last() =~= array.items@.take(i as int));
                    let ghost before = out@;
                    match array.items[i].as_str() {
                        Some(value) => {
                            let text = value.to_owned();
                            out.push(text);
                            assert(crate::strings::texts(out@) =~= crate::strings::texts(
                                before,
                            ).push(text@));
                        },
                        None => {},
                    }
                    i += 1;
                }
                assert(array.items@.take(i as int) =~= array.items@);
                Some(out)
            },
            _ => None,
        }
    }
}

/// What a schema says about a boolean.
#[derive(Debug, Default, Clone, PartialEq, Eq)]
pub struct BooleanSchema {
    pub title: Option<String>,
    pub description: Option<String>,
    pub range: Range,
    pub default: Option<bool>,
    pub const_value: Option<bool>,
    pub enumerate: Option<Vec<bool>>,
    pub examples: Option<Vec<bool>>,
    pub deprecated: Option<bool>,
}

impl BooleanSchema {
    /// Reads the schema from the object that describes it. A property
    /// that is missing or of another type than expected counts as not
    /// given.
    #[must_use]
    pub fn new(object: &ObjectNode) -> (r: Self)
        ensures
            opt_text(r.title) == object.str_field("title"@),
            opt_text(r.description) == object.str_field("description"@),
            r.default == object.bool_field("default"@),
            r.const_value == object.bool_field("const"@),
            opt_items(r.enumerate) == object.bools_field("enum"@),
            opt_items(r.examples) == object.bools_field("examples"@),
            r.deprecated == object.bool_field("deprecated"@),
            r.range == object.range,
    {
        Self {
            title: object.get_str("title"),
            description: object.get_str("description"),
            default: object.get_bool("default"),
            const_value: object.get_bool("const"),
            enumerate: object.get_bools("enum"),
            examples: object.get_bools("examples"),
            deprecated: object.get_bool("deprecated"),
            range: object.range,
        }
    }

    #[must_use]
    pub fn value_type(&self) -> (r: ValueType)
        ensures
            r == ValueType::Boolean,
    {
        ValueType::Boolean
    }
}

/// What a schema says about an integer.
#[derive(Debug, Default, Clone, PartialEq, Eq)]
pub struct IntegerSchema {
    pub title: Option<String>,
    pub description: Option<String>,
    pub range: Range,
    pub minimum: Option<i64>,
    pub maximum: Option<i64>,
    pub exclusive_minimum: Option<i64>,
    pub exclusive_maximum: Option<i64>,
    pub multiple_of: Option<i64>,
    pub enumerate: Option<Vec<i64>>,
    pub default: Option<i64>,
    pub const_value: Option<i64>,
    pub examples: Option<Vec<i64>>,
    pub deprecated: Option<bool>,
}

impl IntegerSchema {
    /// Reads the schema from the object that describes it. A property
    /// that is missing or of another type than expected counts as not
    /// given.
    #[must_use]
    pub fn new(object: &ObjectNode) -> (r: Self)
        ensures
            opt_text(r.title) == object.str_field("title"@),
            opt_text(r.description) == object.str_field("description"@),
            r.minimum == object.i64_field("minimum"@),
            r.maximum == object.i64_field("maximum"@),
            r.exclusive_minimum == object.i64_field("exclusiveMinimum"@),
            r.exclusive_maximum == object.i64_field("exclusiveMaximum"@),
            r.multiple_of == object.i64_field("multipleOf"@),
            opt_items(r.enumerate) == object.i64s_field("enum"@),
            r.default == object.i64_field("default"@),
            r.const_value == object.i64_field("const"@),
            opt_items(r.examples) == object.i64s_field("examples"@),
            r.deprecated == object.bool_field("deprecated"@),
            r.range == object.range,
    {
        Self {
            title: object.get_str("title"),
            description: object.get_str("description"),
            minimum: object.get_i64("minimum"),
            maximum: object.get_i64("maximum"),
            exclusive_minimum: object.get_i64("exclusiveMinimum"),
            exclusive_maximum: object.get_i64("exclusiveMaximum"),
            multiple_of: object.get_i64("multipleOf"),
            enumerate: object.get_i64s("enum"),
            default: object.get_i64("default"),
            const_value: object.get_i64("const"),
            examples: object.get_i64s("examples"),
            deprecated: object.get_bool("deprecated"),
            range: object.range,
        }
    }

    #[must_use]
    pub fn value_type(&self) -> (r: ValueType)
        ensures
            r == ValueType::Integer,
    {
        ValueType::Integer
    }
}

/// What a schema says about a local date.
#[derive(Debug, Default, Clone, PartialEq, Eq)]
pub struct LocalDateSchema {
    pub title: Option<String>,
    pub description: Option<String>,
    pub range: Range,
    pub enumerate: Option<Vec<String>>,
    pub default: Option<String>,
    pub const_value: Option<String>,
    pub examples: Option<Vec<String>>,
    pub deprecated: Option<bool>,
}

impl LocalDateSchema {
    /// Reads the schema from the object that describes it. A property
    /// that is missing or of another type than expected counts as not
    /// given.
    #[must_use]
    pub fn new(object: &ObjectNode) -> (r: Self)
        ensures
            opt_text(r.title) == object.str_field("title"@),
            opt_text(r.description) == object.str_field("description"@),
            opt_texts(r.enumerate) == object.strs_field("enum"@),
            opt_text(r.default) == object.str_field("default"@),
            opt_text(r.const_value) == object.str_field("const"@),
            opt_texts(r.examples) == object.strs_field("examples"@),
            r.deprecated == object.bool_field("deprecated"@),
            r.range == object.range,
    {
        Self {
            title: object.get_str("title"),
            description: object.get_str("description"),
            enumerate: object.get_strs("enum"),
            default: object.get_str("default"),
            const_value: object.get_str("const"),
            examples: object.get_strs("examples"),
            deprecated: object.get_bool("deprecated"),
            range: object.range,
        }
    }

    #[must_use]
    pub fn value_type(&self) -> (r: ValueType)
        ensures
            r == ValueType::LocalDate,
    {
        ValueType::LocalDate
    }
}

/// What a schema says about a floating-point number.
#[derive(Debug, Default, Clone, PartialEq, Eq)]
pub struct FloatSchema {
    pub range: Range,
    pub enumerate: Option<Vec<FloatText>>,
    pub const_value: Option<FloatText>,
}

/// What a schema says about a string.
#[derive(Debug, Default, Clone, PartialEq, Eq)]
pub struct StringSchema {
    pub range: Range,
    pub enumerate: Option<Vec<String>>,
    pub const_value: Option<String>,
}

/// What a schema says about a date and time with an offset.
#[derive(Debug, Default, Clone, PartialEq, Eq)]
pub struct OffsetDateTimeSchema {
    pub range: Range,
    pub enumerate: Option<Vec<String>>,
    pub const_value: Option<String>,
}

/// What a schema says about a local date and time.
#[derive(Debug, Default, Clone, PartialEq, Eq)]
pub struct LocalDateTimeSchema {
    pub range: Range,
    pub enumerate: Option<Vec<String>>,
    pub const_value: Option<String>,
}

/// What a schema says about a local time.
#[derive(Debug, Default, Clone, PartialEq, Eq)]
pub struct LocalTimeSchema {
    pub range: Range,
    pub enumerate: Option<Vec<String>>,
    pub const_value: Option<String>,
}

/// What a schema says about an array.
#[derive(Debug, Default, Clone, PartialEq, Eq)]
pub struct ArraySchema {
    pub range: Range,
}

/// What a schema says about a table.
#[derive(Debug, Default, Clone, PartialEq, Eq)]
pub struct TableSchema {
    pub range: Range,
}

/// A schema that stands in a combination: either the schema itself, or
/// a reference that has not been followed.
#[derive(Debug)]
pub enum Referable {
    Resolved(ValueSchema),
    Ref(String),
}

/// A value has to match exactly one of the schemas.
#[derive(Debug)]
pub struct OneOfSchema {
    pub range: Range,
    pub schemas: Vec<Referable>,
}

/// A value has to match at least one of the schemas.
#[derive(Debug)]
pub struct AnyOfSchema {
    pub range: Range,
    pub schemas: Vec<Referable>,
}

/// A value has to match all of the schemas.
#[derive(Debug)]
pub struct AllOfSchema {
    pub range: Range,
    pub schemas: Vec<Referable>,
}

/// What a schema says about a value.
#[derive(Debug)]
pub enum ValueSchema {
    Null,
    Boolean(BooleanSchema),
    Integer(IntegerSchema),
    Float(FloatSchema),
    String(StringSchema),
    OffsetDateTime(OffsetDateTimeSchema),
    LocalDateTime(LocalDateTimeSchema),
    LocalDate(LocalDateSchema),
    LocalTime(LocalTimeSchema),
    Array(ArraySchema),
    Table(TableSchema),
    OneOf(OneOfSchema),
    AnyOf(AnyOfSchema),
    AllOf(AllOfSchema),
}

} // verus!
