//! JSON values: plain ones, and nodes that know where in the source
//! they stand.

use crate::strings::{decimal, decimal_string, join, joined, str_eq, texts};
use vstd::string::StringExecFns;
use crate::text::Range;
use vstd::prelude::*;
use vstd::std_specs::cmp::PartialEqSpecImpl;

verus! {

/// A floating-point number, carried as the decimal text that stands for
/// it. The library never computes with such a number.
#[derive(Debug, Clone, PartialEq, Eq, Hash)]
pub struct FloatText {
    pub text: String,
}

/// A number that is either an integer or a floating-point value.
#[derive(Debug, Clone, PartialEq)]
pub enum Number {
    /// Integer value
    Integer(i64),
    /// Floating point value
    Float(FloatText),
}

impl Number {
    /// Creates a number from an `i64`.
    #[must_use]
    pub fn from_i64(value: i64) -> (r: Self)
        ensures
            r == Number::Integer(value),
    {
        Self::Integer(value)
    }

    /// Creates a number from a `u64` within the range of `i64`.
    #[must_use]
    pub fn from_u64(value: u64) -> (r: Self)
        requires
            value <= i64::MAX,
        ensures
            r == Number::Integer(value as i64),
    {
        Self::Integer(value as i64)
    }

    /// Whether the number is an integer.
    #[must_use]
    pub fn is_i64(&self) -> (r: bool)
        ensures
            r == (self is Integer),
    {
        matches!(self, Self::Integer(_))
    }

    /// Whether the number is an integer that is not negative.
    #[must_use]
    pub fn is_u64(&self) -> (r: bool)
        ensures
            r == (self matches Number::Integer(i) && i >= 0),
    {
        match self {
            Self::Integer(i) => *i >= 0,
            _ => false,
        }
    }

    /// Whether the number is a floating-point value.
    #[must_use]
    pub fn is_f64(&self) -> (r: bool)
        ensures
            r == (self is Float),
    {
        matches!(self, Self::Float(_))
    }

    /// The number as an `i64`, if it is an integer.
    #[must_use]
    pub fn as_i64(&self) -> (r: Option<i64>)
        ensures
            r == (match self {
                Number::Integer(i) => Some(*i),
                _ => None,
            }),
    {
        match self {
            Self::Integer(i) => Some(*i),
            _ => None,
        }
    }

    /// The number as a `u64`, if it is an integer that is not negative.
    #[must_use]
    pub fn as_u64(&self) -> (r: Option<u64>)
        ensures
            r == (match self {
                Number::Integer(i) if *i >= 0 => Some(*i as u64),
                _ => None,
            }),
    {
        match self {
            Self::Integer(i) => if *i >= 0 {
                Some(*i as u64)
            } else {
                None
            },
            _ => None,
        }
    }
}

/// A JSON null value with source code position information
#[derive(Debug, Clone, PartialEq, Eq)]
pub struct NullNode {
    /// The position of the null value in the source code
    pub range: Range,
}

/// A JSON boolean value with source code position information
#[derive(Debug, Clone, PartialEq, Eq)]
pub struct BoolNode {
    /// The boolean value
    pub value: bool,
    /// The position of the boolean value in the source code
    pub range: Range,
}

/// A JSON number value with source code position information
#[derive(Debug, Clone, PartialEq)]
pub struct NumberNode {
    /// The number value
    pub value: Number,
    /// The position of the number value in the source code
    pub range: Range,
}

/// A JSON string value with source code position information. Two such
/// nodes are equal when their texts are, wherever they stand.
#[derive(Debug, Clone, Eq)]
pub struct StringNode {
    /// The string value
    pub value: String,
    /// The position of the string value in the source code
    pub range: Range,
}

impl PartialEq for StringNode {
    fn eq(&self, other: &Self) -> (r: bool) {
        self.value == other.value
    }
}

impl PartialEqSpecImpl for StringNode {
    open spec fn obeys_eq_spec() -> bool {
        true
    }

    open spec fn eq_spec(&self, other: &Self) -> bool {
        self.value@ == other.value@
    }
}

/// A JSON array with source code position information
#[derive(Debug, PartialEq)]
pub struct ArrayNode {
    /// The array elements
    pub items: Vec<ValueNode>,
    /// The position of the entire array in the source code
    pub range: Range,
}

/// A JSON object with source code position information. Its properties
/// stand in the order of the source; where a key occurs twice, the first
/// property with it is the one that is found.
#[derive(Debug, PartialEq)]
pub struct ObjectNode {
    /// The object properties
    pub properties: Vec<(StringNode, ValueNode)>,
    /// The position of the entire object in the source code
    pub range: Range,
}

/// A JSON value with source code position information
#[derive(Debug, PartialEq)]
pub enum ValueNode {
    /// A JSON null value
    Null(NullNode),
    /// A JSON boolean value
    Bool(BoolNode),
    /// A JSON number value
    Number(NumberNode),
    /// A JSON string value
    String(StringNode),
    /// A JSON array value
    Array(ArrayNode),
    /// A JSON object value
    Object(ObjectNode),
}

impl ValueNode {
    /// Where the value stands in the source.
    #[must_use]
    pub fn range(&self) -> (r: Range)
        ensures
            r == self.spec_range(),
    {
        match self {
            Self::Null(node) => node.range,
            Self::Bool(node) => node.range,
            Self::Number(node) => node.range,
            Self::String(node) => node.range,
            Self::Array(node) => node.range,
            Self::Object(node) => node.range,
        }
    }

    pub open spec fn spec_range(&self) -> Range {
        match self {
            Self::Null(node) => node.range,
            Self::Bool(node) => node.range,
            Self::Number(node) => node.range,
            Self::String(node) => node.range,
            Self::Array(node) => node.range,
            Self::Object(node) => node.range,
        }
    }

    /// Check if the node is null
    #[must_use]
    pub fn is_null(&self) -> (r: bool)
        ensures
            r == (self is Null),
    {
        matches!(self, Self::Null(_))
    }

    /// Check if the node is a boolean
    #[must_use]
    pub fn is_bool(&self) -> (r: bool)
        ensures
            r == (self is Bool),
    {
        matches!(self, Self::Bool(_))
    }

    /// Check if the node is a number
    #[must_use]
    pub fn is_number(&self) -> (r: bool)
        ensures
            r == (self is Number),
    {
        matches!(self, Self::Number(_))
    }

    /// Check if the node is a string
    #[must_use]
    pub fn is_string(&self) -> (r: bool)
        ensures
            r == (self is String),
    {
        matches!(self, Self::String(_))
    }

    /// Check if the node is an array
    #[must_use]
    pub fn is_array(&self) -> (r: bool)
        ensures
            r == (self is Array),
    {
        matches!(self, Self::Array(_))
    }

    /// Check if the node is an object
    #[must_use]
    pub fn is_object(&self) -> (r: bool)
        ensures
            r == (self is Object),
    {
        matches!(self, Self::Object(_))
    }

    /// The boolean of a boolean node.
    pub open spec fn bool_value(&self) -> Option<bool> {
        match self {
            Self::Bool(node) => Some(node.value),
            _ => None,
        }
    }

    /// The integer of a number node that holds one.
    pub open spec fn i64_value(&self) -> Option<i64> {
        match self {
            Self::Number(node) => match node.value {
                Number::Integer(i) => Some(i),
                _ => None,
            },
            _ => None,
        }
    }

    /// The integer of a number node that holds one that is not negative.
    pub open spec fn u64_value(&self) -> Option<u64> {
        match self {
            Self::Number(node) => match node.value {
                Number::Integer(i) if i >= 0 => Some(i as u64),
                _ => None,
            },
            _ => None,
        }
    }

    /// The text of a string node.
    pub open spec fn str_value(&self) -> Option<Seq<char>> {
        match self {
            Self::String(node) => Some(node.value@),
            _ => None,
        }
    }

    /// Get as boolean value
    #[must_use]
    pub fn as_bool(&self) -> (r: Option<bool>)
        ensures
            r == self.bool_value(),
    {
        match self {
            Self::Bool(node) => Some(node.value),
            _ => None,
        }
    }

    /// Get as unsigned integer value
    #[must_use]
    pub fn as_u64(&self) -> (r: Option<u64>)
        ensures
            r == self.u64_value(),
    {
        match self {
            Self::Number(node) => node.value.as_u64(),
            _ => None,
        }
    }

    /// Get as integer number value
    #[must_use]
    pub fn as_i64(&self) -> (r: Option<i64>)
        ensures
            r == self.i64_value(),
    {
        match self {
            Self::Number(node) => node.value.as_i64(),
            _ => None,
        }
    }

    /// Get as string reference
    #[must_use]
    pub fn as_str(&self) -> (r: Option<&str>)
        ensures
            r is Some == self.str_value() is Some,
            r matches Some(text) ==> Some(text@) == self.str_value(),
    {
        match self {
            Self::String(node) => Some(node.value.as_str()),
            _ => None,
        }
    }

    /// Get as array reference
    #[must_use]
    pub fn as_array(&self) -> (r: Option<&ArrayNode>)
        ensures
            r == (match self {
                ValueNode::Array(node) => Some(node),
                _ => None,
            }),
    {
        match self {
            Self::Array(node) => Some(node),
            _ => None,
        }
    }

    /// Get as mutable array reference
    pub fn as_array_mut(&mut self) -> (r: Option<&mut ArrayNode>)
        ensures
            r is Some == (*old(self) is Array),
            r matches Some(node) ==> *node == (*old(self))->Array_0 && *final(self)
                == ValueNode::Array(*final(node)),
            r is None ==> *final(self) == *old(self),
    {
        match self {
            Self::Array(node) => Some(node),
            _ => None,
        }
    }

    /// Get as mutable `ObjectNode` if this node contains an object
    pub fn as_object_mut(&mut self) -> (r: Option<&mut ObjectNode>)
        ensures
            r is Some == (*old(self) is Object),
            r matches Some(node) ==> *node == (*old(self))->Object_0 && *final(self)
                == ValueNode::Object(*final(node)),
            r is None ==> *final(self) == *old(self),
    {
        match self {
            Self::Object(node) => Some(node),
            _ => None,
        }
    }

    /// Get as `ObjectNode` if this node contains an object
    #[must_use]
    pub fn as_object(&self) -> (r: Option<&ObjectNode>)
        ensures
            r == (match self {
                ValueNode::Object(node) => Some(node),
                _ => None,
            }),
    {
        match self {
            Self::Object(node) => Some(node),
            _ => None,
        }
    }
}

impl ArrayNode {
    #[inline]
    #[must_use]
    pub fn len(&self) -> (r: usize)
        ensures
            r == self.items.len(),
    {
        self.items.len()
    }

    #[inline]
    #[must_use]
    pub fn is_empty(&self) -> (r: bool)
        ensures
            r == (self.items.len() == 0),
    {
        self.items.len() == 0
    }

    /// The item at `index`, if there is one.
    #[must_use]
    pub fn get(&self, index: usize) -> (r: Option<&ValueNode>)
        ensures
            index < self.items.len() ==> r == Some(&self.items@[index as int]),
            index >= self.items.len() ==> r is None,
    {
        if index < self.items.len() {
            Some(&self.items[index])
        } else {
            None
        }
    }
}

/// The place of the first of `properties` with the key `key`, or their
/// number if none has it.
pub open spec fn first_with_key(properties: Seq<(StringNode, ValueNode)>, key: Seq<char>) -> int
    decreases properties.len(),
{
    if properties.len() == 0 {
        0
    } else if properties[0].0.value@ == key {
        0
    } else {
        1 + first_with_key(properties.drop_first(), key)
    }
}

/// `first_with_key` is the place of a property with the key in front of
/// which no property has it, or the number of properties if none has it.
pub proof fn lemma_first_with_key(properties: Seq<(StringNode, ValueNode)>, key: Seq<char>)
    ensures
        0 <= first_with_key(properties, key) <= properties.len(),
        first_with_key(properties, key) < properties.len() ==> properties[first_with_key(
            properties,
            key,
        )].0.value@ == key,
        forall|i: int|
            0 <= i < first_with_key(properties, key) ==> (#[trigger] properties[i]).0.value@
                != key,
    decreases properties.len(),
{
    if properties.len() > 0 && properties[0].0.value@ != key {
        let rest = properties.drop_first();
        lemma_first_with_key(rest, key);
        assert forall|i: int| 0 <= i < first_with_key(properties, key) implies (
        #[trigger] properties[i]).0.value@ != key by {
            if i > 0 {
                assert(rest[i - 1] == properties[i]);
            }
        }
    }
}

impl ObjectNode {
    /// The value of the property with the key `key`.
    pub open spec fn field(&self, key: Seq<char>) -> Option<ValueNode> {
        let at = first_with_key(self.properties@, key);
        if at < self.properties.len() {
            Some(self.properties@[at].1)
        } else {
            None
        }
    }

    /// The value of the property with the key `key`, if there is one.
    #[must_use]
    pub fn get(&self, key: &str) -> (r: Option<&ValueNode>)
        ensures
            r is Some == self.field(key@) is Some,
            r matches Some(value) ==> Some(*value) == self.field(key@),
    {
        let mut i: usize = 0;
        proof {
            lemma_first_with_key(self.properties@, key@);
        }
        while i < self.properties.len()
            invariant
                i <= self.properties.len(),
                i <= first_with_key(self.properties@, key@),
            decreases self.properties.len() - i,
        {
            proof {
                lemma_first_with_key(self.properties@, key@);
            }
            if str_eq(self.properties[i].0.value.as_str(), key) {
                return Some(&self.properties[i].1);
            }
            i += 1;
        }
        None
    }

    #[inline]
    #[must_use]
    pub fn len(&self) -> (r: usize)
        ensures
            r == self.properties.len(),
    {
        self.properties.len()
    }

    #[inline]
    #[must_use]
    pub fn is_empty(&self) -> (r: bool)
        ensures
            r == (self.properties.len() == 0),
    {
        self.properties.len() == 0
    }
}

/// The mathematical value of a JSON value. An object is given by its
/// keys and, in the same order, their values.
pub ghost enum JsonModel {
    Null,
    Bool(bool),
    Integer(int),
    Float(Seq<char>),
    String(Seq<char>),
    Array(Seq<JsonModel>),
    Object(Seq<Seq<char>>, Seq<JsonModel>),
}

impl Number {
    /// The value of the number.
    pub open spec fn model(&self) -> JsonModel {
        match self {
            Number::Integer(i) => JsonModel::Integer(*i as int),
            Number::Float(float) => JsonModel::Float(float.text@),
        }
    }

    /// A copy of the number.
    pub fn duplicate(&self) -> (r: Self)
        ensures
            r.model() == self.model(),
    {
        match self {
            Number::Integer(i) => Number::Integer(*i),
            Number::Float(float) => Number::Float(FloatText { text: float.text.clone() }),
        }
    }
}

/// A JSON value.
#[derive(Debug, PartialEq)]
pub enum Value {
    Null,
    Bool(bool),
    Number(Number),
    String(String),
    Array(Vec<Value>),
    Object(Object),
}

/// A JSON object: keys with their values, in the order in which the
/// keys were first inserted. No key occurs twice.
#[derive(Debug, PartialEq)]
pub struct Object {
    entries: Vec<(String, Value)>,
}

/// The place of `key` among `keys`, or their number if it is not among
/// them.
pub open spec fn key_index(keys: Seq<Seq<char>>, key: Seq<char>) -> int
    decreases keys.len(),
{
    if keys.len() == 0 {
        0
    } else if keys[0] == key {
        0
    } else {
        1 + key_index(keys.drop_first(), key)
    }
}

/// `key_index` is the place of the key in front of which it does not
/// occur, or the number of keys if the key is not among them.
pub proof fn lemma_key_index(keys: Seq<Seq<char>>, key: Seq<char>)
    ensures
        0 <= key_index(keys, key) <= keys.len(),
        key_index(keys, key) < keys.len() ==> keys[key_index(keys, key)] == key,
        forall|i: int| 0 <= i < key_index(keys, key) ==> #[trigger] keys[i] != key,
    decreases keys.len(),
{
    if keys.len() > 0 && keys[0] != key {
        let rest = keys.drop_first();
        lemma_key_index(rest, key);
        assert forall|i: int| 0 <= i < key_index(keys, key) implies #[trigger] keys[i] != key by {
            if i > 0 {
                assert(rest[i - 1] == keys[i]);
            }
        }
    }
}

/// The keys after `key` was inserted: it goes behind the others unless
/// it is among them.
pub open spec fn inserted_keys(keys: Seq<Seq<char>>, key: Seq<char>) -> Seq<Seq<char>> {
    if key_index(keys, key) < keys.len() {
        keys
    } else {
        keys.push(key)
    }
}

/// The values after `value` was inserted for `key`: it takes the place
/// of the value that the key had, or goes behind the others.
pub open spec fn inserted_values(
    keys: Seq<Seq<char>>,
    values: Seq<JsonModel>,
    key: Seq<char>,
    value: JsonModel,
) -> Seq<JsonModel> {
    if key_index(keys, key) < keys.len() {
        values.update(key_index(keys, key), value)
    } else {
        values.push(value)
    }
}

impl View for Value {
    type V = JsonModel;

    closed spec fn view(&self) -> JsonModel
        decreases self,
    {
        match self {
            Value::Null => JsonModel::Null,
            Value::Bool(value) => JsonModel::Bool(*value),
            Value::Number(number) => number.model(),
            Value::String(text) => JsonModel::String(text@),
            Value::Array(items) => JsonModel::Array(
                Seq::new(
                    items.len() as nat,
                    |i: int|
                        if 0 <= i < items.len() {
                            items[i].view()
                        } else {
                            JsonModel::Null
                        },
                ),
            ),
            Value::Object(object) => JsonModel::Object(
                Seq::new(object.entries.len() as nat, |i: int| object.entries[i].0@),
                Seq::new(
                    object.entries.len() as nat,
                    |i: int|
                        if 0 <= i < object.entries.len() {
                            object.entries[i].1.view()
                        } else {
                            JsonModel::Null
                        },
                ),
            ),
        }
    }
}

/// The values of a list of JSON values, one by one.
pub open spec fn json_models(values: Seq<Value>) -> Seq<JsonModel> {
    Seq::new(values.len(), |i: int| values[i]@)
}

/// The keys of a list of entries, one by one.
pub open spec fn json_keys(entries: Seq<(String, Value)>) -> Seq<Seq<char>> {
    Seq::new(entries.len(), |i: int| entries[i].0@)
}

/// The values of a list of entries, one by one.
pub open spec fn json_values(entries: Seq<(String, Value)>) -> Seq<JsonModel> {
    Seq::new(entries.len(), |i: int| entries[i].1@)
}

impl Object {
    /// The keys of the object, in their order.
    pub closed spec fn keys(&self) -> Seq<Seq<char>> {
        json_keys(self.entries@)
    }

    /// The values of the object, in the order of their keys.
    pub closed spec fn values(&self) -> Seq<JsonModel> {
        json_values(self.entries@)
    }

    #[verifier::type_invariant]
    closed spec fn inv(self) -> bool {
        forall|i: int, j: int|
            0 <= i < j < self.entries.len() ==> (#[trigger] self.entries[i]).0@ != (
            #[trigger] self.entries[j]).0@
    }

    /// An object without keys.
    #[must_use]
    pub fn new() -> (r: Self)
        ensures
            r.keys() == Seq::<Seq<char>>::empty(),
            r.values() == Seq::<JsonModel>::empty(),
    {
        let r = Self { entries: Vec::new() };
        proof {
            assert(r.keys() =~= Seq::<Seq<char>>::empty());
            assert(r.values() =~= Seq::<JsonModel>::empty());
        }
        r
    }

    #[must_use]
    pub fn len(&self) -> (r: usize)
        ensures
            r == self.keys().len(),
    {
        self.entries.len()
    }

    #[must_use]
    pub fn is_empty(&self) -> (r: bool)
        ensures
            r == (self.keys().len() == 0),
    {
        self.entries.len() == 0
    }

    /// The place of `key` among the keys.
    fn find(&self, key: &str) -> (r: usize)
        ensures
            r == key_index(self.keys(), key@),
            r <= self.entries.len(),
    {
        let ghost keys = self.keys();
        proof {
            lemma_key_index(keys, key@);
        }
        let mut i: usize = 0;
        while i < self.entries.len()
            invariant
                i <= self.entries.len(),
                keys == json_keys(self.entries@),
                i <= key_index(keys, key@) <= keys.len(),
                key_index(keys, key@) < keys.len() ==> keys[key_index(keys, key@)] == key@,
                forall|j: int| 0 <= j < key_index(keys, key@) ==> #[trigger] keys[j] != key@,
            decreases self.entries.len() - i,
        {
            if str_eq(self.entries[i].0.as_str(), key) {
                assert(keys[i as int] == key@);
                return i;
            }
            assert(keys[i as int] != key@);
            i += 1;
        }
        i
    }

    /// The value of `key`, if the object has the key.
    #[must_use]
    pub fn get(&self, key: &str) -> (r: Option<&Value>)
        ensures
            r is Some == (key_index(self.keys(), key@) < self.keys().len()),
            r matches Some(value) ==> value@ == self.values()[key_index(self.keys(), key@)],
    {
        let at = self.find(key);
        if at < self.entries.len() {
            Some(&self.entries[at].1)
        } else {
            None
        }
    }

    /// Gives `key` the value `value`. A key that the object has keeps
    /// its place; a new key goes behind the others.
    pub fn insert(&mut self, key: String, value: Value)
        ensures
            final(self).keys() == inserted_keys(old(self).keys(), key@),
            final(self).values() == inserted_values(
                old(self).keys(),
                old(self).values(),
                key@,
                value@,
            ),
    {
        proof {
            use_type_invariant(&*self);
            lemma_key_index(self.keys(), key@);
        }
        let at = self.find(key.as_str());
        let mut taken = Object { entries: Vec::new() };
        core::mem::swap(self, &mut taken);
        let Object { entries } = taken;
        let mut entries = entries;
        let ghost before = entries@;
        if at < entries.len() {
            let mut rest = entries.split_off(at);
            let ghost tail = rest@;
            let _replaced = rest.remove(0);
            entries.push((key, value));
            entries.append(&mut rest);
            proof {
                let after = entries@;
                assert(after.len() == before.len());
                assert forall|i: int| 0 <= i < after.len() implies #[trigger] after[i] == (if i
                    == at {
                    (key, value)
                } else {
                    before[i]
                }) by {
                    if i > at {
                        assert(after[i] == tail.remove(0)[i - at - 1]);
                        assert(tail[i - at] == before[i]);
                    }
                }
                assert(json_keys(after) =~= json_keys(before));
                assert(json_values(after) =~= json_values(before).update(at as int, value@));
                assert forall|i: int, j: int| 0 <= i < j < after.len() implies (
                #[trigger] after[i]).0@ != (#[trigger] after[j]).0@ by {
                    assert(json_keys(after)[i] == json_keys(before)[i]);
                    assert(json_keys(after)[j] == json_keys(before)[j]);
                    assert(before[i].0@ != before[j].0@);
                }
            }
        } else {
            entries.push((key, value));
            proof {
                let after = entries@;
                assert(json_keys(after) =~= json_keys(before).push(key@));
                assert(json_values(after) =~= json_values(before).push(value@));
                assert forall|i: int, j: int| 0 <= i < j < after.len() implies (
                #[trigger] after[i]).0@ != (#[trigger] after[j]).0@ by {
                    if j == after.len() - 1 {
                        assert(json_keys(before)[i] != key@);
                    } else {
                        assert(before[i].0@ != before[j].0@);
                    }
                }
            }
        }
        *self = Object { entries };
    }

    /// The keys with their values, in their order.
    #[must_use]
    pub fn entries(&self) -> (r: &Vec<(String, Value)>)
        ensures
            json_keys(r@) == self.keys(),
            json_values(r@) == self.values(),
            decreases_to!(*self => *r),
    {
        &self.entries
    }
}

/// The value of a JSON value: that of a scalar is the scalar, and that
/// of an array or an object is made of the values of its parts.
pub proof fn lemma_json_view_parts(value: &Value)
    ensures
        value is Null ==> value@ == JsonModel::Null,
        value matches Value::Bool(flag) ==> value@ == JsonModel::Bool(*flag),
        value matches Value::Number(number) ==> value@ == number.model(),
        value matches Value::String(text) ==> value@ == JsonModel::String(text@),
        value matches Value::Array(items) ==> value@ == JsonModel::Array(json_models(items@)),
        value matches Value::Object(object) ==> value@ == JsonModel::Object(
            object.keys(),
            object.values(),
        ),
{
    match value {
        Value::Array(items) => {
            assert(value@->Array_0 =~= json_models(items@));
        },
        Value::Object(object) => {
            assert(value@->Object_0 =~= object.keys());
            assert(value@->Object_1 =~= object.values());
        },
        _ => {},
    }
}

impl ValueNode {
    /// The value that the node stands for, without the places in the
    /// source. Where a key occurs twice in an object, its last value
    /// stands at the place of its first one.
    pub open spec fn value(&self) -> JsonModel
        decreases self, 1nat,
    {
        match self {
            ValueNode::Null(_) => JsonModel::Null,
            ValueNode::Bool(node) => JsonModel::Bool(node.value),
            ValueNode::Number(node) => node.value.model(),
            ValueNode::String(node) => JsonModel::String(node.value@),
            ValueNode::Array(node) => JsonModel::Array(node_values(node.items@)),
            ValueNode::Object(node) => JsonModel::Object(
                property_keys(node.properties@),
                property_values(node.properties@),
            ),
        }
    }
}

/// The values that `items` stand for, one by one.
pub open spec fn node_values(items: Seq<ValueNode>) -> Seq<JsonModel>
    decreases items, 0nat,
{
    Seq::new(
        items.len(),
        |i: int|
            if 0 <= i < items.len() {
                items[i].value()
            } else {
                JsonModel::Null
            },
    )
}

/// The keys of `properties`, each once, in the order in which they
/// occur first.
pub open spec fn property_keys(properties: Seq<(StringNode, ValueNode)>) -> Seq<Seq<char>>
    decreases properties.len(),
{
    if properties.len() == 0 {
        Seq::empty()
    } else {
        inserted_keys(property_keys(properties.drop_last()), properties.last().0.value@)
    }
}

/// The values of the keys of `properties`: for each key the value with
/// which it occurs last.
pub open spec fn property_values(properties: Seq<(StringNode, ValueNode)>) -> Seq<JsonModel>
    decreases properties, 0nat,
{
    if properties.len() == 0 {
        Seq::empty()
    } else {
        inserted_values(
            property_keys(properties.drop_last()),
            property_values(properties.drop_last()),
            properties.last().0.value@,
            properties.last().1.value(),
        )
    }
}

/// Converts the items of an array.
fn values_of_nodes(items: &Vec<ValueNode>) -> (r: Vec<Value>)
    ensures
        json_models(r@) == node_values(items@),
    decreases items,
{
    let mut out: Vec<Value> = Vec::new();
    let mut i: usize = 0;
    while i < items.len()
        invariant
            i <= items.len(),
            out.len() == i,
            forall|j: int| 0 <= j < i ==> out@[j]@ == items@[j].value(),
        decreases items.len() - i,
    {
        out.push(Value::from_node(&items[i]));
        i += 1;
    }
    assert(json_models(out@) =~= node_values(items@));
    out
}

/// Converts the properties of an object.
fn object_of_properties(properties: &Vec<(StringNode, ValueNode)>) -> (r: Object)
    ensures
        r.keys() == property_keys(properties@),
        r.values() == property_values(properties@),
    decreases properties,
{
    let mut map = Object::new();
    let mut i: usize = 0;
    assert(properties@.take(0) =~= Seq::<(StringNode, ValueNode)>::empty());
    while i < properties.len()
        invariant
            i <= properties.len(),
            map.keys() == property_keys(properties@.take(i as int)),
            map.values() == property_values(properties@.take(i as int)),
        decreases properties.len() - i,
    {
        proof {
            assert(properties@.take(i + 1).drop_last() =~= properties@.take(i as int));
            assert(properties@.take(i + 1).last() == properties@[i as int]);
        }
        let value = Value::from_node(&properties[i].1);
        map.insert(properties[i].0.value.clone(), value);
        i += 1;
    }
    assert(properties@.take(i as int) =~= properties@);
    map
}

impl Value {
    /// The value that `node` stands for.
    #[must_use]
    pub fn from_node(node: &ValueNode) -> (r: Self)
        ensures
            r@ == node.value(),
        decreases node,
    {
        let r = match node {
            ValueNode::Null(_) => Self::Null,
            ValueNode::Bool(node) => Self::Bool(node.value),
            ValueNode::Number(node) => Self::Number(node.value.duplicate()),
            ValueNode::String(node) => Self::String(node.value.clone()),
            ValueNode::Array(node) => Self::Array(values_of_nodes(&node.items)),
            ValueNode::Object(node) => Self::Object(object_of_properties(&node.properties)),
        };
        proof {
            lemma_json_view_parts(&r);
        }
        r
    }

    /// The value that the array `node` stands for.
    #[must_use]
    pub fn from_array_node(node: &ArrayNode) -> (r: Self)
        ensures
            r@ == JsonModel::Array(node_values(node.items@)),
    {
        let r = Self::Array(values_of_nodes(&node.items));
        proof {
            lemma_json_view_parts(&r);
        }
        r
    }

    /// The value that the object `node` stands for.
    #[must_use]
    pub fn from_object_node(node: &ObjectNode) -> (r: Self)
        ensures
            r@ == JsonModel::Object(
                property_keys(node.properties@),
                property_values(node.properties@),
            ),
    {
        let r = Self::Object(object_of_properties(&node.properties));
        proof {
            lemma_json_view_parts(&r);
        }
        r
    }
}

impl Object {
    /// The object that `node` stands for.
    #[must_use]
    pub fn from_node(node: &ObjectNode) -> (r: Self)
        ensures
            r.keys() == property_keys(node.properties@),
            r.values() == property_values(node.properties@),
    {
        object_of_properties(&node.properties)
    }
}

/// Whether a decimal text stands for a whole number: it is made of
/// digits, behind a minus sign or not.
pub open spec fn is_whole_text(text: Seq<char>) -> bool {
    crate::scan::plain_digits(
        if text.len() > 0 && text[0] == '-' {
            text.drop_first()
        } else {
            text
        },
    )
}

impl FloatText {
    /// Decides `is_whole_text` for the text.
    #[must_use]
    pub fn is_whole(&self) -> (r: bool)
        ensures
            r == is_whole_text(self.text@),
    {
        let chars = crate::strings::chars_of(self.text.as_str());
        let start: usize = if chars.len() > 0 && chars[0] == '-' {
            1
        } else {
            0
        };
        proof {
            if start == 1 {
                assert(chars@.subrange(1, chars.len() as int) =~= chars@.drop_first());
            } else {
                assert(chars@.subrange(0, chars.len() as int) =~= chars@);
            }
        }
        crate::scan::check_plain_digits(&chars, start, chars.len())
    }
}

impl Number {
    /// The text of the number: an integer in decimal, and a
    /// floating-point number as it is written, with `.0` behind it if
    /// it is a whole number.
    pub open spec fn text(&self) -> Seq<char> {
        match self {
            Number::Integer(i) => decimal(*i as int),
            Number::Float(float) => if is_whole_text(float.text@) {
                float.text@ + ".0"@
            } else {
                float.text@
            },
        }
    }

    /// Renders the number.
    #[must_use]
    pub fn to_string(&self) -> (r: String)
        ensures
            r@ == self.text(),
    {
        match self {
            Number::Integer(i) => decimal_string(*i as i128),
            Number::Float(float) => {
                let mut out = float.text.clone();
                if float.is_whole() {
                    out.append(".0");
                }
                out
            },
        }
    }
}

impl ValueNode {
    /// The text of the value in the notation of JSON, strings as they
    /// are between their quotes.
    pub open spec fn text(&self) -> Seq<char>
        decreases self, 1nat,
    {
        match self {
            ValueNode::Null(_) => "null"@,
            ValueNode::Bool(node) => if node.value {
                "true"@
            } else {
                "false"@
            },
            ValueNode::Number(node) => node.value.text(),
            ValueNode::String(node) => "\""@ + node.value@ + "\""@,
            ValueNode::Array(node) => "["@ + joined(node_texts(node.items@), ", "@) + "]"@,
            ValueNode::Object(node) => "{"@ + joined(property_texts(node.properties@), ", "@)
                + "}"@,
        }
    }

    /// Renders the value.
    #[must_use]
    pub fn to_string(&self) -> (r: String)
        ensures
            r@ == self.text(),
        decreases self,
    {
        match self {
            Self::Null(_) => "null".to_owned(),
            Self::Bool(node) => if node.value {
                "true".to_owned()
            } else {
                "false".to_owned()
            },
            Self::Number(node) => node.value.to_string(),
            Self::String(node) => {
                let mut out = "\"".to_owned();
                out.append(node.value.as_str());
                out.append("\"");
                out
            },
            Self::Array(node) => {
                let parts = render_nodes(&node.items);
                let body = join(&parts, ", ");
                let mut out = "[".to_owned();
                out.append(body.as_str());
                out.append("]");
                out
            },
            Self::Object(node) => {
                let parts = render_properties(&node.properties);
                let body = join(&parts, ", ");
                let mut out = "{".to_owned();
                out.append(body.as_str());
                out.append("}");
                out
            },
        }
    }
}

/// The texts of `items`, one by one.
pub open spec fn node_texts(items: Seq<ValueNode>) -> Seq<Seq<char>>
    decreases items, 0nat,
{
    Seq::new(
        items.len(),
        |i: int|
            if 0 <= i < items.len() {
                items[i].text()
            } else {
                Seq::empty()
            },
    )
}

/// The texts of `properties`, each as `key: value`.
pub open spec fn property_texts(properties: Seq<(StringNode, ValueNode)>) -> Seq<Seq<char>>
    decreases properties, 0nat,
{
    Seq::new(
        properties.len(),
        |i: int|
            if 0 <= i < properties.len() {
                properties[i].0.value@ + ": "@ + properties[i].1.text()
            } else {
                Seq::empty()
            },
    )
}

/// Renders the items of an array, one by one.
fn render_nodes(items: &Vec<ValueNode>) -> (r: Vec<String>)
    ensures
        texts(r@) == node_texts(items@),
    decreases items,
{
    let mut parts: Vec<String> = Vec::new();
    let mut i: usize = 0;
    while i < items.len()
        invariant
            i <= items.len(),
            parts.len() == i,
            forall|j: int| 0 <= j < i ==> parts@[j]@ == items@[j].text(),
        decreases items.len() - i,
    {
        parts.push(items[i].to_string());
        i += 1;
    }
    assert(texts(parts@) =~= node_texts(items@));
    parts
}

/// Renders the properties of an object, each as `key: value`.
fn render_properties(properties: &Vec<(StringNode, ValueNode)>) -> (r: Vec<String>)
    ensures
        texts(r@) == property_texts(properties@),
    decreases properties,
{
    let mut parts: Vec<String> = Vec::new();
    let mut i: usize = 0;
    while i < properties.len()
        invariant
            i <= properties.len(),
            parts.len() == i,
            forall|j: int|
                0 <= j < i ==> parts@[j]@ == properties@[j].0.value@ + ": "@
                    + properties@[j].1.text(),
        decreases properties.len() - i,
    {
        let mut part = properties[i].0.value.clone();
        part.append(": ");
        let value = properties[i].1.to_string();
        part.append(value.as_str());
        parts.push(part);
        i += 1;
    }
    assert(texts(parts@) =~= property_texts(properties@));
    parts
}

impl ArrayNode {
    /// Renders the array.
    #[must_use]
    pub fn to_string(&self) -> (r: String)
        ensures
            r@ == "["@ + joined(node_texts(self.items@), ", "@) + "]"@,
    {
        let parts = render_nodes(&self.items);
        let body = join(&parts, ", ");
        let mut out = "[".to_owned();
        out.append(body.as_str());
        out.append("]");
        out
    }
}

impl ObjectNode {
    /// Renders the object.
    #[must_use]
    pub fn to_string(&self) -> (r: String)
        ensures
            r@ == "{"@ + joined(property_texts(self.properties@), ", "@) + "}"@,
    {
        let parts = render_properties(&self.properties);
        let body = join(&parts, ", ");
        let mut out = "{".to_owned();
        out.append(body.as_str());
        out.append("}");
        out
    }
}

/// Copies a list of JSON values.
fn clone_values(items: &Vec<Value>) -> (r: Vec<Value>)
    ensures
        json_models(r@) == json_models(items@),
    decreases items,
{
    let mut out: Vec<Value> = Vec::new();
    let mut i: usize = 0;
    while i < items.len()
        invariant
            i <= items.len(),
            out.len() == i,
            forall|j: int| 0 <= j < i ==> out@[j]@ == items@[j]@,
        decreases items.len() - i,
    {
        out.push(items[i].clone());
        i += 1;
    }
    assert(json_models(out@) =~= json_models(items@));
    out
}

/// Copies the entries of an object.
fn clone_entries(entries: &Vec<(String, Value)>) -> (r: Vec<(String, Value)>)
    ensures
        json_keys(r@) == json_keys(entries@),
        json_values(r@) == json_values(entries@),
    decreases entries,
{
    let mut out: Vec<(String, Value)> = Vec::new();
    let mut i: usize = 0;
    while i < entries.len()
        invariant
            i <= entries.len(),
            out.len() == i,
            forall|j: int|
                0 <= j < i ==> out@[j].0@ == entries@[j].0@ && out@[j].1@ == entries@[j].1@,
        decreases entries.len() - i,
    {
        out.push((entries[i].0.clone(), entries[i].1.clone()));
        i += 1;
    }
    assert(json_keys(out@) =~= json_keys(entries@));
    assert(json_values(out@) =~= json_values(entries@));
    out
}

impl Clone for Object {
    fn clone(&self) -> (r: Self)
        ensures
            r.keys() == self.keys(),
            r.values() == self.values(),
        decreases self,
    {
        proof {
            use_type_invariant(self);
        }
        let entries = clone_entries(&self.entries);
        proof {
            assert(json_keys(entries@).len() == entries.len());
            assert(json_keys(self.entries@).len() == self.entries.len());
            assert forall|i: int, j: int| 0 <= i < j < entries.len() implies (
            #[trigger] entries[i]).0@ != (#[trigger] entries[j]).0@ by {
                assert(json_keys(entries@)[i] == json_keys(self.entries@)[i]);
                assert(json_keys(entries@)[j] == json_keys(self.entries@)[j]);
                assert(self.entries[i].0@ != self.entries[j].0@);
            }
        }
        Self { entries }
    }
}

impl Clone for Value {
    fn clone(&self) -> (r: Self)
        ensures
            r@ == self@,
        decreases self,
    {
        let r = match self {
            Value::Null => Value::Null,
            Value::Bool(value) => Value::Bool(*value),
            Value::Number(number) => Value::Number(number.duplicate()),
            Value::String(text) => Value::String(text.clone()),
            Value::Array(items) => Value::Array(clone_values(items)),
            Value::Object(object) => Value::Object(object.clone()),
        };
        proof {
            lemma_json_view_parts(self);
            lemma_json_view_parts(&r);
        }
        r
    }
}

impl ValueNode {
    /// Whether `other` holds what this node holds: the same values at
    /// the same places of the source, all the way down.
    pub open spec fn same_as(&self, other: &ValueNode) -> bool
        decreases self, 1nat,
    {
        match (self, other) {
            (ValueNode::Null(a), ValueNode::Null(b)) => a.range == b.range,
            (ValueNode::Bool(a), ValueNode::Bool(b)) => a.value == b.value && a.range == b.range,
            (ValueNode::Number(a), ValueNode::Number(b)) => a.value.model() == b.value.model()
                && a.range == b.range,
            (ValueNode::String(a), ValueNode::String(b)) => a.value@ == b.value@ && a.range
                == b.range,
            (ValueNode::Array(a), ValueNode::Array(b)) => a.range == b.range && same_nodes(
                a.items@,
                b.items@,
            ),
            (ValueNode::Object(a), ValueNode::Object(b)) => a.range == b.range
                && same_properties(a.properties@, b.properties@),
            _ => false,
        }
    }
}

/// Whether two lists of nodes hold the same, node by node.
pub open spec fn same_nodes(left: Seq<ValueNode>, right: Seq<ValueNode>) -> bool
    decreases left, 0nat,
{
    left.len() == right.len() && forall|i: int|
        #![trigger left[i]]
        0 <= i < left.len() ==> left[i].same_as(&right[i])
}

/// Whether two lists of properties hold the same, property by property.
pub open spec fn same_properties(
    left: Seq<(StringNode, ValueNode)>,
    right: Seq<(StringNode, ValueNode)>,
) -> bool
    decreases left, 0nat,
{
    left.len() == right.len() && forall|i: int|
        #![trigger left[i]]
        0 <= i < left.len() ==> left[i].0.value@ == right[i].0.value@ && left[i].0.range
            == right[i].0.range && left[i].1.same_as(&right[i].1)
}

/// Copies a list of nodes.
fn clone_nodes(items: &Vec<ValueNode>) -> (r: Vec<ValueNode>)
    ensures
        same_nodes(items@, r@),
    decreases items,
{
    let mut out: Vec<ValueNode> = Vec::new();
    let mut i: usize = 0;
    while i < items.len()
        invariant
            i <= items.len(),
            out.len() == i,
            forall|j: int| #![trigger items@[j]] 0 <= j < i ==> items@[j].same_as(&out@[j]),
        decreases items.len() - i,
    {
        out.push(items[i].clone());
        i += 1;
    }
    out
}

/// Copies a list of properties.
fn clone_properties(properties: &Vec<(StringNode, ValueNode)>) -> (r: Vec<(StringNode, ValueNode)>)
    ensures
        same_properties(properties@, r@),
    decreases properties,
{
    let mut out: Vec<(StringNode, ValueNode)> = Vec::new();
    let mut i: usize = 0;
    while i < properties.len()
        invariant
            i <= properties.len(),
            out.len() == i,
            forall|j: int|
                #![trigger properties@[j]]
                0 <= j < i ==> properties@[j].0.value@ == out@[j].0.value@
                    && properties@[j].0.range == out@[j].0.range && properties@[j].1.same_as(
                    &out@[j].1,
                ),
        decreases properties.len() - i,
    {
        let key = StringNode {
            value: properties[i].0.value.clone(),
            range: properties[i].0.range,
        };
        out.push((key, properties[i].1.clone()));
        i += 1;
    }
    out
}

impl Clone for ValueNode {
    fn clone(&self) -> (r: Self)
        ensures
            self.same_as(&r),
        decreases self,
    {
        match self {
            ValueNode::Null(node) => ValueNode::Null(NullNode { range: node.range }),
            ValueNode::Bool(node) => ValueNode::Bool(
                BoolNode { value: node.value, range: node.range },
            ),
            ValueNode::Number(node) => ValueNode::Number(
                NumberNode { value: node.value.duplicate(), range: node.range },
            ),
            ValueNode::String(node) => ValueNode::String(
                StringNode { value: node.value.clone(), range: node.range },
            ),
            ValueNode::Array(node) => ValueNode::Array(
                ArrayNode { items: clone_nodes(&node.items), range: node.range },
            ),
            ValueNode::Object(node) => ValueNode::Object(
                ObjectNode { properties: clone_properties(&node.properties), range: node.range },
            ),
        }
    }
}

impl Clone for ArrayNode {
    fn clone(&self) -> (r: Self)
        ensures
            r.range == self.range,
            same_nodes(self.items@, r.items@),
    {
        ArrayNode { items: clone_nodes(&self.items), range: self.range }
    }
}

impl Clone for ObjectNode {
    fn clone(&self) -> (r: Self)
        ensures
            r.range == self.range,
            same_properties(self.properties@, r.properties@),
    {
        ObjectNode { properties: clone_properties(&self.properties), range: self.range }
    }
}

/// What holds the same stands for the same value and has the same
/// text.
pub proof fn lemma_same_value(one: &ValueNode, other: &ValueNode)
    requires
        one.same_as(other),
    ensures
        one.value() == other.value(),
        one.text() == other.text(),
        one.spec_range() == other.spec_range(),
    decreases one, 1nat,
{
    match (one, other) {
        (ValueNode::Array(a), ValueNode::Array(b)) => {
            lemma_same_values(a.items@, b.items@);
        },
        (ValueNode::Object(a), ValueNode::Object(b)) => {
            lemma_same_property_values(a.properties@, b.properties@);
        },
        _ => {},
    }
}

/// Lists that hold the same stand for the same values and have the same
/// texts.
pub proof fn lemma_same_values(left: Seq<ValueNode>, right: Seq<ValueNode>)
    requires
        same_nodes(left, right),
    ensures
        node_values(left) == node_values(right),
        node_texts(left) == node_texts(right),
    decreases left, 0nat,
{
    assert forall|i: int| 0 <= i < left.len() implies node_values(left)[i] == node_values(
        right,
    )[i] && node_texts(left)[i] == node_texts(right)[i] by {
        assert(left[i].same_as(&right[i]));
        lemma_same_value(&left[i], &right[i]);
    }
    assert(node_values(left) =~= node_values(right));
    assert(node_texts(left) =~= node_texts(right));
}

/// Properties that hold the same stand for the same keys and values and
/// have the same texts.
pub proof fn lemma_same_property_values(
    left: Seq<(StringNode, ValueNode)>,
    right: Seq<(StringNode, ValueNode)>,
)
    requires
        same_properties(left, right),
    ensures
        property_keys(left) == property_keys(right),
        property_values(left) == property_values(right),
        property_texts(left) == property_texts(right),
    decreases left, 0nat,
{
    assert forall|i: int| 0 <= i < left.len() implies property_texts(left)[i] == property_texts(
        right,
    )[i] by {
        assert(left[i].1.same_as(&right[i].1));
        lemma_same_value(&left[i].1, &right[i].1);
    }
    assert(property_texts(left) =~= property_texts(right));
    if left.len() > 0 {
        let n = left.len() - 1;
        assert(left[n].1.same_as(&right[n].1));
        lemma_same_value(&left[n].1, &right[n].1);
        assert forall|i: int| 0 <= i < left.drop_last().len() implies (
        #[trigger] left.drop_last()[i]).0.value@ == right.drop_last()[i].0.value@
            && left.drop_last()[i].0.range == right.drop_last()[i].0.range
            && left.drop_last()[i].1.same_as(&right.drop_last()[i].1) by {
            assert(left[i].1.same_as(&right[i].1));
        }
        lemma_same_property_values(left.drop_last(), right.drop_last());
    }
}

} // verus!
