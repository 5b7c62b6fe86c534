//! Values as a hover shows them, and the list of values that a schema
//! allows.

use crate::json::{
    json_keys, json_models, json_values, lemma_json_view_parts, FloatText, JsonModel, Number,
    Object, Value,
};
use crate::schema::{Referable, ValueSchema};
use crate::strings::{decimal_string, join, joined, replace_char, replaced, decimal, texts};
use vstd::prelude::*;
use vstd::string::StringExecFns;

verus! {

/// A value to show.
#[derive(Debug)]
pub enum DisplayValue {
    Boolean(bool),
    Integer(i64),
    Float(FloatText),
    String(String),
    OffsetDateTime(String),
    LocalDateTime(String),
    LocalDate(String),
    LocalTime(String),
    Array(Vec<DisplayValue>),
    Table(Vec<(String, DisplayValue)>),
}

/// The mathematical value of a `DisplayValue`.
pub ghost enum DisplayModel {
    Boolean(bool),
    Integer(int),
    Float(Seq<char>),
    String(Seq<char>),
    OffsetDateTime(Seq<char>),
    LocalDateTime(Seq<char>),
    LocalDate(Seq<char>),
    LocalTime(Seq<char>),
    Array(Seq<DisplayModel>),
    /// The keys of the entries, and their values in the same order.
    Table(Seq<Seq<char>>, Seq<DisplayModel>),
}

impl View for DisplayValue {
    type V = DisplayModel;

    open spec fn view(&self) -> DisplayModel
        decreases self,
    {
        match self {
            DisplayValue::Boolean(value) => DisplayModel::Boolean(*value),
            DisplayValue::Integer(value) => DisplayModel::Integer(*value as int),
            DisplayValue::Float(value) => DisplayModel::Float(value.text@),
            DisplayValue::String(value) => DisplayModel::String(value@),
            DisplayValue::OffsetDateTime(value) => DisplayModel::OffsetDateTime(value@),
            DisplayValue::LocalDateTime(value) => DisplayModel::LocalDateTime(value@),
            DisplayValue::LocalDate(value) => DisplayModel::LocalDate(value@),
            DisplayValue::LocalTime(value) => DisplayModel::LocalTime(value@),
            DisplayValue::Array(items) => DisplayModel::Array(
                Seq::new(
                    items.len() as nat,
                    |i: int|
                        if 0 <= i < items.len() {
                            items[i].view()
                        } else {
                            DisplayModel::Boolean(false)
                        },
                ),
            ),
            DisplayValue::Table(entries) => DisplayModel::Table(
                Seq::new(entries.len() as nat, |i: int| entries[i].0@),
                Seq::new(
                    entries.len() as nat,
                    |i: int|
                        if 0 <= i < entries.len() {
                            entries[i].1.view()
                        } else {
                            DisplayModel::Boolean(false)
                        },
                ),
            ),
        }
    }
}

/// The values of a list of display values, one by one.
pub open spec fn display_models(values: Seq<DisplayValue>) -> Seq<DisplayModel> {
    Seq::new(values.len(), |i: int| values[i]@)
}

/// The keys of a list of table entries, one by one.
pub open spec fn entry_keys(entries: Seq<(String, DisplayValue)>) -> Seq<Seq<char>> {
    Seq::new(entries.len(), |i: int| entries[i].0@)
}

/// The values of a list of table entries, one by one.
pub open spec fn entry_models(entries: Seq<(String, DisplayValue)>) -> Seq<DisplayModel> {
    Seq::new(entries.len(), |i: int| entries[i].1@)
}

/// The value of an array or a table is made of the values of its parts.
pub proof fn lemma_display_view_parts(value: &DisplayValue)
    ensures
        value matches DisplayValue::Array(items) ==> value@ == DisplayModel::Array(
            display_models(items@),
        ),
        value matches DisplayValue::Table(entries) ==> value@ == DisplayModel::Table(
            entry_keys(entries@),
            entry_models(entries@),
        ),
{
    match value {
        DisplayValue::Array(items) => {
            assert(value@->Array_0 =~= display_models(items@));
        },
        DisplayValue::Table(entries) => {
            assert(value@->Table_0 =~= entry_keys(entries@));
            assert(value@->Table_1 =~= entry_models(entries@));
        },
        _ => {},
    }
}

impl DisplayModel {
    /// The text that shows the value: a scalar as it is written in the
    /// source, a string between double quotes with each double quote in
    /// it behind a backslash, an array as its items between brackets and
    /// a table as its `key: value` entries between braces, each list
    /// separated by a comma and a blank.
    pub open spec fn text(self) -> Seq<char>
        decreases self, 1nat,
    {
        match self {
            DisplayModel::Boolean(value) => if value {
                "true"@
            } else {
                "false"@
            },
            DisplayModel::Integer(value) => decimal(value),
            DisplayModel::Float(value) => value,
            DisplayModel::String(value) => "\""@ + replaced(value, '"', "\\\""@) + "\""@,
            DisplayModel::OffsetDateTime(value) => value,
            DisplayModel::LocalDateTime(value) => value,
            DisplayModel::LocalDate(value) => value,
            DisplayModel::LocalTime(value) => value,
            DisplayModel::Array(items) => "["@ + joined(item_texts(items), ", "@) + "]"@,
            DisplayModel::Table(keys, values) => "{ "@ + joined(
                entry_texts(keys, values),
                ", "@,
            ) + " }"@,
        }
    }
}

/// The texts of the items of an array.
pub open spec fn item_texts(items: Seq<DisplayModel>) -> Seq<Seq<char>>
    decreases items, 0nat,
{
    Seq::new(
        items.len(),
        |i: int|
            if 0 <= i < items.len() {
                items[i].text()
            } else {
                Seq::empty()
            },
    )
}

/// The texts of the entries of a table, each as `key: value`.
pub open spec fn entry_texts(keys: Seq<Seq<char>>, values: Seq<DisplayModel>) -> Seq<Seq<char>>
    decreases values, 0nat,
{
    Seq::new(
        values.len(),
        |i: int|
            if 0 <= i < values.len() {
                keys[i] + ": "@ + values[i].text()
            } else {
                Seq::empty()
            },
    )
}

/// Copies a list of display values.
fn clone_values(items: &Vec<DisplayValue>) -> (r: Vec<DisplayValue>)
    ensures
        display_models(r@) == display_models(items@),
    decreases items,
{
    let mut out: Vec<DisplayValue> = Vec::new();
    let mut i: usize = 0;
    while i < items.len()
        invariant
            i <= items.len(),
            out.len() == i,
            forall|j: int| 0 <= j < i ==> out@[j]@ == items@[j]@,
        decreases items.len() - i,
    {
        out.push(items[i].clone());
        i += 1;
    }
    assert(display_models(out@) =~= display_models(items@));
    out
}

/// Copies a list of table entries.
fn clone_entries(entries: &Vec<(String, DisplayValue)>) -> (r: Vec<(String, DisplayValue)>)
    ensures
        entry_keys(r@) == entry_keys(entries@),
        entry_models(r@) == entry_models(entries@),
    decreases entries,
{
    let mut out: Vec<(String, DisplayValue)> = Vec::new();
    let mut i: usize = 0;
    while i < entries.len()
        invariant
            i <= entries.len(),
            out.len() == i,
            forall|j: int|
                0 <= j < i ==> out@[j].0@ == entries@[j].0@ && out@[j].1@ == entries@[j].1@,
        decreases entries.len() - i,
    {
        out.push((entries[i].0.clone(), entries[i].1.clone()));
        i += 1;
    }
    assert(entry_models(out@) =~= entry_models(entries@));
    assert(entry_keys(out@) =~= entry_keys(entries@));
    out
}

impl Clone for DisplayValue {
    fn clone(&self) -> (r: Self)
        ensures
            r@ == self@,
        decreases self,
    {
        let r = match self {
            DisplayValue::Boolean(value) => DisplayValue::Boolean(*value),
            DisplayValue::Integer(value) => DisplayValue::Integer(*value),
            DisplayValue::Float(value) => DisplayValue::Float(
                FloatText { text: value.text.clone() },
            ),
            DisplayValue::String(value) => DisplayValue::String(value.clone()),
            DisplayValue::OffsetDateTime(value) => DisplayValue::OffsetDateTime(value.clone()),
            DisplayValue::LocalDateTime(value) => DisplayValue::LocalDateTime(value.clone()),
            DisplayValue::LocalDate(value) => DisplayValue::LocalDate(value.clone()),
            DisplayValue::LocalTime(value) => DisplayValue::LocalTime(value.clone()),
            DisplayValue::Array(items) => DisplayValue::Array(clone_values(items)),
            DisplayValue::Table(entries) => DisplayValue::Table(clone_entries(entries)),
        };
        proof {
            lemma_display_view_parts(self);
            lemma_display_view_parts(&r);
        }
        r
    }
}

/// Renders the items of an array, one by one.
fn render_items(items: &Vec<DisplayValue>) -> (r: Vec<String>)
    ensures
        texts(r@) == item_texts(display_models(items@)),
    decreases items,
{
    let ghost ms = display_models(items@);
    let mut parts: Vec<String> = Vec::new();
    let mut i: usize = 0;
    while i < items.len()
        invariant
            i <= items.len(),
            ms == display_models(items@),
            parts.len() == i,
            forall|j: int| 0 <= j < i ==> parts@[j]@ == ms[j].text(),
        decreases items.len() - i,
    {
        parts.push(items[i].to_string());
        i += 1;
    }
    assert(texts(parts@) =~= item_texts(ms));
    parts
}

/// Renders the entries of a table, each as `key: value`.
fn render_entries(entries: &Vec<(String, DisplayValue)>) -> (r: Vec<String>)
    ensures
        texts(r@) == entry_texts(entry_keys(entries@), entry_models(entries@)),
    decreases entries,
{
    let ghost ms = entry_models(entries@);
    let ghost ks = entry_keys(entries@);
    let mut parts: Vec<String> = Vec::new();
    let mut i: usize = 0;
    while i < entries.len()
        invariant
            i <= entries.len(),
            ms == entry_models(entries@),
            ks == entry_keys(entries@),
            parts.len() == i,
            forall|j: int| 0 <= j < i ==> parts@[j]@ == ks[j] + ": "@ + ms[j].text(),
        decreases entries.len() - i,
    {
        let mut part = entries[i].0.clone();
        part.append(": ");
        let value = entries[i].1.to_string();
        part.append(value.as_str());
        parts.push(part);
        i += 1;
    }
    assert(texts(parts@) =~= entry_texts(ks, ms));
    parts
}

impl DisplayValue {
    /// Renders the value.
    #[must_use]
    pub fn to_string(&self) -> (r: String)
        ensures
            r@ == self@.text(),
        decreases self,
    {
        proof {
            lemma_display_view_parts(self);
        }
        match self {
            Self::Boolean(boolean) => if *boolean {
                "true".to_owned()
            } else {
                "false".to_owned()
            },
            Self::Integer(integer) => decimal_string(*integer as i128),
            Self::Float(float) => float.text.clone(),
            Self::String(string) => {
                let escaped = replace_char(string.as_str(), '"', "\\\"");
                let mut out = "\"".to_owned();
                out.append(escaped.as_str());
                out.append("\"");
                out
            },
            Self::OffsetDateTime(offset_date_time) => offset_date_time.clone(),
            Self::LocalDateTime(local_date_time) => local_date_time.clone(),
            Self::LocalDate(local_date) => local_date.clone(),
            Self::LocalTime(local_time) => local_time.clone(),
            Self::Array(array) => {
                let parts = render_items(array);
                let body = join(&parts, ", ");
                let mut out = "[".to_owned();
                out.append(body.as_str());
                out.append("]");
                out
            },
            Self::Table(table) => {
                let parts = render_entries(table);
                let body = join(&parts, ", ");
                let mut out = "{ ".to_owned();
                out.append(body.as_str());
                out.append(" }");
                out
            },
        }
    }
}

/// The values a scalar schema lists: its constant, if it has one, and
/// behind it the values of its enumeration.
pub open spec fn listed<T>(const_value: Option<T>, enumerate: Option<Seq<T>>) -> Seq<T> {
    (match const_value {
        Some(value) => seq![value],
        None => Seq::empty(),
    }) + (match enumerate {
        Some(values) => values,
        None => Seq::empty(),
    })
}

/// Which kind of value a text stands for.
#[derive(Clone, Copy, Debug, PartialEq, Eq, Structural)]
pub enum TextKind {
    String,
    OffsetDateTime,
    LocalDateTime,
    LocalDate,
    LocalTime,
}

impl TextKind {
    /// The display value of this kind with the text `text`.
    pub open spec fn model(self, text: Seq<char>) -> DisplayModel {
        match self {
            TextKind::String => DisplayModel::String(text),
            TextKind::OffsetDateTime => DisplayModel::OffsetDateTime(text),
            TextKind::LocalDateTime => DisplayModel::LocalDateTime(text),
            TextKind::LocalDate => DisplayModel::LocalDate(text),
            TextKind::LocalTime => DisplayModel::LocalTime(text),
        }
    }

    /// Builds the display value of this kind with a copy of `text`.
    fn wrap(self, text: &String) -> (r: DisplayValue)
        ensures
            r@ == self.model(text@),
    {
        match self {
            TextKind::String => DisplayValue::String(text.clone()),
            TextKind::OffsetDateTime => DisplayValue::OffsetDateTime(text.clone()),
            TextKind::LocalDateTime => DisplayValue::LocalDateTime(text.clone()),
            TextKind::LocalDate => DisplayValue::LocalDate(text.clone()),
            TextKind::LocalTime => DisplayValue::LocalTime(text.clone()),
        }
    }
}

/// The display values of the booleans `values`.
pub open spec fn boolean_models(values: Seq<bool>) -> Seq<DisplayModel> {
    Seq::new(values.len(), |i: int| DisplayModel::Boolean(values[i]))
}

/// The display values of the integers `values`.
pub open spec fn integer_models(values: Seq<i64>) -> Seq<DisplayModel> {
    Seq::new(values.len(), |i: int| DisplayModel::Integer(values[i] as int))
}

/// The display values of the floating-point numbers `values`.
pub open spec fn float_models(values: Seq<FloatText>) -> Seq<DisplayModel> {
    Seq::new(values.len(), |i: int| DisplayModel::Float(values[i].text@))
}

/// The display values of kind `kind` of the texts `values`.
pub open spec fn text_models(kind: TextKind, values: Seq<String>) -> Seq<DisplayModel> {
    Seq::new(values.len(), |i: int| kind.model(values[i]@))
}

/// The items of an optional list.
pub open spec fn items_of<T>(value: Option<Vec<T>>) -> Option<Seq<T>> {
    match value {
        Some(items) => Some(items@),
        None => None,
    }
}

impl ValueSchema {
    /// The values the schema allows by name: for a scalar schema its
    /// constant, then its enumeration; for a combination what the
    /// schemas in it that are resolved allow, in their order; nothing
    /// for an array, a table and null.
    pub open spec fn enumerated(&self) -> Seq<DisplayModel>
        decreases self, 1nat,
    {
        match self {
            ValueSchema::Boolean(schema) => boolean_models(
                listed(schema.const_value, items_of(schema.enumerate)),
            ),
            ValueSchema::Integer(schema) => integer_models(
                listed(schema.const_value, items_of(schema.enumerate)),
            ),
            ValueSchema::Float(schema) => float_models(
                listed(schema.const_value, items_of(schema.enumerate)),
            ),
            ValueSchema::String(schema) => text_models(
                TextKind::String,
                listed(schema.const_value, items_of(schema.enumerate)),
            ),
            ValueSchema::OffsetDateTime(schema) => text_models(
                TextKind::OffsetDateTime,
                listed(schema.const_value, items_of(schema.enumerate)),
            ),
            ValueSchema::LocalDateTime(schema) => text_models(
                TextKind::LocalDateTime,
                listed(schema.const_value, items_of(schema.enumerate)),
            ),
            ValueSchema::LocalDate(schema) => text_models(
                TextKind::LocalDate,
                listed(schema.const_value, items_of(schema.enumerate)),
            ),
            ValueSchema::LocalTime(schema) => text_models(
                TextKind::LocalTime,
                listed(schema.const_value, items_of(schema.enumerate)),
            ),
            ValueSchema::Array(_) | ValueSchema::Table(_) | ValueSchema::Null => Seq::empty(),
            ValueSchema::OneOf(schema) => enumerated_by(schema.schemas@),
            ValueSchema::AnyOf(schema) => enumerated_by(schema.schemas@),
            ValueSchema::AllOf(schema) => enumerated_by(schema.schemas@),
        }
    }
}

/// What the resolved ones among `schemas` allow by name, in their order.
pub open spec fn enumerated_by(schemas: Seq<Referable>) -> Seq<DisplayModel>
    decreases schemas, 0nat,
{
    if schemas.len() == 0 {
        Seq::empty()
    } else {
        enumerated_by(schemas.drop_last()) + (match schemas.last() {
            Referable::Resolved(schema) => schema.enumerated(),
            Referable::Ref(_) => Seq::empty(),
        })
    }
}

/// A list of values as an answer: none at all if the list is empty.
pub open spec fn some_unless_empty(values: Seq<DisplayModel>) -> Option<Seq<DisplayModel>> {
    if values.len() == 0 {
        None
    } else {
        Some(values)
    }
}

/// The values of an optional list of display values.
pub open spec fn opt_display_models(values: Option<Vec<DisplayValue>>) -> Option<
    Seq<DisplayModel>,
> {
    match values {
        Some(items) => Some(display_models(items@)),
        None => None,
    }
}

fn non_empty(values: Vec<DisplayValue>) -> (r: Option<Vec<DisplayValue>>)
    ensures
        opt_display_models(r) == some_unless_empty(display_models(values@)),
{
    if values.len() == 0 {
        None
    } else {
        Some(values)
    }
}

fn list_booleans(const_value: &Option<bool>, enumerate: &Option<Vec<bool>>) -> (r: Vec<
    DisplayValue,
>)
    ensures
        display_models(r@) == boolean_models(listed(*const_value, items_of(*enumerate))),
{
    let mut enumerate_values: Vec<DisplayValue> = Vec::new();
    if let Some(const_value) = const_value {
        enumerate_values.push(DisplayValue::Boolean(*const_value));
    }
    assert(display_models(enumerate_values@) =~= boolean_models(
        listed(*const_value, None::<Seq<bool>>),
    ));
    match enumerate {
        Some(enumerate) => {
            let mut i: usize = 0;
            assert(enumerate@.take(0) =~= Seq::<bool>::empty());
            assert(listed(*const_value, Some(enumerate@.take(0))) =~= listed(
                *const_value,
                None::<Seq<bool>>,
            ));
            while i < enumerate.len()
                invariant
                    i <= enumerate.len(),
                    display_models(enumerate_values@) == boolean_models(
                        listed(*const_value, Some(enumerate@.take(i as int))),
                    ),
                decreases enumerate.len() - i,
            {
                let ghost before = enumerate_values@;
                let ghost listed_before = listed(*const_value, Some(enumerate@.take(i as int)));
                let ghost listed_after = listed(*const_value, Some(enumerate@.take(i + 1)));
                enumerate_values.push(DisplayValue::Boolean(enumerate[i]));
                proof {
                    assert(listed_after =~= listed_before.push(enumerate@[i as int]));
                    assert(display_models(before).len() == listed_before.len());
                    assert forall|j: int| 0 <= j < before.len() implies display_models(
                        enumerate_values@,
                    )[j] == boolean_models(listed_after)[j] by {
                        assert(display_models(before)[j] == boolean_models(listed_before)[j]);
                    }
                    assert(display_models(enumerate_values@) =~= boolean_models(listed_after));
                }
                i += 1;
            }
            assert(enumerate@.take(i as int) =~= enumerate@);
        },
        None => {},
    }
    enumerate_values
}

fn list_integers(const_value: &Option<i64>, enumerate: &Option<Vec<i64>>) -> (r: Vec<
    DisplayValue,
>)
    ensures
        display_models(r@) == integer_models(listed(*const_value, items_of(*enumerate))),
{
    let mut enumerate_values: Vec<DisplayValue> = Vec::new();
    if let Some(const_value) = const_value {
        enumerate_values.push(DisplayValue::Integer(*const_value));
    }
    assert(display_models(enumerate_values@) =~= integer_models(
        listed(*const_value, None::<Seq<i64>>),
    ));
    match enumerate {
        Some(enumerate) => {
            let mut i: usize = 0;
            assert(enumerate@.take(0) =~= Seq::<i64>::empty());
            assert(listed(*const_value, Some(enumerate@.take(0))) =~= listed(
                *const_value,
                None::<Seq<i64>>,
            ));
            while i < enumerate.len()
                invariant
                    i <= enumerate.len(),
                    display_models(enumerate_values@) == integer_models(
                        listed(*const_value, Some(enumerate@.take(i as int))),
                    ),
                decreases enumerate.len() - i,
            {
                let ghost before = enumerate_values@;
                let ghost listed_before = listed(*const_value, Some(enumerate@.take(i as int)));
                let ghost listed_after = listed(*const_value, Some(enumerate@.take(i + 1)));
                enumerate_values.push(DisplayValue::Integer(enumerate[i]));
                proof {
                    assert(listed_after =~= listed_before.push(enumerate@[i as int]));
                    assert(display_models(before).len() == listed_before.len());
                    assert forall|j: int| 0 <= j < before.len() implies display_models(
                        enumerate_values@,
                    )[j] == integer_models(listed_after)[j] by {
                        assert(display_models(before)[j] == integer_models(listed_before)[j]);
                    }
                    assert(display_models(enumerate_values@) =~= integer_models(listed_after));
                }
                i += 1;
            }
            assert(enumerate@.take(i as int) =~= enumerate@);
        },
        None => {},
    }
    enumerate_values
}

fn list_floats(const_value: &Option<FloatText>, enumerate: &Option<Vec<FloatText>>) -> (r: Vec<
    DisplayValue,
>)
    ensures
        display_models(r@) == float_models(listed(*const_value, items_of(*enumerate))),
{
    let mut enumerate_values: Vec<DisplayValue> = Vec::new();
    if let Some(const_value) = const_value {
        enumerate_values.push(DisplayValue::Float(FloatText { text: const_value.text.clone() }));
    }
    assert(display_models(enumerate_values@) =~= float_models(
        listed(*const_value, None::<Seq<FloatText>>),
    ));
    match enumerate {
        Some(enumerate) => {
            let mut i: usize = 0;
            assert(enumerate@.take(0) =~= Seq::<FloatText>::empty());
            assert(listed(*const_value, Some(enumerate@.take(0))) =~= listed(
                *const_value,
                None::<Seq<FloatText>>,
            ));
            while i < enumerate.len()
                invariant
                    i <= enumerate.len(),
                    display_models(enumerate_values@) == float_models(
                        listed(*const_value, Some(enumerate@.take(i as int))),
                    ),
                decreases enumerate.len() - i,
            {
                let ghost before = enumerate_values@;
                let ghost listed_before = listed(*const_value, Some(enumerate@.take(i as int)));
                let ghost listed_after = listed(*const_value, Some(enumerate@.take(i + 1)));
                enumerate_values.push(DisplayValue::Float(FloatText { text: enumerate[i].text.clone() }));
                proof {
                    assert(listed_after =~= listed_before.push(enumerate@[i as int]));
                    assert(display_models(before).len() == listed_before.len());
                    assert forall|j: int| 0 <= j < before.len() implies display_models(
                        enumerate_values@,
                    )[j] == float_models(listed_after)[j] by {
                        assert(display_models(before)[j] == float_models(listed_before)[j]);
                    }
                    assert(display_models(enumerate_values@) =~= float_models(listed_after));
                }
                i += 1;
            }
            assert(enumerate@.take(i as int) =~= enumerate@);
        },
        None => {},
    }
    enumerate_values
}

fn list_texts(kind: TextKind, const_value: &Option<String>, enumerate: &Option<Vec<String>>) -> (r: Vec<
    DisplayValue,
>)
    ensures
        display_models(r@) == text_models(kind, listed(*const_value, items_of(*enumerate))),
{
    let mut enumerate_values: Vec<DisplayValue> = Vec::new();
    if let Some(const_value) = const_value {
        enumerate_values.push(kind.wrap(const_value));
    }
    assert(display_models(enumerate_values@) =~= text_models(kind, 
        listed(*const_value, None::<Seq<String>>),
    ));
    match enumerate {
        Some(enumerate) => {
            let mut i: usize = 0;
            assert(enumerate@.take(0) =~= Seq::<String>::empty());
            assert(listed(*const_value, Some(enumerate@.take(0))) =~= listed(
                *const_value,
                None::<Seq<String>>,
            ));
            while i < enumerate.len()
                invariant
                    i <= enumerate.len(),
                    display_models(enumerate_values@) == text_models(kind, 
                        listed(*const_value, Some(enumerate@.take(i as int))),
                    ),
                decreases enumerate.len() - i,
            {
                let ghost before = enumerate_values@;
                let ghost listed_before = listed(*const_value, Some(enumerate@.take(i as int)));
                let ghost listed_after = listed(*const_value, Some(enumerate@.take(i + 1)));
                enumerate_values.push(kind.wrap(&enumerate[i]));
                proof {
                    assert(listed_after =~= listed_before.push(enumerate@[i as int]));
                    assert(display_models(before).len() == listed_before.len());
                    assert forall|j: int| 0 <= j < before.len() implies display_models(
                        enumerate_values@,
                    )[j] == text_models(kind, listed_after)[j] by {
                        assert(display_models(before)[j] == text_models(kind, listed_before)[j]);
                    }
                    assert(display_models(enumerate_values@) =~= text_models(kind, listed_after));
                }
                i += 1;
            }
            assert(enumerate@.take(i as int) =~= enumerate@);
        },
        None => {},
    }
    enumerate_values
}

/// Asks each of a schema for the values it allows by name.
pub trait GetEnumerate {
    fn get_enumerate(&self) -> Option<Vec<DisplayValue>>;
}

impl GetEnumerate for ValueSchema {
    /// The values the schema allows by name, or `None` if it names none.
    fn get_enumerate(&self) -> (r: Option<Vec<DisplayValue>>)
        ensures
            opt_display_models(r) == some_unless_empty(self.enumerated()),
    {
        non_empty(collect_enumerate(self))
    }
}

/// Collects the values `schema` allows by name.
fn collect_enumerate(schema: &ValueSchema) -> (r: Vec<DisplayValue>)
    ensures
        display_models(r@) == schema.enumerated(),
    decreases schema,
{
    match schema {
        ValueSchema::Boolean(schema) => list_booleans(&schema.const_value, &schema.enumerate),
        ValueSchema::Integer(schema) => list_integers(&schema.const_value, &schema.enumerate),
        ValueSchema::Float(schema) => list_floats(&schema.const_value, &schema.enumerate),
        ValueSchema::String(schema) => list_texts(
            TextKind::String,
            &schema.const_value,
            &schema.enumerate,
        ),
        ValueSchema::OffsetDateTime(schema) => list_texts(
            TextKind::OffsetDateTime,
            &schema.const_value,
            &schema.enumerate,
        ),
        ValueSchema::LocalDateTime(schema) => list_texts(
            TextKind::LocalDateTime,
            &schema.const_value,
            &schema.enumerate,
        ),
        ValueSchema::LocalDate(schema) => list_texts(
            TextKind::LocalDate,
            &schema.const_value,
            &schema.enumerate,
        ),
        ValueSchema::LocalTime(schema) => list_texts(
            TextKind::LocalTime,
            &schema.const_value,
            &schema.enumerate,
        ),
        ValueSchema::Array(_) | ValueSchema::Table(_) | ValueSchema::Null => {
            let r: Vec<DisplayValue> = Vec::new();
            assert(display_models(r@) =~= Seq::<DisplayModel>::empty());
            r
        },
        ValueSchema::OneOf(schema) => collect_enumerate_of(&schema.schemas),
        ValueSchema::AnyOf(schema) => collect_enumerate_of(&schema.schemas),
        ValueSchema::AllOf(schema) => collect_enumerate_of(&schema.schemas),
    }
}

/// Collects what the resolved ones among `schemas` allow by name.
fn collect_enumerate_of(schemas: &Vec<Referable>) -> (r: Vec<DisplayValue>)
    ensures
        display_models(r@) == enumerated_by(schemas@),
    decreases schemas,
{
    let mut enumerate_values: Vec<DisplayValue> = Vec::new();
    let mut i: usize = 0;
    assert(display_models(enumerate_values@) =~= enumerated_by(schemas@.take(0)));
    while i < schemas.len()
        invariant
            i <= schemas.len(),
            display_models(enumerate_values@) == enumerated_by(schemas@.take(i as int)),
        decreases schemas.len() - i,
    {
        assert(schemas@.take(i + 1).drop_last() =~= schemas@.take(i as int));
        if let Referable::Resolved(schema) = &schemas[i] {
            let mut values = collect_enumerate(schema);
            let ghost before = enumerate_values@;
            let ghost added = values@;
            enumerate_values.append(&mut values);
            assert(display_models(enumerate_values@) =~= display_models(before) + display_models(
                added,
            ));
        }
        i += 1;
    }
    assert(schemas@.take(i as int) =~= schemas@);
    enumerate_values
}

/// Collects what a combination of `schemas` allows by name, or `None`
/// if it names no value.
pub fn get_enumerate_from_schemas(schemas: &Vec<Referable>) -> (r: Option<Vec<DisplayValue>>)
    ensures
        opt_display_models(r) == some_unless_empty(enumerated_by(schemas@)),
{
    non_empty(collect_enumerate_of(schemas))
}

impl JsonModel {
    /// Whether neither the value nor anything in it is null.
    pub open spec fn null_free(self) -> bool
        decreases self, 1nat,
    {
        match self {
            JsonModel::Null => false,
            JsonModel::Array(items) => all_null_free(items),
            JsonModel::Object(_, values) => all_null_free(values),
            _ => true,
        }
    }

    /// The value as one to show. Null shows as nothing, and stands here
    /// for the boolean `false`.
    pub open spec fn shown(self) -> DisplayModel
        decreases self, 1nat,
    {
        match self {
            JsonModel::Null => DisplayModel::Boolean(false),
            JsonModel::Bool(value) => DisplayModel::Boolean(value),
            JsonModel::Integer(value) => DisplayModel::Integer(value),
            JsonModel::Float(text) => DisplayModel::Float(text),
            JsonModel::String(text) => DisplayModel::String(text),
            JsonModel::Array(items) => DisplayModel::Array(all_shown(items)),
            JsonModel::Object(keys, values) => DisplayModel::Table(keys, all_shown(values)),
        }
    }
}

/// Whether nothing in `values` is null.
pub open spec fn all_null_free(values: Seq<JsonModel>) -> bool
    decreases values, 0nat,
{
    forall|i: int| #![trigger values[i]] 0 <= i < values.len() ==> values[i].null_free()
}

/// The values to show for `values`, one by one.
pub open spec fn all_shown(values: Seq<JsonModel>) -> Seq<DisplayModel>
    decreases values, 0nat,
{
    Seq::new(
        values.len(),
        |i: int|
            if 0 <= i < values.len() {
                values[i].shown()
            } else {
                DisplayModel::Boolean(false)
            },
    )
}

/// The keys of `keys` whose value in `values` is not null, in their
/// order.
pub open spec fn kept_keys(keys: Seq<Seq<char>>, values: Seq<JsonModel>) -> Seq<Seq<char>>
    decreases values.len(),
{
    if values.len() == 0 || keys.len() != values.len() {
        Seq::empty()
    } else if values.last() is Null {
        kept_keys(keys.drop_last(), values.drop_last())
    } else {
        kept_keys(keys.drop_last(), values.drop_last()).push(keys.last())
    }
}

/// The values to show for those of `values` that are not null, in their
/// order.
pub open spec fn kept_shown(values: Seq<JsonModel>) -> Seq<DisplayModel>
    decreases values.len(),
{
    if values.len() == 0 {
        Seq::empty()
    } else if values.last() is Null {
        kept_shown(values.drop_last())
    } else {
        kept_shown(values.drop_last()).push(values.last().shown())
    }
}

/// Converts the items of an array none of which holds a null.
fn show_items(items: &Vec<Value>) -> (r: Vec<DisplayValue>)
    requires
        all_null_free(json_models(items@)),
    ensures
        display_models(r@) == all_shown(json_models(items@)),
    decreases items,
{
    let mut out: Vec<DisplayValue> = Vec::new();
    let mut i: usize = 0;
    while i < items.len()
        invariant
            i <= items.len(),
            all_null_free(json_models(items@)),
            out.len() == i,
            forall|j: int| 0 <= j < i ==> out@[j]@ == items@[j]@.shown(),
        decreases items.len() - i,
    {
        assert(json_models(items@)[i as int].null_free());
        out.push(DisplayValue::show(&items[i]));
        i += 1;
    }
    assert(display_models(out@) =~= all_shown(json_models(items@)));
    out
}

/// Converts the entries of an object none of whose values holds a null.
fn show_entries(entries: &Vec<(String, Value)>) -> (r: Vec<(String, DisplayValue)>)
    requires
        all_null_free(json_values(entries@)),
    ensures
        entry_keys(r@) == json_keys(entries@),
        entry_models(r@) == all_shown(json_values(entries@)),
    decreases entries,
{
    let mut out: Vec<(String, DisplayValue)> = Vec::new();
    let mut i: usize = 0;
    while i < entries.len()
        invariant
            i <= entries.len(),
            all_null_free(json_values(entries@)),
            out.len() == i,
            forall|j: int|
                0 <= j < i ==> out@[j].0@ == entries@[j].0@ && out@[j].1@
                    == entries@[j].1@.shown(),
        decreases entries.len() - i,
    {
        assert(json_values(entries@)[i as int].null_free());
        out.push((entries[i].0.clone(), DisplayValue::show(&entries[i].1)));
        i += 1;
    }
    assert(entry_keys(out@) =~= json_keys(entries@));
    assert(entry_models(out@) =~= all_shown(json_values(entries@)));
    out
}

impl DisplayValue {
    /// The value to show for a JSON value that neither is nor holds a
    /// null.
    fn show(value: &Value) -> (r: Self)
        requires
            value@.null_free(),
        ensures
            r@ == value@.shown(),
        decreases value,
    {
        proof {
            lemma_json_view_parts(value);
        }
        let r = match value {
            Value::Null => Self::Boolean(false),
            Value::Bool(boolean) => Self::Boolean(*boolean),
            Value::Number(number) => match number {
                Number::Integer(integer) => Self::Integer(*integer),
                Number::Float(float) => Self::Float(FloatText { text: float.text.clone() }),
            },
            Value::String(string) => Self::String(string.clone()),
            Value::Array(array) => Self::Array(show_items(array)),
            Value::Object(object) => Self::Table(show_entries(object.entries())),
        };
        proof {
            lemma_display_view_parts(&r);
        }
        r
    }

    /// The value to show for a JSON value. Null is not shown. A null
    /// inside an array or an object cannot be shown either: the value
    /// must hold none.
    pub fn try_from_json(value: &Value) -> (r: Result<Self, ()>)
        requires
            value@ is Null || value@.null_free(),
        ensures
            r is Err == value@ is Null,
            r matches Ok(shown) ==> shown@ == value@.shown(),
    {
        proof {
            lemma_json_view_parts(value);
        }
        match value {
            Value::Null => Err(()),
            _ => Ok(Self::show(value)),
        }
    }

    /// The table to show for a JSON object: its entries without those
    /// whose value is null. A null deeper inside cannot be shown: the
    /// values must hold none.
    #[must_use]
    pub fn from_object(object: &Object) -> (r: Self)
        requires
            forall|i: int|
                #![trigger object.values()[i]]
                0 <= i < object.values().len() ==> object.values()[i] is Null
                    || object.values()[i].null_free(),
        ensures
            r@ == DisplayModel::Table(
                kept_keys(object.keys(), object.values()),
                kept_shown(object.values()),
            ),
    {
        let entries = object.entries();
        let ghost keys = object.keys();
        let ghost values = object.values();
        let mut out: Vec<(String, DisplayValue)> = Vec::new();
        let mut i: usize = 0;
        proof {
            assert(keys.take(0) =~= Seq::<Seq<char>>::empty());
            assert(values.take(0) =~= Seq::<JsonModel>::empty());
            assert(entry_keys(out@) =~= kept_keys(keys.take(0), values.take(0)));
            assert(entry_models(out@) =~= kept_shown(values.take(0)));
        }
        while i < entries.len()
            invariant
                i <= entries.len(),
                keys == json_keys(entries@),
                values == json_values(entries@),
                forall|j: int|
                    #![trigger values[j]]
                    0 <= j < values.len() ==> values[j] is Null || values[j].null_free(),
                entry_keys(out@) == kept_keys(keys.take(i as int), values.take(i as int)),
                entry_models(out@) == kept_shown(values.take(i as int)),
            decreases entries.len() - i,
        {
            let ghost before = out@;
            proof {
                assert(keys.take(i + 1).drop_last() =~= keys.take(i as int));
                assert(values.take(i + 1).drop_last() =~= values.take(i as int));
                assert(values.take(i + 1).last() == values[i as int]);
                assert(keys.take(i + 1).last() == keys[i as int]);
                lemma_json_view_parts(&entries@[i as int].1);
            }
            match &entries[i].1 {
                Value::Null => {},
                value => {
                    let shown = Self::show(value);
                    let key = entries[i].0.clone();
                    out.push((key, shown));
                    proof {
                        assert(entry_keys(out@) =~= entry_keys(before).push(key@));
                        assert(entry_models(out@) =~= entry_models(before).push(shown@));
                    }
                },
            }
            i += 1;
        }
        proof {
            assert(keys.take(i as int) =~= keys);
            assert(values.take(i as int) =~= values);
        }
        let r = Self::Table(out);
        proof {
            lemma_display_view_parts(&r);
        }
        r
    }
}

impl DisplayValue {
    /// The offset date-time with the text `local_date_time`, which has
    /// to be written as a local date-time is: a date, `T` and a time.
    pub fn try_new_offset_date_time(local_date_time: &str) -> (r: Result<
        Self,
        crate::date_time::Error,
    >)
        ensures
            crate::scan::is_local_date_time(local_date_time@) ==> r is Ok && r->Ok_0@
                == DisplayModel::OffsetDateTime(local_date_time@),
            !crate::scan::is_local_date_time(local_date_time@) ==> r == Err::<
                Self,
                crate::date_time::Error,
            >(crate::date_time::Error::ExpectedLocalDateTime),
    {
        let word = crate::strings::chars_of(local_date_time);
        if crate::scan::check_date_time_until(&word, word.len()) {
            Ok(Self::OffsetDateTime(local_date_time.to_owned()))
        } else {
            Err(crate::date_time::Error::ExpectedLocalDateTime)
        }
    }

    /// The local date-time with the text `local_date_time`, if it is
    /// written as one: a date, `T` and a time.
    pub fn try_new_local_date_time(local_date_time: &str) -> (r: Result<
        Self,
        crate::date_time::Error,
    >)
        ensures
            crate::scan::is_local_date_time(local_date_time@) ==> r is Ok && r->Ok_0@
                == DisplayModel::LocalDateTime(local_date_time@),
            !crate::scan::is_local_date_time(local_date_time@) ==> r == Err::<
                Self,
                crate::date_time::Error,
            >(crate::date_time::Error::ExpectedLocalDateTime),
    {
        let word = crate::strings::chars_of(local_date_time);
        if crate::scan::check_date_time_until(&word, word.len()) {
            Ok(Self::LocalDateTime(local_date_time.to_owned()))
        } else {
            Err(crate::date_time::Error::ExpectedLocalDateTime)
        }
    }

    /// The local date with the text `local_date`, if it is written as
    /// one: year, month and day with hyphens between them.
    pub fn try_new_local_date(local_date: &str) -> (r: Result<Self, crate::date_time::Error>)
        ensures
            crate::scan::is_local_date(local_date@) ==> r is Ok && r->Ok_0@
                == DisplayModel::LocalDate(local_date@),
            !crate::scan::is_local_date(local_date@) ==> r == Err::<
                Self,
                crate::date_time::Error,
            >(crate::date_time::Error::ExpectedLocalDate),
    {
        let word = crate::strings::chars_of(local_date);
        if word.len() == 10 && crate::scan::check_date_at(&word, 0) {
            Ok(Self::LocalDate(local_date.to_owned()))
        } else {
            Err(crate::date_time::Error::ExpectedLocalDate)
        }
    }

    /// The local time with the text `local_time`, if it is written as
    /// one: hour, minute and second with colons between them, and
    /// possibly a fraction of the second.
    pub fn try_new_local_time(local_time: &str) -> (r: Result<Self, crate::date_time::Error>)
        ensures
            crate::scan::is_local_time(local_time@) ==> r is Ok && r->Ok_0@
                == DisplayModel::LocalTime(local_time@),
            !crate::scan::is_local_time(local_time@) ==> r == Err::<
                Self,
                crate::date_time::Error,
            >(crate::date_time::Error::ExpectedLocalTime),
    {
        let word = crate::strings::chars_of(local_time);
        if crate::scan::check_time_at(&word, 0, word.len()) {
            Ok(Self::LocalTime(local_time.to_owned()))
        } else {
            Err(crate::date_time::Error::ExpectedLocalTime)
        }
    }
}

} // verus!
