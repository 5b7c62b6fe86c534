//! The type of a value as a schema describes it: one of the basic types,
//! or a combination of alternatives.

use crate::strings::{join, joined, push_char, texts};
use indexmap::IndexSet;
use vstd::prelude::*;
use vstd::string::StringExecFns;
use vstd::std_specs::cmp::PartialEqSpecImpl;

verus! {

/// The type a schema gives to a value.
#[derive(Debug, Eq, Hash)]
pub enum ValueType {
    Null,
    Boolean,
    Integer,
    Float,
    String,
    OffsetDateTime,
    LocalDateTime,
    LocalDate,
    LocalTime,
    Array,
    Table,
    OneOf(Vec<ValueType>),
    AnyOf(Vec<ValueType>),
    AllOf(Vec<ValueType>),
}

/// The mathematical value of a `ValueType`.
pub ghost enum TypeModel {
    Null,
    Boolean,
    Integer,
    Float,
    String,
    OffsetDateTime,
    LocalDateTime,
    LocalDate,
    LocalTime,
    Array,
    Table,
    OneOf(Seq<TypeModel>),
    AnyOf(Seq<TypeModel>),
    AllOf(Seq<TypeModel>),
}

/// The values of a list of types, one by one.
pub open spec fn models(types: Seq<ValueType>) -> Seq<TypeModel> {
    Seq::new(types.len(), |i: int| types[i]@)
}

impl View for ValueType {
    type V = TypeModel;

    open spec fn view(&self) -> TypeModel
        decreases self,
    {
        match self {
            ValueType::Null => TypeModel::Null,
            ValueType::Boolean => TypeModel::Boolean,
            ValueType::Integer => TypeModel::Integer,
            ValueType::Float => TypeModel::Float,
            ValueType::String => TypeModel::String,
            ValueType::OffsetDateTime => TypeModel::OffsetDateTime,
            ValueType::LocalDateTime => TypeModel::LocalDateTime,
            ValueType::LocalDate => TypeModel::LocalDate,
            ValueType::LocalTime => TypeModel::LocalTime,
            ValueType::Array => TypeModel::Array,
            ValueType::Table => TypeModel::Table,
            ValueType::OneOf(types) => TypeModel::OneOf(
                Seq::new(
                    types.len() as nat,
                    |i: int|
                        if 0 <= i < types.len() {
                            types[i].view()
                        } else {
                            TypeModel::Null
                        },
                ),
            ),
            ValueType::AnyOf(types) => TypeModel::AnyOf(
                Seq::new(
                    types.len() as nat,
                    |i: int|
                        if 0 <= i < types.len() {
                            types[i].view()
                        } else {
                            TypeModel::Null
                        },
                ),
            ),
            ValueType::AllOf(types) => TypeModel::AllOf(
                Seq::new(
                    types.len() as nat,
                    |i: int|
                        if 0 <= i < types.len() {
                            types[i].view()
                        } else {
                            TypeModel::Null
                        },
                ),
            ),
        }
    }
}

impl TypeModel {
    /// Whether the type admits the absence of a value: `Null` does, a
    /// choice (`OneOf`, `AnyOf`) does if one alternative does, and a
    /// conjunction (`AllOf`) does if all its parts do.
    pub open spec fn is_nullable(self) -> bool
        decreases self,
    {
        match self {
            TypeModel::Null => true,
            TypeModel::OneOf(types) => exists|i: int|
                #![trigger types[i]]
                0 <= i < types.len() && types[i].is_nullable(),
            TypeModel::AnyOf(types) => exists|i: int|
                #![trigger types[i]]
                0 <= i < types.len() && types[i].is_nullable(),
            TypeModel::AllOf(types) => forall|i: int|
                #![trigger types[i]]
                0 <= i < types.len() ==> types[i].is_nullable(),
            _ => false,
        }
    }
}

/// One of `types` admits the absence of a value.
pub open spec fn some_nullable(types: Seq<TypeModel>) -> bool {
    exists|i: int| #![trigger types[i]] 0 <= i < types.len() && types[i].is_nullable()
}

/// All of `types` admit the absence of a value.
pub open spec fn every_nullable(types: Seq<TypeModel>) -> bool {
    forall|i: int| #![trigger types[i]] 0 <= i < types.len() ==> types[i].is_nullable()
}

/// How `is_nullable` goes from a combination to its parts.
pub proof fn lemma_nullable_parts(types: Seq<TypeModel>)
    ensures
        TypeModel::OneOf(types).is_nullable() <==> some_nullable(types),
        TypeModel::AnyOf(types).is_nullable() <==> some_nullable(types),
        TypeModel::AllOf(types).is_nullable() <==> every_nullable(types),
{
    let one = TypeModel::OneOf(types);
    let any = TypeModel::AnyOf(types);
    let all = TypeModel::AllOf(types);
    if exists|i: int| 0 <= i < types.len() && (#[trigger] types[i]).is_nullable() {
        let k = choose|i: int| 0 <= i < types.len() && (#[trigger] types[i]).is_nullable();
        assert(one->OneOf_0[k].is_nullable());
        assert(any->AnyOf_0[k].is_nullable());
    }
    if forall|i: int| 0 <= i < types.len() ==> (#[trigger] types[i]).is_nullable() {
        assert forall|i: int| 0 <= i < all->AllOf_0.len() implies (
        #[trigger] all->AllOf_0[i]).is_nullable() by {
            assert(types[i].is_nullable());
        }
    }
    if all.is_nullable() {
        assert forall|i: int| 0 <= i < types.len() implies (#[trigger] types[i]).is_nullable() by {
            assert(all->AllOf_0[i].is_nullable());
        }
    }
}

/// The value of a combination is made of the values of its parts.
pub proof fn lemma_view_parts(value_type: &ValueType)
    ensures
        value_type matches ValueType::OneOf(types) ==> value_type@ == TypeModel::OneOf(
            models(types@),
        ),
        value_type matches ValueType::AnyOf(types) ==> value_type@ == TypeModel::AnyOf(
            models(types@),
        ),
        value_type matches ValueType::AllOf(types) ==> value_type@ == TypeModel::AllOf(
            models(types@),
        ),
{
    match value_type {
        ValueType::OneOf(types) => {
            assert(value_type@->OneOf_0 =~= models(types@));
        },
        ValueType::AnyOf(types) => {
            assert(value_type@->AnyOf_0 =~= models(types@));
        },
        ValueType::AllOf(types) => {
            assert(value_type@->AllOf_0 =~= models(types@));
        },
        _ => {},
    }
}

/// Decides whether two lists of types have the same values.
fn same_types(left: &Vec<ValueType>, right: &Vec<ValueType>) -> (r: bool)
    ensures
        r == (models(left@) == models(right@)),
    decreases left,
{
    if left.len() != right.len() {
        assert(models(left@).len() != models(right@).len());
        return false;
    }
    let mut i: usize = 0;
    while i < left.len()
        invariant
            i <= left.len(),
            left.len() == right.len(),
            forall|j: int| 0 <= j < i ==> left@[j]@ == right@[j]@,
        decreases left.len() - i,
    {
        if !same_type(&left[i], &right[i]) {
            assert(models(left@)[i as int] != models(right@)[i as int]);
            return false;
        }
        i += 1;
    }
    assert(models(left@) =~= models(right@));
    true
}

/// Decides whether two types have the same value.
fn same_type(left: &ValueType, right: &ValueType) -> (r: bool)
    ensures
        r == (left@ == right@),
    decreases left,
{
    proof {
        lemma_view_parts(left);
        lemma_view_parts(right);
    }
    match (left, right) {
        (ValueType::Null, ValueType::Null) => true,
        (ValueType::Boolean, ValueType::Boolean) => true,
        (ValueType::Integer, ValueType::Integer) => true,
        (ValueType::Float, ValueType::Float) => true,
        (ValueType::String, ValueType::String) => true,
        (ValueType::OffsetDateTime, ValueType::OffsetDateTime) => true,
        (ValueType::LocalDateTime, ValueType::LocalDateTime) => true,
        (ValueType::LocalDate, ValueType::LocalDate) => true,
        (ValueType::LocalTime, ValueType::LocalTime) => true,
        (ValueType::Array, ValueType::Array) => true,
        (ValueType::Table, ValueType::Table) => true,
        (ValueType::OneOf(a), ValueType::OneOf(b)) => same_types(a, b),
        (ValueType::AnyOf(a), ValueType::AnyOf(b)) => same_types(a, b),
        (ValueType::AllOf(a), ValueType::AllOf(b)) => same_types(a, b),
        _ => false,
    }
}

impl PartialEq for ValueType {
    fn eq(&self, other: &Self) -> (r: bool) {
        same_type(self, other)
    }
}

impl PartialEqSpecImpl for ValueType {
    open spec fn obeys_eq_spec() -> bool {
        true
    }

    open spec fn eq_spec(&self, other: &Self) -> bool {
        self@ == other@
    }
}

/// Copies a list of types.
fn clone_types(types: &Vec<ValueType>) -> (r: Vec<ValueType>)
    ensures
        models(r@) == models(types@),
    decreases types,
{
    let mut out: Vec<ValueType> = Vec::new();
    let mut i: usize = 0;
    while i < types.len()
        invariant
            i <= types.len(),
            out.len() == i,
            forall|j: int| 0 <= j < i ==> out@[j]@ == types@[j]@,
        decreases types.len() - i,
    {
        out.push(types[i].clone());
        i += 1;
    }
    assert(models(out@) =~= models(types@));
    out
}

impl Clone for ValueType {
    fn clone(&self) -> (r: Self)
        ensures
            r@ == self@,
        decreases self,
    {
        let r = match self {
            ValueType::Null => ValueType::Null,
            ValueType::Boolean => ValueType::Boolean,
            ValueType::Integer => ValueType::Integer,
            ValueType::Float => ValueType::Float,
            ValueType::String => ValueType::String,
            ValueType::OffsetDateTime => ValueType::OffsetDateTime,
            ValueType::LocalDateTime => ValueType::LocalDateTime,
            ValueType::LocalDate => ValueType::LocalDate,
            ValueType::LocalTime => ValueType::LocalTime,
            ValueType::Array => ValueType::Array,
            ValueType::Table => ValueType::Table,
            ValueType::OneOf(types) => ValueType::OneOf(clone_types(types)),
            ValueType::AnyOf(types) => ValueType::AnyOf(clone_types(types)),
            ValueType::AllOf(types) => ValueType::AllOf(clone_types(types)),
        };
        proof {
            lemma_view_parts(self);
            lemma_view_parts(&r);
        }
        r
    }
}

impl TypeModel {
    /// The type made to admit the absence of a value. A basic type gets
    /// `Null` as an alternative; a choice gets `Null` as one more
    /// alternative unless it admits absence already (`OneOf`: through
    /// one alternative, `AnyOf`: through every one of them); a
    /// conjunction of which no part admits absence becomes one of two
    /// alternatives, the other being `Null`, and any other conjunction
    /// stays as it is.
    pub open spec fn with_null(self) -> TypeModel {
        match self {
            TypeModel::Null => TypeModel::Null,
            TypeModel::OneOf(types) => if some_nullable(types) {
                self
            } else {
                TypeModel::OneOf(types.push(TypeModel::Null))
            },
            TypeModel::AnyOf(types) => if every_nullable(types) {
                self
            } else {
                TypeModel::AnyOf(types.push(TypeModel::Null))
            },
            TypeModel::AllOf(types) => if !some_nullable(types) {
                TypeModel::AnyOf(seq![self, TypeModel::Null])
            } else {
                self
            },
            _ => TypeModel::AnyOf(seq![self, TypeModel::Null]),
        }
    }
}

/// Decides whether one of `types` admits the absence of a value.
fn any_nullable(types: &Vec<ValueType>) -> (r: bool)
    ensures
        r == some_nullable(models(types@)),
    decreases types,
{
    let mut i: usize = 0;
    while i < types.len()
        invariant
            i <= types.len(),
            forall|j: int| 0 <= j < i ==> !(#[trigger] models(types@)[j]).is_nullable(),
        decreases types.len() - i,
    {
        if types[i].is_nullable() {
            assert(models(types@)[i as int].is_nullable());
            return true;
        }
        i += 1;
    }
    false
}

/// Decides whether all of `types` admit the absence of a value.
fn all_nullable(types: &Vec<ValueType>) -> (r: bool)
    ensures
        r == every_nullable(models(types@)),
    decreases types,
{
    let mut i: usize = 0;
    while i < types.len()
        invariant
            i <= types.len(),
            forall|j: int| 0 <= j < i ==> (#[trigger] models(types@)[j]).is_nullable(),
        decreases types.len() - i,
    {
        if !types[i].is_nullable() {
            assert(!models(types@)[i as int].is_nullable());
            return false;
        }
        i += 1;
    }
    true
}

impl ValueType {
    /// Whether the type admits the absence of a value.
    #[must_use]
    pub fn is_nullable(&self) -> (r: bool)
        ensures
            r == self@.is_nullable(),
        decreases self,
    {
        proof {
            lemma_view_parts(self);
        }
        match self {
            Self::Null => true,
            Self::Boolean
            | Self::Integer
            | Self::Float
            | Self::String
            | Self::OffsetDateTime
            | Self::LocalDateTime
            | Self::LocalDate
            | Self::LocalTime
            | Self::Array
            | Self::Table => false,
            Self::OneOf(types) => {
                proof {
                    lemma_nullable_parts(models(types@));
                }
                any_nullable(types)
            },
            Self::AnyOf(types) => {
                proof {
                    lemma_nullable_parts(models(types@));
                }
                any_nullable(types)
            },
            Self::AllOf(types) => {
                proof {
                    lemma_nullable_parts(models(types@));
                }
                all_nullable(types)
            },
        }
    }

    /// Makes the type admit the absence of a value.
    pub fn set_nullable(&mut self)
        ensures
            final(self)@ == old(self)@.with_null(),
    {
        let value_type = self.clone();
        proof {
            lemma_view_parts(&value_type);
        }
        let next = match value_type {
            Self::Null => Self::Null,
            Self::OneOf(mut types) => {
                let ghost before = types@;
                if !any_nullable(&types) {
                    types.push(Self::Null);
                    assert(models(types@) =~= models(before).push(TypeModel::Null));
                }
                let r = Self::OneOf(types);
                proof {
                    lemma_view_parts(&r);
                }
                r
            },
            Self::AnyOf(mut types) => {
                let ghost before = types@;
                if !all_nullable(&types) {
                    types.push(Self::Null);
                    assert(models(types@) =~= models(before).push(TypeModel::Null));
                }
                let r = Self::AnyOf(types);
                proof {
                    lemma_view_parts(&r);
                }
                r
            },
            Self::AllOf(types) => {
                if !any_nullable(&types) {
                    let inner = Self::AllOf(types);
                    proof {
                        lemma_view_parts(&inner);
                    }
                    Self::pair_with_null(inner)
                } else {
                    let r = Self::AllOf(types);
                    proof {
                        lemma_view_parts(&r);
                    }
                    r
                }
            },
            basic => Self::pair_with_null(basic),
        };
        *self = next;
    }

    /// The choice between `value_type` and `Null`.
    fn pair_with_null(value_type: ValueType) -> (r: ValueType)
        ensures
            r@ == TypeModel::AnyOf(seq![value_type@, TypeModel::Null]),
    {
        let mut types: Vec<ValueType> = Vec::new();
        types.push(value_type);
        types.push(Self::Null);
        let r = Self::AnyOf(types);
        proof {
            lemma_view_parts(&r);
            assert(models(types@) =~= seq![value_type@, TypeModel::Null]);
        }
        r
    }
}

/// Whether `Null` is one of `types`.
pub open spec fn has_null(types: Seq<TypeModel>) -> bool {
    types.contains(TypeModel::Null)
}

/// Of the texts in `shown`, those whose type in `types` is not `Null`.
pub open spec fn shown_parts(types: Seq<TypeModel>, shown: Seq<Seq<char>>) -> Seq<Seq<char>>
    decreases types.len(),
{
    if types.len() == 0 || shown.len() != types.len() {
        Seq::empty()
    } else {
        let rest = shown_parts(types.drop_last(), shown.drop_last());
        if types.last() is Null {
            rest
        } else {
            rest.push(shown.last())
        }
    }
}

/// The text of a combination whose parts other than `Null` read as
/// `parts`: the parts joined by the separator between two blanks, in
/// parentheses unless it stands at the root or is a single part, and
/// followed by `?` if `Null` was among the alternatives.
pub open spec fn composite_text(
    parts: Seq<Seq<char>>,
    separator: char,
    nullable: bool,
    is_root: bool,
) -> Seq<char> {
    let body = joined(parts, seq![' ', separator, ' ']);
    if nullable {
        if parts.len() == 1 {
            parts[0] + "?"@
        } else {
            "("@ + body + ")?"@
        }
    } else if is_root {
        body
    } else if parts.len() == 1 {
        parts[0]
    } else {
        "("@ + body + ")"@
    }
}

impl TypeModel {
    /// The text of the type as it stands, without simplifying it first.
    pub open spec fn display(self, is_root: bool) -> Seq<char>
        decreases self, 1nat,
    {
        match self {
            TypeModel::Null => "Null"@,
            TypeModel::Boolean => "Boolean"@,
            TypeModel::Integer => "Integer"@,
            TypeModel::Float => "Float"@,
            TypeModel::String => "String"@,
            TypeModel::OffsetDateTime => "OffsetDateTime"@,
            TypeModel::LocalDateTime => "LocalDateTime"@,
            TypeModel::LocalDate => "LocalDate"@,
            TypeModel::LocalTime => "LocalTime"@,
            TypeModel::Array => "Array"@,
            TypeModel::Table => "Table"@,
            TypeModel::OneOf(types) => composite_text(
                shown_parts(types, displays(types)),
                '^',
                has_null(types),
                is_root,
            ),
            TypeModel::AnyOf(types) => composite_text(
                shown_parts(types, displays(types)),
                '|',
                has_null(types),
                is_root,
            ),
            TypeModel::AllOf(types) => composite_text(
                shown_parts(types, displays(types)),
                '&',
                has_null(types),
                is_root,
            ),
        }
    }
}

/// The texts of `types`, each as a part of a combination.
pub open spec fn displays(types: Seq<TypeModel>) -> Seq<Seq<char>>
    decreases types, 0nat,
{
    Seq::new(
        types.len(),
        |i: int|
            if 0 <= i < types.len() {
                types[i].display(false)
            } else {
                Seq::empty()
            },
    )
}

/// The text of a combination of `types` with the given separator.
pub open spec fn composite_display(types: Seq<TypeModel>, separator: char, is_root: bool) -> Seq<
    char,
> {
    composite_text(shown_parts(types, displays(types)), separator, has_null(types), is_root)
}

/// The text of a combination is that of its parts, put together.
pub proof fn lemma_display_parts(types: Seq<TypeModel>, is_root: bool)
    ensures
        TypeModel::OneOf(types).display(is_root) == composite_display(types, '^', is_root),
        TypeModel::AnyOf(types).display(is_root) == composite_display(types, '|', is_root),
        TypeModel::AllOf(types).display(is_root) == composite_display(types, '&', is_root),
{
}

/// Renders a combination of `types` whose alternatives are separated by
/// `separator`.
pub fn fmt_composit_types(types: &Vec<ValueType>, separator: char, is_root: bool) -> (r: String)
    ensures
        r@ == composite_display(models(types@), separator, is_root),
    decreases types,
{
    let ghost ms = models(types@);
    let ghost shown = displays(ms);
    let mut nullable = false;
    let mut non_null_types: Vec<String> = Vec::new();
    let mut i: usize = 0;
    while i < types.len()
        invariant
            i <= types.len(),
            ms == models(types@),
            shown == displays(ms),
            nullable == has_null(ms.take(i as int)),
            texts(non_null_types@) == shown_parts(ms.take(i as int), shown.take(i as int)),
        decreases types.len() - i,
    {
        let ghost before = ms.take(i as int);
        let ghost after = ms.take(i + 1);
        proof {
            assert(after.drop_last() =~= before);
            assert(shown.take(i + 1).drop_last() =~= shown.take(i as int));
            assert(after.last() == types@[i as int]@);
            assert(has_null(after) == (has_null(before) || after.last() is Null)) by {
                if has_null(before) {
                    let k = choose|k: int| 0 <= k < before.len() && before[k] == TypeModel::Null;
                    assert(after[k] == TypeModel::Null);
                }
                if after.last() is Null {
                    assert(after[i as int] == TypeModel::Null);
                }
                if has_null(after) {
                    let k = choose|k: int| 0 <= k < after.len() && after[k] == TypeModel::Null;
                    if k < i {
                        assert(before[k] == TypeModel::Null);
                    }
                }
            }
        }
        if matches!(types[i], ValueType::Null) {
            nullable = true;
        } else {
            let ghost old_parts = non_null_types@;
            let text = types[i].to_display(false);
            non_null_types.push(text);
            assert(texts(non_null_types@) =~= texts(old_parts).push(text@));
        }
        i += 1;
    }
    proof {
        assert(ms.take(i as int) =~= ms);
        assert(shown.take(i as int) =~= shown);
    }
    let mut sep = " ".to_owned();
    push_char(&mut sep, separator);
    sep.append(" ");
    proof {
        reveal_strlit(" ");
        assert(sep@ =~= seq![' ', separator, ' ']);
        assert(texts(non_null_types@).len() == non_null_types.len());
    }
    if nullable {
        if non_null_types.len() == 1 {
            let mut out = non_null_types[0].clone();
            out.append("?");
            out
        } else {
            let body = join(&non_null_types, sep.as_str());
            let mut out = "(".to_owned();
            out.append(body.as_str());
            out.append(")?");
            out
        }
    } else if is_root {
        join(&non_null_types, sep.as_str())
    } else if non_null_types.len() == 1 {
        non_null_types[0].clone()
    } else {
        let body = join(&non_null_types, sep.as_str());
        let mut out = "(".to_owned();
        out.append(body.as_str());
        out.append(")");
        out
    }
}

impl ValueType {
    /// Renders the type as it stands, without simplifying it first. At
    /// the root a combination stands without parentheses.
    #[must_use]
    pub fn to_display(&self, is_root: bool) -> (r: String)
        ensures
            r@ == self@.display(is_root),
        decreases self,
    {
        proof {
            lemma_view_parts(self);
        }
        match self {
            Self::Null => "Null".to_owned(),
            Self::Boolean => "Boolean".to_owned(),
            Self::Integer => "Integer".to_owned(),
            Self::Float => "Float".to_owned(),
            Self::String => "String".to_owned(),
            Self::OffsetDateTime => "OffsetDateTime".to_owned(),
            Self::LocalDateTime => "LocalDateTime".to_owned(),
            Self::LocalDate => "LocalDate".to_owned(),
            Self::LocalTime => "LocalTime".to_owned(),
            Self::Array => "Array".to_owned(),
            Self::Table => "Table".to_owned(),
            Self::OneOf(types) => {
                proof {
                    lemma_display_parts(models(types@), is_root);
                }
                fmt_composit_types(types, '^', is_root)
            },
            Self::AnyOf(types) => {
                proof {
                    lemma_display_parts(models(types@), is_root);
                }
                fmt_composit_types(types, '|', is_root)
            },
            Self::AllOf(types) => {
                proof {
                    lemma_display_parts(models(types@), is_root);
                }
                fmt_composit_types(types, '&', is_root)
            },
        }
    }
}

/// The way the parts of a combination are put together.
#[derive(Clone, Copy, Debug, PartialEq, Eq, Structural)]
pub enum Combinator {
    OneOf,
    AnyOf,
    AllOf,
}

impl Combinator {
    /// The combination of `types` in this way.
    pub open spec fn combine(self, types: Seq<TypeModel>) -> TypeModel {
        match self {
            Combinator::OneOf => TypeModel::OneOf(types),
            Combinator::AnyOf => TypeModel::AnyOf(types),
            Combinator::AllOf => TypeModel::AllOf(types),
        }
    }

    /// Builds the combination of `types` in this way.
    fn build(self, types: Vec<ValueType>) -> (r: ValueType)
        ensures
            r@ == self.combine(models(types@)),
    {
        let r = match self {
            Combinator::OneOf => ValueType::OneOf(types),
            Combinator::AnyOf => ValueType::AnyOf(types),
            Combinator::AllOf => ValueType::AllOf(types),
        };
        proof {
            lemma_view_parts(&r);
        }
        r
    }
}

/// `types` without every `Null` among them, the others in their order.
pub open spec fn without_null(types: Seq<TypeModel>) -> Seq<TypeModel>
    decreases types.len(),
{
    if types.len() == 0 {
        Seq::empty()
    } else if types.last() is Null {
        without_null(types.drop_last())
    } else {
        without_null(types.drop_last()).push(types.last())
    }
}

/// `items` with `item` added at the end, unless it is among them already.
pub open spec fn insert_unique(items: Seq<TypeModel>, item: TypeModel) -> Seq<TypeModel> {
    if items.contains(item) {
        items
    } else {
        items.push(item)
    }
}

/// `items` after adding each of `more` in turn.
pub open spec fn insert_all(items: Seq<TypeModel>, more: Seq<TypeModel>) -> Seq<TypeModel>
    decreases more.len(),
{
    if more.len() == 0 {
        items
    } else {
        insert_unique(insert_all(items, more.drop_last()), more.last())
    }
}

/// What a simplified part hands to the combination of kind `kind` around
/// it, `Null` left aside: a combination of the same kind hands over its
/// parts; one of another kind stays one part, or hands over its only
/// part, or nothing if it has none; `Null` hands over nothing; any other
/// type is one part.
pub open spec fn contribution(kind: Combinator, part: TypeModel) -> Seq<TypeModel> {
    match part {
        TypeModel::Null => Seq::empty(),
        TypeModel::OneOf(nested) => nested_contribution(kind, Combinator::OneOf, nested),
        TypeModel::AnyOf(nested) => nested_contribution(kind, Combinator::AnyOf, nested),
        TypeModel::AllOf(nested) => nested_contribution(kind, Combinator::AllOf, nested),
        _ => seq![part],
    }
}

pub open spec fn nested_contribution(
    kind: Combinator,
    nested_kind: Combinator,
    nested: Seq<TypeModel>,
) -> Seq<TypeModel> {
    let non_nulls = without_null(nested);
    if kind == nested_kind || non_nulls.len() <= 1 {
        non_nulls
    } else {
        seq![nested_kind.combine(non_nulls)]
    }
}

/// Whether a simplified part makes the combination around it admit
/// `Null`: it is `Null`, or a combination with `Null` among its parts.
pub open spec fn brings_null(part: TypeModel) -> bool {
    match part {
        TypeModel::Null => true,
        TypeModel::OneOf(nested) => has_null(nested),
        TypeModel::AnyOf(nested) => has_null(nested),
        TypeModel::AllOf(nested) => has_null(nested),
        _ => false,
    }
}

/// Whether one of `parts` brings `Null`.
pub open spec fn any_brings_null(parts: Seq<TypeModel>) -> bool {
    exists|i: int| #![trigger parts[i]] 0 <= i < parts.len() && brings_null(parts[i])
}

/// The parts of the simplified combination other than `Null`: what the
/// simplified parts hand over, in order, each type once.
pub open spec fn merged(kind: Combinator, parts: Seq<TypeModel>) -> Seq<TypeModel>
    decreases parts.len(),
{
    if parts.len() == 0 {
        Seq::empty()
    } else {
        insert_all(merged(kind, parts.drop_last()), contribution(kind, parts.last()))
    }
}

/// A combination of one part is that part.
pub open spec fn collapse(kind: Combinator, items: Seq<TypeModel>) -> TypeModel {
    if items.len() == 1 {
        items[0]
    } else {
        kind.combine(items)
    }
}

/// The simplified combination, given its simplified parts: combinations
/// of the same kind are flattened into it, no part occurs twice, and
/// `Null`, wherever it came from, stands once at the end.
pub open spec fn simplify_parts(kind: Combinator, parts: Seq<TypeModel>) -> TypeModel {
    let items = merged(kind, parts);
    collapse(
        kind,
        if any_brings_null(parts) {
            insert_unique(items, TypeModel::Null)
        } else {
            items
        },
    )
}

impl TypeModel {
    /// The type without needless nesting.
    pub open spec fn simplify(self) -> TypeModel
        decreases self, 1nat,
    {
        match self {
            TypeModel::OneOf(types) => simplify_parts(Combinator::OneOf, simplified(types)),
            TypeModel::AnyOf(types) => simplify_parts(Combinator::AnyOf, simplified(types)),
            TypeModel::AllOf(types) => simplify_parts(Combinator::AllOf, simplified(types)),
            _ => self,
        }
    }
}

/// Each of `types`, simplified.
pub open spec fn simplified(types: Seq<TypeModel>) -> Seq<TypeModel>
    decreases types, 0nat,
{
    Seq::new(
        types.len(),
        |i: int|
            if 0 <= i < types.len() {
                types[i].simplify()
            } else {
                TypeModel::Null
            },
    )
}

#[verifier::external_type_specification]
#[verifier::external_body]
#[verifier::reject_recursive_types(T)]
#[verifier::reject_recursive_types(S)]
pub struct ExIndexSet<T, S>(IndexSet<T, S>);

/// The items of an `IndexSet` of types in the order in which it hands
/// them out, which is the order in which they were first inserted.
pub uninterp spec fn set_items(set: IndexSet<ValueType>) -> Seq<TypeModel>;

/// `IndexSet::new`: a set without items.
#[verifier::external_body]
fn type_set_new() -> (set: IndexSet<ValueType>)
    ensures
        set_items(set) == Seq::<TypeModel>::empty(),
{
    IndexSet::new()
}

/// `IndexSet::insert`: an item that equals one of the set leaves the set
/// as it is; any other item goes behind the last one. Two types are
/// equal as items when their values are.
#[verifier::external_body]
fn type_set_insert(set: &mut IndexSet<ValueType>, value_type: ValueType) -> (added: bool)
    ensures
        set_items(*final(set)) == insert_unique(set_items(*old(set)), value_type@),
        added == !set_items(*old(set)).contains(value_type@),
{
    set.insert(value_type)
}

/// `IndexSet::into_iter`, collected: the items in the set's order.
#[verifier::external_body]
fn type_set_into_vec(set: IndexSet<ValueType>) -> (types: Vec<ValueType>)
    ensures
        models(types@) == set_items(set),
{
    set.into_iter().collect()
}

/// Copies the types of `nested` other than `Null`, and says whether
/// `Null` was among them.
fn split_null(nested: &Vec<ValueType>) -> (r: (Vec<ValueType>, bool))
    ensures
        models(r.0@) == without_null(models(nested@)),
        r.1 == has_null(models(nested@)),
{
    let ghost ms = models(nested@);
    let mut non_nulls: Vec<ValueType> = Vec::new();
    let mut found = false;
    let mut j: usize = 0;
    while j < nested.len()
        invariant
            j <= nested.len(),
            ms == models(nested@),
            models(non_nulls@) == without_null(ms.take(j as int)),
            found == has_null(ms.take(j as int)),
        decreases nested.len() - j,
    {
        let ghost before = ms.take(j as int);
        let ghost after = ms.take(j + 1);
        proof {
            assert(after.drop_last() =~= before);
            assert(after.last() == nested@[j as int]@);
            lemma_has_null_push(before, after);
        }
        if matches!(nested[j], ValueType::Null) {
            found = true;
        } else {
            let ghost old_items = non_nulls@;
            let item = nested[j].clone();
            non_nulls.push(item);
            assert(models(non_nulls@) =~= models(old_items).push(item@));
        }
        j += 1;
    }
    assert(ms.take(j as int) =~= ms);
    (non_nulls, found)
}

/// A list with one more type has `Null` in it if the shorter one has or
/// the new type is `Null`.
proof fn lemma_has_null_push(before: Seq<TypeModel>, after: Seq<TypeModel>)
    requires
        after.len() > 0,
        after.drop_last() == before,
    ensures
        has_null(after) == (has_null(before) || after.last() is Null),
{
    if has_null(before) {
        let k = choose|k: int| 0 <= k < before.len() && before[k] == TypeModel::Null;
        assert(after[k] == TypeModel::Null);
    }
    if after.last() is Null {
        assert(after[after.len() - 1] == TypeModel::Null);
    }
    if has_null(after) {
        let k = choose|k: int| 0 <= k < after.len() && after[k] == TypeModel::Null;
        if k < before.len() {
            assert(before[k] == TypeModel::Null);
        }
    }
}

/// Inserts the types of `items` into `set`, in their order.
fn insert_types(set: &mut IndexSet<ValueType>, items: &Vec<ValueType>)
    ensures
        set_items(*final(set)) == insert_all(set_items(*old(set)), models(items@)),
{
    let ghost base = set_items(*set);
    let ghost ms = models(items@);
    let mut j: usize = 0;
    while j < items.len()
        invariant
            j <= items.len(),
            ms == models(items@),
            set_items(*set) == insert_all(base, ms.take(j as int)),
        decreases items.len() - j,
    {
        proof {
            assert(ms.take(j + 1).drop_last() =~= ms.take(j as int));
            assert(ms.take(j + 1).last() == items@[j as int]@);
        }
        type_set_insert(set, items[j].clone());
        j += 1;
    }
    assert(ms.take(j as int) =~= ms);
}

/// Adding a list of one type is adding that type.
proof fn lemma_insert_one(items: Seq<TypeModel>, item: TypeModel)
    ensures
        insert_all(items, seq![item]) == insert_unique(items, item),
{
    assert(seq![item].drop_last() =~= Seq::<TypeModel>::empty());
    assert(insert_all(items, Seq::<TypeModel>::empty()) == items);
    assert(seq![item].last() == item);
}

/// Simplifies the combination of `types` of kind `kind`.
fn simplify_composite(types: &Vec<ValueType>, kind: Combinator) -> (r: ValueType)
    ensures
        r@ == simplify_parts(kind, simplified(models(types@))),
    decreases types,
{
    let ghost parts = simplified(models(types@));
    let mut flattened = type_set_new();
    let mut has_null_part = false;
    let mut i: usize = 0;
    while i < types.len()
        invariant
            i <= types.len(),
            parts == simplified(models(types@)),
            parts.len() == types.len(),
            set_items(flattened) == merged(kind, parts.take(i as int)),
            has_null_part == any_brings_null(parts.take(i as int)),
        decreases types.len() - i,
    {
        let ghost before = parts.take(i as int);
        let ghost after = parts.take(i + 1);
        let part = types[i].simplify();
        proof {
            assert(after.drop_last() =~= before);
            assert(after.last() == part@);
            lemma_view_parts(&part);
            assert(any_brings_null(after) == (any_brings_null(before) || brings_null(part@))) by {
                if any_brings_null(before) {
                    let k = choose|k: int| 0 <= k < before.len() && brings_null(before[k]);
                    assert(brings_null(after[k]));
                }
                if brings_null(part@) {
                    assert(brings_null(after[i as int]));
                }
                if any_brings_null(after) {
                    let k = choose|k: int| 0 <= k < after.len() && brings_null(after[k]);
                    if k < i {
                        assert(brings_null(before[k]));
                    }
                }
            }
        }
        assert(merged(kind, after) == insert_all(merged(kind, before), contribution(kind, part@)));
        match part {
            ValueType::Null => {
                assert(insert_all(set_items(flattened), Seq::<TypeModel>::empty()) == set_items(
                    flattened,
                ));
                has_null_part = true;
            },
            ValueType::OneOf(nested) => {
                let found = absorb(&mut flattened, kind, Combinator::OneOf, &nested);
                has_null_part = has_null_part || found;
            },
            ValueType::AnyOf(nested) => {
                let found = absorb(&mut flattened, kind, Combinator::AnyOf, &nested);
                has_null_part = has_null_part || found;
            },
            ValueType::AllOf(nested) => {
                let found = absorb(&mut flattened, kind, Combinator::AllOf, &nested);
                has_null_part = has_null_part || found;
            },
            other => {
                proof {
                    lemma_insert_one(set_items(flattened), other@);
                }
                type_set_insert(&mut flattened, other);
            },
        }
        i += 1;
    }
    assert(parts.take(i as int) =~= parts);
    if has_null_part {
        type_set_insert(&mut flattened, ValueType::Null);
    }
    let mut items = type_set_into_vec(flattened);
    if items.len() == 1 {
        let ghost all = items@;
        let only = items.pop().unwrap();
        assert(models(all)[0] == only@);
        only
    } else {
        kind.build(items)
    }
}

/// Hands the parts of a simplified combination of kind `nested_kind` to
/// the set of the combination of kind `kind` around it, and says whether
/// `Null` was among them.
fn absorb(
    set: &mut IndexSet<ValueType>,
    kind: Combinator,
    nested_kind: Combinator,
    nested: &Vec<ValueType>,
) -> (found: bool)
    ensures
        set_items(*final(set)) == insert_all(
            set_items(*old(set)),
            nested_contribution(kind, nested_kind, models(nested@)),
        ),
        found == has_null(models(nested@)),
{
    let (mut non_nulls, found) = split_null(nested);
    let same = match (kind, nested_kind) {
        (Combinator::OneOf, Combinator::OneOf) => true,
        (Combinator::AnyOf, Combinator::AnyOf) => true,
        (Combinator::AllOf, Combinator::AllOf) => true,
        _ => false,
    };
    assert(models(non_nulls@).len() == non_nulls.len());
    if same || non_nulls.len() <= 1 {
        insert_types(set, &non_nulls);
    } else {
        let whole = nested_kind.build(non_nulls);
        proof {
            lemma_insert_one(set_items(*set), whole@);
        }
        type_set_insert(set, whole);
    }
    found
}

impl ValueType {
    /// Simplifies the type by removing needless nesting: a combination
    /// inside one of the same kind is flattened into it, a combination
    /// of a single part becomes that part, no part is kept twice, and
    /// `Null`, wherever it stood, is moved to the end of the outermost
    /// combination.
    #[must_use]
    pub fn simplify(&self) -> (r: Self)
        ensures
            r@ == self@.simplify(),
        decreases self,
    {
        proof {
            lemma_view_parts(self);
        }
        match self {
            Self::OneOf(value_types) => simplify_composite(value_types, Combinator::OneOf),
            Self::AnyOf(value_types) => simplify_composite(value_types, Combinator::AnyOf),
            Self::AllOf(value_types) => simplify_composite(value_types, Combinator::AllOf),
            other => other.clone(),
        }
    }

    /// The text of the type: that of its simplified form, which stands at
    /// the root.
    #[must_use]
    pub fn to_string(&self) -> (r: String)
        ensures
            r@ == self@.simplify().display(true),
    {
        self.simplify().to_display(true)
    }
}

} // verus!
