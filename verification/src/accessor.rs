//! Paths into a document: which key of a table or which item of an
//! array leads to a value.

use crate::integer::{is_usize, is_usize_text};
use crate::strings::{decimal, push_char, str_eq, str_lt, text_precedes, decimal_string};
use crate::text::Range;
use core::cmp::Ordering;
use vstd::prelude::*;
use vstd::std_specs::cmp::{PartialEqSpecImpl, PartialOrdSpecImpl};
use vstd::std_specs::convert::FromSpecImpl;
use vstd::string::StringExecFns;

verus! {

/// Represents an accessor to a value in a TOML-like structure.
/// It can either be a key (for objects) or an index (for arrays).
#[derive(Debug, Clone, Eq, Hash)]
pub enum Accessor {
    Key(String),
    Index(usize),
}

/// The mathematical value of an `Accessor`.
pub ghost enum AccessorModel {
    Key(Seq<char>),
    Index(int),
}

impl View for Accessor {
    type V = AccessorModel;

    open spec fn view(&self) -> AccessorModel {
        match self {
            Accessor::Key(key) => AccessorModel::Key(key@),
            Accessor::Index(index) => AccessorModel::Index(*index as int),
        }
    }
}

impl AccessorModel {
    /// The text of an accessor on its own: the key, or the index between
    /// brackets.
    pub open spec fn text(self) -> Seq<char> {
        match self {
            AccessorModel::Key(key) => key,
            AccessorModel::Index(index) => "["@ + decimal(index) + "]"@,
        }
    }

    /// The accessor without the number of its index.
    pub open spec fn schema(self) -> SchemaAccessorModel {
        match self {
            AccessorModel::Key(key) => SchemaAccessorModel::Key(key),
            AccessorModel::Index(_) => SchemaAccessorModel::Index,
        }
    }

    /// How two accessors compare: keys by their text, indices by their
    /// number, and a key and an index not at all.
    pub open spec fn compare(self, other: AccessorModel) -> Option<Ordering> {
        match (self, other) {
            (AccessorModel::Key(key1), AccessorModel::Key(key2)) => Some(
                if text_precedes(key1, key2) {
                    Ordering::Less
                } else if key1 == key2 {
                    Ordering::Equal
                } else {
                    Ordering::Greater
                },
            ),
            (AccessorModel::Index(index1), AccessorModel::Index(index2)) => Some(
                if index1 < index2 {
                    Ordering::Less
                } else if index1 == index2 {
                    Ordering::Equal
                } else {
                    Ordering::Greater
                },
            ),
            _ => None,
        }
    }
}

/// The text of a path: the first accessor as it is, then each key
/// behind a dot and each index right behind what precedes it.
pub open spec fn path_text(accessors: Seq<AccessorModel>) -> Seq<char>
    decreases accessors.len(),
{
    if accessors.len() == 0 {
        Seq::empty()
    } else if accessors.len() == 1 {
        accessors[0].text()
    } else {
        path_text(accessors.drop_last()) + (match accessors.last() {
            AccessorModel::Key(key) => "."@ + key,
            AccessorModel::Index(_) => accessors.last().text(),
        })
    }
}

impl Accessor {
    #[inline]
    #[must_use]
    pub fn is_key(&self) -> (r: bool)
        ensures
            r == (self is Key),
    {
        matches!(self, Self::Key(_))
    }

    #[inline]
    #[must_use]
    pub fn as_key(&self) -> (r: Option<&str>)
        ensures
            r is Some == (self is Key),
            r matches Some(key) ==> self@ == AccessorModel::Key(key@),
    {
        match self {
            Self::Key(key) => Some(key.as_str()),
            _ => None,
        }
    }

    #[inline]
    #[must_use]
    pub fn is_index(&self) -> (r: bool)
        ensures
            r == (self is Index),
    {
        matches!(self, Self::Index(_))
    }

    #[inline]
    #[must_use]
    pub fn as_index(&self) -> (r: Option<usize>)
        ensures
            r == (match self {
                Accessor::Index(index) => Some(*index),
                _ => None,
            }),
    {
        match self {
            Self::Index(index) => Some(*index),
            _ => None,
        }
    }

    /// Renders the accessor on its own.
    #[must_use]
    pub fn to_string(&self) -> (r: String)
        ensures
            r@ == self@.text(),
    {
        match self {
            Self::Key(key) => key.clone(),
            Self::Index(index) => {
                let number = decimal_string(*index as i128);
                let mut out = "[".to_owned();
                out.append(number.as_str());
                out.append("]");
                out
            },
        }
    }

    /// Whether the accessor is the key `other`.
    #[must_use]
    pub fn eq_str(&self, other: &str) -> (r: bool)
        ensures
            r == (self@ == AccessorModel::Key(other@)),
    {
        match self {
            Self::Key(key) => str_eq(key.as_str(), other),
            _ => false,
        }
    }

    /// Whether the accessor stands for `other` once the number of an
    /// index is left aside.
    #[must_use]
    pub fn equivalent(&self, other: &SchemaAccessor) -> (r: bool)
        ensures
            r == (self@.schema() == other@),
    {
        match (self, other) {
            (Self::Key(key1), SchemaAccessor::Key(key2)) => str_eq(key1.as_str(), key2.as_str()),
            (Self::Index(_), SchemaAccessor::Index) => true,
            _ => false,
        }
    }
}

impl PartialEq for Accessor {
    fn eq(&self, other: &Self) -> (r: bool) {
        match (self, other) {
            (Self::Key(key1), Self::Key(key2)) => str_eq(key1.as_str(), key2.as_str()),
            (Self::Index(index1), Self::Index(index2)) => *index1 == *index2,
            _ => false,
        }
    }
}

impl PartialEqSpecImpl for Accessor {
    open spec fn obeys_eq_spec() -> bool {
        true
    }

    open spec fn eq_spec(&self, other: &Self) -> bool {
        self@ == other@
    }
}

impl PartialEq<SchemaAccessor> for Accessor {
    fn eq(&self, other: &SchemaAccessor) -> (r: bool) {
        self.equivalent(other)
    }
}

impl PartialEqSpecImpl<SchemaAccessor> for Accessor {
    open spec fn obeys_eq_spec() -> bool {
        true
    }

    open spec fn eq_spec(&self, other: &SchemaAccessor) -> bool {
        self@.schema() == other@
    }
}

impl PartialOrd for Accessor {
    fn partial_cmp(&self, other: &Self) -> (r: Option<Ordering>) {
        match (self, other) {
            (Self::Key(key1), Self::Key(key2)) => {
                if str_lt(key1.as_str(), key2.as_str()) {
                    Some(Ordering::Less)
                } else if str_eq(key1.as_str(), key2.as_str()) {
                    Some(Ordering::Equal)
                } else {
                    Some(Ordering::Greater)
                }
            },
            (Self::Index(index1), Self::Index(index2)) => {
                if *index1 < *index2 {
                    Some(Ordering::Less)
                } else if *index1 == *index2 {
                    Some(Ordering::Equal)
                } else {
                    Some(Ordering::Greater)
                }
            },
            _ => None,
        }
    }
}

impl PartialOrdSpecImpl for Accessor {
    open spec fn obeys_partial_cmp_spec() -> bool {
        true
    }

    open spec fn partial_cmp_spec(&self, other: &Self) -> Option<Ordering> {
        self@.compare(other@)
    }
}

/// The values of a list of accessors, one by one.
pub open spec fn accessor_models(accessors: Seq<Accessor>) -> Seq<AccessorModel> {
    Seq::new(accessors.len(), |i: int| accessors[i]@)
}

/// A collection of `Accessor`.
#[derive(Debug, Clone, Default, PartialEq, Eq, Hash)]
pub struct Accessors(pub Vec<Accessor>);

impl View for Accessors {
    type V = Seq<AccessorModel>;

    open spec fn view(&self) -> Seq<AccessorModel> {
        accessor_models(self.0@)
    }
}

impl Accessors {
    #[inline]
    #[must_use]
    pub fn first(&self) -> (r: Option<&Accessor>)
        ensures
            self.0.len() == 0 ==> r is None,
            self.0.len() > 0 ==> r == Some(&self.0@[0]),
    {
        if self.0.len() == 0 {
            None
        } else {
            Some(&self.0[0])
        }
    }

    #[inline]
    #[must_use]
    pub fn last(&self) -> (r: Option<&Accessor>)
        ensures
            self.0.len() == 0 ==> r is None,
            self.0.len() > 0 ==> r == Some(&self.0@[self.0.len() - 1]),
    {
        if self.0.len() == 0 {
            None
        } else {
            Some(&self.0[self.0.len() - 1])
        }
    }

    #[inline]
    #[must_use]
    pub fn is_empty(&self) -> (r: bool)
        ensures
            r == (self@.len() == 0),
    {
        self.0.len() == 0
    }

    /// The accessors as a slice.
    #[inline]
    #[must_use]
    pub fn as_ref(&self) -> (r: &[Accessor])
        ensures
            r@ == self.0@,
    {
        self.0.as_slice()
    }

    /// Renders the path.
    #[must_use]
    pub fn to_string(&self) -> (r: String)
        ensures
            r@ == path_text(self@),
    {
        let mut out = String::new();
        let ghost ms = self@;
        let mut i: usize = 0;
        assert(ms.take(0) =~= Seq::<AccessorModel>::empty());
        while i < self.0.len()
            invariant
                i <= self.0.len(),
                ms == accessor_models(self.0@),
                out@ == path_text(ms.take(i as int)),
            decreases self.0.len() - i,
        {
            proof {
                assert(ms.take(i + 1).drop_last() =~= ms.take(i as int));
                assert(ms.take(i + 1).last() == self.0@[i as int]@);
                if i == 0 {
                    assert(out@ =~= Seq::<char>::empty());
                    assert(ms.take(1)[0] == self.0@[0]@);
                }
            }
            let accessor = &self.0[i];
            let text = accessor.to_string();
            if i > 0 && accessor.is_key() {
                out.append(".");
            }
            out.append(text.as_str());
            proof {
                if i > 0 && accessor is Key {
                    assert(out@ =~= path_text(ms.take(i as int)) + ("."@ + text@));
                }
                if i == 0 {
                    assert(out@ =~= text@);
                }
            }
            i += 1;
        }
        assert(ms.take(i as int) =~= ms);
        out
    }
}

impl From<Vec<Accessor>> for Accessors {
    fn from(accessors: Vec<Accessor>) -> (r: Self) {
        Self(accessors)
    }
}

impl FromSpecImpl<Vec<Accessor>> for Accessors {
    open spec fn obeys_from_spec() -> bool {
        true
    }

    open spec fn from_spec(accessors: Vec<Accessor>) -> Self {
        Accessors(accessors)
    }
}

#[derive(Debug, Clone, Copy, PartialEq, Eq, Structural)]
pub enum AccessorKeyKind {
    Header,
    Dotted,
    KeyValue,
}

#[derive(Debug, Clone, Copy, PartialEq, Eq, Structural)]
pub struct KeyContext {
    pub kind: AccessorKeyKind,
    pub range: Range,
}

#[derive(Debug, Clone, Copy, PartialEq, Eq, Structural)]
pub enum AccessorContext {
    Key(KeyContext),
    Index,
}

/// Represents an accessor to a value in a TOML-like structure, as a
/// schema sees it: a key, or any index.
#[derive(Debug, Clone, Eq, Hash)]
pub enum SchemaAccessor {
    Key(String),
    Index,
}

/// The mathematical value of a `SchemaAccessor`.
pub ghost enum SchemaAccessorModel {
    Key(Seq<char>),
    Index,
}

impl View for SchemaAccessor {
    type V = SchemaAccessorModel;

    open spec fn view(&self) -> SchemaAccessorModel {
        match self {
            SchemaAccessor::Key(key) => SchemaAccessorModel::Key(key@),
            SchemaAccessor::Index => SchemaAccessorModel::Index,
        }
    }
}

impl SchemaAccessorModel {
    /// The text of an accessor on its own: the key, or `[*]`.
    pub open spec fn text(self) -> Seq<char> {
        match self {
            SchemaAccessorModel::Key(key) => key,
            SchemaAccessorModel::Index => "[*]"@,
        }
    }

    /// How two accessors compare: keys by their text, and an index with
    /// nothing.
    pub open spec fn compare(self, other: SchemaAccessorModel) -> Option<Ordering> {
        match (self, other) {
            (SchemaAccessorModel::Key(key1), SchemaAccessorModel::Key(key2)) => Some(
                if text_precedes(key1, key2) {
                    Ordering::Less
                } else if key1 == key2 {
                    Ordering::Equal
                } else {
                    Ordering::Greater
                },
            ),
            _ => None,
        }
    }
}

/// The text of a schema path: the first accessor as it is, then each
/// key behind a dot and each `[*]` right behind what precedes it.
pub open spec fn schema_path_text(accessors: Seq<SchemaAccessorModel>) -> Seq<char>
    decreases accessors.len(),
{
    if accessors.len() == 0 {
        Seq::empty()
    } else if accessors.len() == 1 {
        accessors[0].text()
    } else {
        schema_path_text(accessors.drop_last()) + (match accessors.last() {
            SchemaAccessorModel::Key(key) => "."@ + key,
            SchemaAccessorModel::Index => "[*]"@,
        })
    }
}

/// The values of a list of schema accessors, one by one.
pub open spec fn schema_accessor_models(accessors: Seq<SchemaAccessor>) -> Seq<
    SchemaAccessorModel,
> {
    Seq::new(accessors.len(), |i: int| accessors[i]@)
}

/// The values of an optional list of schema accessors.
pub open spec fn opt_schema_accessor_models(accessors: Option<Vec<SchemaAccessor>>) -> Option<
    Seq<SchemaAccessorModel>,
> {
    match accessors {
        Some(accessors) => Some(schema_accessor_models(accessors@)),
        None => None,
    }
}

/// The accessor that a key read so far makes: none if no character of
/// it has been read.
pub open spec fn pending_key(key: Seq<char>) -> Seq<SchemaAccessorModel> {
    if key.len() > 0 {
        seq![SchemaAccessorModel::Key(key)]
    } else {
        Seq::empty()
    }
}

/// How many characters from `from` on stand in front of the next `]`,
/// or of the end of the path.
pub open spec fn index_len(chars: Seq<char>, from: int) -> nat
    decreases chars.len() - from,
{
    if from < 0 || from >= chars.len() || chars[from] == ']' {
        0
    } else {
        1 + index_len(chars, from + 1)
    }
}

/// Whether the text between two brackets names an index: `*`, or a
/// number that fits a `usize`.
pub open spec fn is_index_text(text: Seq<char>) -> bool {
    text == seq!['*'] || is_usize_text(text)
}

/// `accessors` in front of what the rest of a path gives, if that rest
/// is well formed.
pub open spec fn prepend(
    accessors: Seq<SchemaAccessorModel>,
    rest: Option<Seq<SchemaAccessorModel>>,
) -> Option<Seq<SchemaAccessorModel>> {
    match rest {
        Some(rest) => Some(accessors + rest),
        None => None,
    }
}

/// What the path gives from its character `at` on, when the characters
/// `key` of a key have been read just before: a dot ends the key; an
/// opening bracket ends the key and starts an index, which runs up to
/// the next closing bracket or the end of the path and must be `*` or a
/// number; any other character belongs to the key.
pub open spec fn parse_from(chars: Seq<char>, at: int, key: Seq<char>) -> Option<
    Seq<SchemaAccessorModel>,
>
    decreases chars.len() - at,
{
    if at < 0 || at >= chars.len() {
        Some(pending_key(key))
    } else if chars[at] == '[' {
        let end = at + 1 + index_len(chars, at + 1);
        let next = if end < chars.len() {
            end + 1
        } else {
            chars.len() as int
        };
        if is_index_text(chars.subrange(at + 1, end)) {
            prepend(
                pending_key(key).push(SchemaAccessorModel::Index),
                parse_from(chars, next, Seq::empty()),
            )
        } else {
            None
        }
    } else if chars[at] == '.' {
        prepend(pending_key(key), parse_from(chars, at + 1, Seq::empty()))
    } else {
        parse_from(chars, at + 1, key.push(chars[at]))
    }
}

/// What a schema path stands for; the empty path stands for nothing.
pub open spec fn parse_path(path: Seq<char>) -> Option<Seq<SchemaAccessorModel>> {
    if path.len() == 0 {
        None
    } else {
        parse_from(path, 0, Seq::empty())
    }
}

/// The index ends within the path.
pub proof fn lemma_index_len(chars: Seq<char>, from: int)
    requires
        0 <= from <= chars.len(),
    ensures
        from + index_len(chars, from) <= chars.len(),
        forall|j: int| from <= j < from + index_len(chars, from) ==> chars[j] != ']',
        from + index_len(chars, from) < chars.len() ==> chars[from + index_len(chars, from)]
            == ']',
    decreases chars.len() - from,
{
    if from < chars.len() && chars[from] != ']' {
        lemma_index_len(chars, from + 1);
    }
}

/// An index that has no closing bracket up to `to` is as long as what
/// follows from `to` on, and `to - from` more.
pub proof fn lemma_index_len_from(chars: Seq<char>, from: int, to: int)
    requires
        0 <= from <= to <= chars.len(),
        forall|j: int| from <= j < to ==> chars[j] != ']',
    ensures
        index_len(chars, from) == (to - from) + index_len(chars, to),
    decreases to - from,
{
    if from < to {
        lemma_index_len_from(chars, from + 1, to);
    }
}

impl SchemaAccessor {
    /// Moves the key read so far, if any, to the accessors.
    fn flush(accessors: &mut Vec<SchemaAccessor>, current_key: String)
        ensures
            schema_accessor_models(final(accessors)@) == schema_accessor_models(old(accessors)@)
                + pending_key(current_key@),
    {
        let ghost before = accessors@;
        if !current_key.as_str().is_empty() {
            accessors.push(Self::Key(current_key));
            assert(schema_accessor_models(accessors@) =~= schema_accessor_models(before)
                + pending_key(current_key@));
        } else {
            assert(schema_accessor_models(accessors@) =~= schema_accessor_models(before)
                + pending_key(current_key@));
        }
    }

    /// Parse a schema access path into a sequence of accessors, such as
    /// `key1[*].key2` into the key `key1`, an index and the key `key2`.
    /// Returns `None` for the empty path and for a path with an index
    /// that is neither `*` nor a number.
    pub fn parse(path: &str) -> (r: Option<Vec<Self>>)
        ensures
            opt_schema_accessor_models(r) == parse_path(path@),
    {
        let mut accessors: Vec<SchemaAccessor> = Vec::new();
        let mut current_key = String::new();
        let letters = crate::strings::chars_of(path);
        let n: usize = letters.len();
        if n == 0 {
            return None;
        }
        let ghost chars = path@;
        let mut i: usize = 0;
        assert(schema_accessor_models(accessors@) =~= Seq::<SchemaAccessorModel>::empty());
        assert(Seq::<SchemaAccessorModel>::empty() + pending_key(Seq::<char>::empty())
            =~= pending_key(Seq::<char>::empty()));
        while i < n
            invariant
                n == chars.len(),
                chars == path@,
                letters@ == chars,
                n > 0,
                i <= n,
                parse_path(chars) == prepend(
                    schema_accessor_models(accessors@),
                    parse_from(chars, i as int, current_key@),
                ),
            decreases n - i,
        {
            let c = letters[i];
            let ghost before = schema_accessor_models(accessors@);
            let ghost key = current_key@;
            if c == '[' {
                Self::flush(&mut accessors, current_key);
                current_key = String::new();
                i += 1;
                let start: usize = i;
                let mut index_str = String::new();
                assert(chars.subrange(start as int, start as int) =~= Seq::<char>::empty());
                loop
                    invariant
                        n == chars.len(),
                        chars == path@,
                        letters@ == chars,
                        start <= i <= n,
                        index_str@ == chars.subrange(start as int, i as int),
                        forall|j: int| start <= j < i ==> chars[j] != ']',
                    ensures
                        i >= n || chars[i as int] == ']',
                    decreases n - i,
                {
                    if i >= n {
                        break;
                    }
                    let d = letters[i];
                    if d == ']' {
                        break;
                    }
                    push_char(&mut index_str, d);
                    assert(chars.subrange(start as int, i + 1) =~= chars.subrange(
                        start as int,
                        i as int,
                    ).push(d));
                    i += 1;
                }
                proof {
                    lemma_index_len_from(chars, start as int, i as int);
                    lemma_index_len(chars, i as int);
                    assert(index_len(chars, i as int) == 0);
                    reveal_strlit("*");
                    assert("*"@ =~= seq!['*']);
                }
                if str_eq(index_str.as_str(), "*") || is_usize(index_str.as_str()) {
                    let ghost flushed = schema_accessor_models(accessors@);
                    accessors.push(Self::Index);
                    if i < n {
                        i += 1;
                    }
                    proof {
                        assert(schema_accessor_models(accessors@) =~= flushed.push(
                            SchemaAccessorModel::Index,
                        ));
                        let rest = parse_from(chars, i as int, Seq::empty());
                        if rest is Some {
                            assert(before + (pending_key(key).push(SchemaAccessorModel::Index)
                                + rest->Some_0) =~= (before + pending_key(key)).push(
                                SchemaAccessorModel::Index,
                            ) + rest->Some_0);
                        }
                    }
                } else {
                    return None;
                }
            } else if c == '.' {
                Self::flush(&mut accessors, current_key);
                current_key = String::new();
                proof {
                    let rest = parse_from(chars, i + 1, Seq::empty());
                    if rest is Some {
                        assert(before + (pending_key(key) + rest->Some_0) =~= (before
                            + pending_key(key)) + rest->Some_0);
                    }
                }
                i += 1;
            } else {
                push_char(&mut current_key, c);
                i += 1;
            }
        }
        proof {
            let flushed = schema_accessor_models(accessors@) + pending_key(current_key@);
            assert(parse_path(chars) == Some(flushed));
        }
        Self::flush(&mut accessors, current_key);
        Some(accessors)
    }

    /// Renders the accessor on its own.
    #[must_use]
    pub fn to_string(&self) -> (r: String)
        ensures
            r@ == self@.text(),
    {
        match self {
            Self::Key(key) => key.clone(),
            Self::Index => "[*]".to_owned(),
        }
    }

    /// The accessor that stands for `accessor` in a schema.
    #[must_use]
    pub fn from_accessor(accessor: &Accessor) -> (r: Self)
        ensures
            r@ == accessor@.schema(),
    {
        match accessor {
            Accessor::Key(key) => Self::Key(key.clone()),
            Accessor::Index(_) => Self::Index,
        }
    }
}

impl PartialEq for SchemaAccessor {
    fn eq(&self, other: &Self) -> (r: bool) {
        match (self, other) {
            (Self::Key(key1), Self::Key(key2)) => str_eq(key1.as_str(), key2.as_str()),
            (Self::Index, Self::Index) => true,
            _ => false,
        }
    }
}

impl PartialEqSpecImpl for SchemaAccessor {
    open spec fn obeys_eq_spec() -> bool {
        true
    }

    open spec fn eq_spec(&self, other: &Self) -> bool {
        self@ == other@
    }
}

impl PartialEq<Accessor> for SchemaAccessor {
    fn eq(&self, other: &Accessor) -> (r: bool) {
        other.equivalent(self)
    }
}

impl PartialEqSpecImpl<Accessor> for SchemaAccessor {
    open spec fn obeys_eq_spec() -> bool {
        true
    }

    open spec fn eq_spec(&self, other: &Accessor) -> bool {
        self@ == other@.schema()
    }
}

impl PartialOrd for SchemaAccessor {
    fn partial_cmp(&self, other: &Self) -> (r: Option<Ordering>) {
        match (self, other) {
            (Self::Key(key1), Self::Key(key2)) => {
                if str_lt(key1.as_str(), key2.as_str()) {
                    Some(Ordering::Less)
                } else if str_eq(key1.as_str(), key2.as_str()) {
                    Some(Ordering::Equal)
                } else {
                    Some(Ordering::Greater)
                }
            },
            _ => None,
        }
    }
}

impl PartialOrdSpecImpl for SchemaAccessor {
    open spec fn obeys_partial_cmp_spec() -> bool {
        true
    }

    open spec fn partial_cmp_spec(&self, other: &Self) -> Option<Ordering> {
        self@.compare(other@)
    }
}

impl From<Accessor> for SchemaAccessor {
    fn from(accessor: Accessor) -> (r: Self) {
        match accessor {
            Accessor::Key(key) => Self::Key(key),
            Accessor::Index(_) => Self::Index,
        }
    }
}

impl FromSpecImpl<Accessor> for SchemaAccessor {
    open spec fn obeys_from_spec() -> bool {
        true
    }

    open spec fn from_spec(accessor: Accessor) -> Self {
        match accessor {
            Accessor::Key(key) => SchemaAccessor::Key(key),
            Accessor::Index(_) => SchemaAccessor::Index,
        }
    }
}

/// A collection of `SchemaAccessor`.
#[derive(Debug, Clone, Default, PartialEq, Eq, Hash)]
pub struct SchemaAccessors(pub Vec<SchemaAccessor>);

impl View for SchemaAccessors {
    type V = Seq<SchemaAccessorModel>;

    open spec fn view(&self) -> Seq<SchemaAccessorModel> {
        schema_accessor_models(self.0@)
    }
}

impl SchemaAccessors {
    #[inline]
    #[must_use]
    pub fn first(&self) -> (r: Option<&SchemaAccessor>)
        ensures
            self.0.len() == 0 ==> r is None,
            self.0.len() > 0 ==> r == Some(&self.0@[0]),
    {
        if self.0.len() == 0 {
            None
        } else {
            Some(&self.0[0])
        }
    }

    #[inline]
    #[must_use]
    pub fn last(&self) -> (r: Option<&SchemaAccessor>)
        ensures
            self.0.len() == 0 ==> r is None,
            self.0.len() > 0 ==> r == Some(&self.0@[self.0.len() - 1]),
    {
        if self.0.len() == 0 {
            None
        } else {
            Some(&self.0[self.0.len() - 1])
        }
    }

    /// The accessors as a slice.
    #[inline]
    #[must_use]
    pub fn as_ref(&self) -> (r: &[SchemaAccessor])
        ensures
            r@ == self.0@,
    {
        self.0.as_slice()
    }

    /// The schema path of a path into a document.
    #[must_use]
    pub fn from_accessors(accessors: &[Accessor]) -> (r: Self)
        ensures
            r@.len() == accessors@.len(),
            forall|i: int| 0 <= i < accessors@.len() ==> r@[i] == accessors@[i]@.schema(),
    {
        let mut out: Vec<SchemaAccessor> = Vec::new();
        let mut i: usize = 0;
        while i < accessors.len()
            invariant
                i <= accessors.len(),
                out.len() == i,
                forall|j: int| 0 <= j < i ==> out@[j]@ == accessors@[j]@.schema(),
            decreases accessors.len() - i,
        {
            out.push(SchemaAccessor::from_accessor(&accessors[i]));
            i += 1;
        }
        Self(out)
    }

    /// Renders the path.
    #[must_use]
    pub fn to_string(&self) -> (r: String)
        ensures
            r@ == schema_path_text(self@),
    {
        let mut out = String::new();
        let ghost ms = self@;
        let mut i: usize = 0;
        assert(ms.take(0) =~= Seq::<SchemaAccessorModel>::empty());
        while i < self.0.len()
            invariant
                i <= self.0.len(),
                ms == schema_accessor_models(self.0@),
                out@ == schema_path_text(ms.take(i as int)),
            decreases self.0.len() - i,
        {
            proof {
                assert(ms.take(i + 1).drop_last() =~= ms.take(i as int));
                assert(ms.take(i + 1).last() == self.0@[i as int]@);
                if i == 0 {
                    assert(out@ =~= Seq::<char>::empty());
                    assert(ms.take(1)[0] == self.0@[0]@);
                }
            }
            let accessor = &self.0[i];
            let text = accessor.to_string();
            if i > 0 && matches!(accessor, SchemaAccessor::Key(_)) {
                out.append(".");
            }
            out.append(text.as_str());
            proof {
                if i > 0 && accessor is Key {
                    assert(out@ =~= schema_path_text(ms.take(i as int)) + ("."@ + text@));
                }
                if i == 0 {
                    assert(out@ =~= text@);
                }
            }
            i += 1;
        }
        assert(ms.take(i as int) =~= ms);
        out
    }
}

impl From<Vec<SchemaAccessor>> for SchemaAccessors {
    fn from(accessors: Vec<SchemaAccessor>) -> (r: Self) {
        Self(accessors)
    }
}

impl FromSpecImpl<Vec<SchemaAccessor>> for SchemaAccessors {
    open spec fn obeys_from_spec() -> bool {
        true
    }

    open spec fn from_spec(accessors: Vec<SchemaAccessor>) -> Self {
        SchemaAccessors(accessors)
    }
}

} // verus!
