//! Byte offsets, line/column positions and the intervals built from them.

use core::cmp::Ordering;
use vstd::prelude::*;
use vstd::std_specs::cmp::PartialOrdSpecImpl;
use vstd::std_specs::convert::FromSpecImpl;
use vstd::std_specs::ops::{AddSpecImpl, SubSpecImpl};

verus! {

/// Raw width of every text measure: a number of UTF-8 bytes.
pub type RawTextSize = u32;

pub type RawOffset = u32;

pub type RelativeOffset = u32;

pub type Line = u32;

pub type Column = u32;

/// A measure of text length and, equivalently, an index into text,
/// counted in UTF-8 bytes.
#[derive(Clone, Copy, Debug, PartialEq, Eq, Structural, Ord, Hash)]
pub struct Offset {
    pub raw: RawTextSize,
}

impl Offset {
    /// The largest offset there is.
    #[inline]
    #[must_use]
    pub fn maximum() -> (r: Self)
        ensures
            r.raw == u32::MAX,
    {
        Self { raw: u32::MAX }
    }

    /// The offset of the first byte.
    #[inline]
    #[must_use]
    pub fn minimum() -> (r: Self)
        ensures
            r.raw == 0,
    {
        Self { raw: 0 }
    }

    /// Creates an offset from a raw byte count.
    #[inline]
    #[must_use]
    pub fn new(raw: u32) -> (r: Self)
        ensures
            r.raw == raw,
    {
        Self { raw }
    }

    /// The size of `text` in bytes.
    #[inline]
    #[must_use]
    pub fn of(text: &str) -> (r: Self)
        requires
            text.len() <= u32::MAX,
        ensures
            r.raw == text.len(),
    {
        let len: usize = text.len();
        Self::new(len as u32)
    }

    /// Checked addition: `None` exactly when the sum leaves the `u32` range.
    #[inline]
    #[must_use]
    pub fn checked_add(self, rhs: Self) -> (r: Option<Self>)
        ensures
            self.raw + rhs.raw <= u32::MAX ==> r == Some(Offset { raw: (self.raw + rhs.raw) as u32 }),
            self.raw + rhs.raw > u32::MAX ==> r is None,
    {
        match self.raw.checked_add(rhs.raw) {
            Some(raw) => Some(Self { raw }),
            None => None,
        }
    }

    /// Checked subtraction: `None` exactly when `rhs` is the larger one.
    #[inline]
    #[must_use]
    pub fn checked_sub(self, rhs: Self) -> (r: Option<Self>)
        ensures
            self.raw >= rhs.raw ==> r == Some(Offset { raw: (self.raw - rhs.raw) as u32 }),
            self.raw < rhs.raw ==> r is None,
    {
        match self.raw.checked_sub(rhs.raw) {
            Some(raw) => Some(Self { raw }),
            None => None,
        }
    }

    /// The sum of two offsets.
    #[inline]
    #[must_use]
    pub fn plus(self, rhs: Self) -> (r: Self)
        requires
            self.raw + rhs.raw <= u32::MAX,
        ensures
            r.raw == self.raw + rhs.raw,
    {
        Self { raw: self.raw + rhs.raw }
    }

    /// The distance from `rhs` up to `self`.
    #[inline]
    #[must_use]
    pub fn minus(self, rhs: Self) -> (r: Self)
        requires
            rhs.raw <= self.raw,
        ensures
            r.raw == self.raw - rhs.raw,
    {
        Self { raw: self.raw - rhs.raw }
    }

    /// The offset as a `usize` index.
    #[inline]
    #[must_use]
    pub fn to_usize(self) -> (r: usize)
        ensures
            r == self.raw,
    {
        self.raw as usize
    }

    /// Converts an index into an offset, if it fits into 32 bits.
    #[inline]
    #[must_use]
    pub fn try_from_usize(value: usize) -> (r: Option<Self>)
        ensures
            value <= u32::MAX ==> r == Some(Offset { raw: value as u32 }),
            value > u32::MAX ==> r is None,
    {
        if value <= 0xffff_ffff {
            Some(Self { raw: value as u32 })
        } else {
            None
        }
    }
}

impl Default for Offset {
    fn default() -> (r: Self)
        ensures
            r.raw == 0,
    {
        Self { raw: 0 }
    }
}

impl From<u32> for Offset {
    #[inline]
    fn from(raw: u32) -> (r: Self) {
        Self { raw }
    }
}

impl FromSpecImpl<u32> for Offset {
    open spec fn obeys_from_spec() -> bool {
        true
    }

    open spec fn from_spec(raw: u32) -> Self {
        Offset { raw }
    }
}

impl From<Offset> for u32 {
    #[inline]
    fn from(value: Offset) -> (r: Self) {
        value.raw
    }
}

impl FromSpecImpl<Offset> for u32 {
    open spec fn obeys_from_spec() -> bool {
        true
    }

    open spec fn from_spec(value: Offset) -> Self {
        value.raw
    }
}

impl core::ops::Add for Offset {
    type Output = Self;

    #[inline]
    fn add(self, rhs: Self) -> (r: Self) {
        Self { raw: self.raw + rhs.raw }
    }
}

impl AddSpecImpl for Offset {
    open spec fn obeys_add_spec() -> bool {
        true
    }

    open spec fn add_req(self, rhs: Self) -> bool {
        self.raw + rhs.raw <= u32::MAX
    }

    open spec fn add_spec(self, rhs: Self) -> Self {
        Offset { raw: (self.raw + rhs.raw) as u32 }
    }
}

impl core::ops::Sub for Offset {
    type Output = Self;

    #[inline]
    fn sub(self, rhs: Self) -> (r: Self) {
        Self { raw: self.raw - rhs.raw }
    }
}

impl SubSpecImpl for Offset {
    open spec fn obeys_sub_spec() -> bool {
        true
    }

    open spec fn sub_req(self, rhs: Self) -> bool {
        rhs.raw <= self.raw
    }

    open spec fn sub_spec(self, rhs: Self) -> Self {
        Offset { raw: (self.raw - rhs.raw) as u32 }
    }
}

impl PartialOrd for Offset {
    fn partial_cmp(&self, other: &Self) -> (r: Option<Ordering>) {
        if self.raw < other.raw {
            Some(Ordering::Less)
        } else if self.raw == other.raw {
            Some(Ordering::Equal)
        } else {
            Some(Ordering::Greater)
        }
    }
}

impl PartialOrdSpecImpl for Offset {
    open spec fn obeys_partial_cmp_spec() -> bool {
        true
    }

    open spec fn partial_cmp_spec(&self, other: &Self) -> Option<Ordering> {
        if self.raw < other.raw {
            Some(Ordering::Less)
        } else if self.raw == other.raw {
            Some(Ordering::Equal)
        } else {
            Some(Ordering::Greater)
        }
    }
}

/// A place in a text, as a line and a column on that line.
#[derive(Clone, Copy, Debug, PartialEq, Eq, Structural, Ord, Hash)]
pub struct Position {
    pub line: Line,
    pub column: Column,
}

impl Position {
    /// The last place there is.
    #[inline]
    #[must_use]
    pub fn maximum() -> (r: Self)
        ensures
            r.line == u32::MAX,
            r.column == u32::MAX,
    {
        Self { line: u32::MAX, column: u32::MAX }
    }

    /// The first place of every text.
    #[inline]
    #[must_use]
    pub fn minimum() -> (r: Self)
        ensures
            r.line == 0,
            r.column == 0,
    {
        Self { line: 0, column: 0 }
    }

    #[inline]
    #[must_use]
    pub fn new(line: Line, column: Column) -> (r: Self)
        ensures
            r.line == line,
            r.column == column,
    {
        Self { line, column }
    }

    /// `self` comes strictly before `other`: on an earlier line, or on
    /// the same line in an earlier column.
    pub open spec fn precedes(self, other: Self) -> bool {
        self.line < other.line || (self.line == other.line && self.column < other.column)
    }

    /// `self` comes before `other` or is the same place.
    pub open spec fn at_or_before(self, other: Self) -> bool {
        self.precedes(other) || self == other
    }

    /// The place reached from `self` by reading a text of extent `rhs`.
    pub open spec fn advanced(self, rhs: RelativePosition) -> (int, int) {
        if rhs.line == 0 {
            (self.line as int, self.column + rhs.column)
        } else {
            (self.line + rhs.line, rhs.column as int)
        }
    }

    /// Decides `at_or_before`.
    #[inline]
    #[must_use]
    pub fn is_at_or_before(&self, other: &Self) -> (r: bool)
        ensures
            r == self.at_or_before(*other),
    {
        self.line < other.line || (self.line == other.line && self.column <= other.column)
    }

    /// Moves over a text of extent `rhs`: a text without a line break
    /// moves the column on, any other one starts counting columns anew
    /// on the line it ends on.
    #[inline]
    #[must_use]
    pub fn advance(self, rhs: RelativePosition) -> (r: Self)
        requires
            self.advanced(rhs).0 <= u32::MAX,
            self.advanced(rhs).1 <= u32::MAX,
        ensures
            (r.line as int, r.column as int) == self.advanced(rhs),
    {
        if rhs.line == 0 {
            Self { line: self.line, column: self.column + rhs.column }
        } else {
            Self { line: self.line + rhs.line, column: rhs.column }
        }
    }

    /// The earlier of two places.
    #[inline]
    #[must_use]
    pub fn earliest(self, other: Self) -> (r: Self)
        ensures
            r == if self.at_or_before(other) { self } else { other },
    {
        if self.is_at_or_before(&other) {
            self
        } else {
            other
        }
    }

    /// The later of two places.
    #[inline]
    #[must_use]
    pub fn latest(self, other: Self) -> (r: Self)
        ensures
            r == if self.at_or_before(other) { other } else { self },
    {
        if self.is_at_or_before(&other) {
            other
        } else {
            self
        }
    }
}

impl Default for Position {
    fn default() -> (r: Self)
        ensures
            r.line == 0,
            r.column == 0,
    {
        Self { line: 0, column: 0 }
    }
}

impl core::ops::Add<RelativePosition> for Position {
    type Output = Self;

    /// The place reached by reading a text of extent `rhs`.
    #[inline]
    fn add(self, rhs: RelativePosition) -> (r: Self) {
        self.advance(rhs)
    }
}

impl AddSpecImpl<RelativePosition> for Position {
    open spec fn obeys_add_spec() -> bool {
        true
    }

    open spec fn add_req(self, rhs: RelativePosition) -> bool {
        self.advanced(rhs).0 <= u32::MAX && self.advanced(rhs).1 <= u32::MAX
    }

    open spec fn add_spec(self, rhs: RelativePosition) -> Self {
        Position { line: self.advanced(rhs).0 as u32, column: self.advanced(rhs).1 as u32 }
    }
}

impl PartialOrd for Position {
    fn partial_cmp(&self, other: &Self) -> (r: Option<Ordering>) {
        if self.line < other.line || (self.line == other.line && self.column < other.column) {
            Some(Ordering::Less)
        } else if self.line == other.line && self.column == other.column {
            Some(Ordering::Equal)
        } else {
            Some(Ordering::Greater)
        }
    }
}

impl PartialOrdSpecImpl for Position {
    open spec fn obeys_partial_cmp_spec() -> bool {
        true
    }

    open spec fn partial_cmp_spec(&self, other: &Self) -> Option<Ordering> {
        if self.precedes(*other) {
            Some(Ordering::Less)
        } else if *self == *other {
            Some(Ordering::Equal)
        } else {
            Some(Ordering::Greater)
        }
    }
}

/// The extent of a piece of text: how many line breaks it holds and how
/// many characters follow the last of them.
#[derive(Clone, Copy, Debug, PartialEq, Eq, Structural, Hash)]
pub struct RelativePosition {
    pub line: Line,
    pub column: Column,
}

/// Number of line breaks in `text`.
pub open spec fn line_breaks(text: Seq<char>) -> nat
    decreases text.len(),
{
    if text.len() == 0 {
        0
    } else {
        line_breaks(text.drop_last()) + if text.last() == '\n' { 1nat } else { 0nat }
    }
}

/// Number of characters of `text` behind its last line break.
pub open spec fn tail_columns(text: Seq<char>) -> nat
    decreases text.len(),
{
    if text.len() == 0 || text.last() == '\n' {
        0
    } else {
        tail_columns(text.drop_last()) + 1
    }
}

/// Neither count of `text` exceeds its length.
pub proof fn lemma_extent_bounded(text: Seq<char>)
    ensures
        line_breaks(text) <= text.len(),
        tail_columns(text) <= text.len(),
    decreases text.len(),
{
    if text.len() > 0 {
        lemma_extent_bounded(text.drop_last());
    }
}

/// A text has at least as many characters as it has line breaks and
/// characters behind the last of them.
pub proof fn lemma_extent_sum(text: Seq<char>)
    ensures
        line_breaks(text) + tail_columns(text) <= text.len(),
    decreases text.len(),
{
    if text.len() > 0 {
        lemma_extent_sum(text.drop_last());
    }
}

impl RelativePosition {
    #[inline]
    #[must_use]
    pub fn new(line: Line, column: Column) -> (r: Self)
        ensures
            r.line == line,
            r.column == column,
    {
        Self { line, column }
    }

    /// The extent of `text`.
    #[must_use]
    pub fn of(text: &str) -> (r: Self)
        requires
            text@.len() <= u32::MAX,
        ensures
            r.line == line_breaks(text@),
            r.column == tail_columns(text@),
    {
        let chars = crate::strings::chars_of(text);
        let n: usize = chars.len();
        let mut line: u32 = 0;
        let mut column: u32 = 0;
        let mut i: usize = 0;
        while i < n
            invariant
                chars@ == text@,
                n == text@.len(),
                n <= u32::MAX,
                i <= n,
                line == line_breaks(text@.take(i as int)),
                column == tail_columns(text@.take(i as int)),
            decreases n - i,
        {
            let c = chars[i];
            proof {
                let next = text@.take(i + 1);
                assert(next.drop_last() =~= text@.take(i as int));
                assert(next.last() == c);
                lemma_extent_bounded(next);
            }
            if c == '\n' {
                line = line + 1;
                column = 0;
            } else {
                column = column + 1;
            }
            i = i + 1;
        }
        assert(text@.take(n as int) =~= text@);
        Self { line, column }
    }
}

/// A half-open interval of byte offsets. A well-formed span ends at or
/// behind its start.
#[derive(Clone, Copy, Debug, PartialEq, Eq, Structural, Ord, Hash)]
pub struct Span {
    pub start: Offset,
    pub end: Offset,
}

impl Span {
    /// The span behind every other one: the place of an end-of-file mark.
    #[inline]
    #[must_use]
    pub fn maximum() -> (r: Self)
        ensures
            r.start.raw == u32::MAX,
            r.end.raw == u32::MAX,
    {
        Self { start: Offset::maximum(), end: Offset::maximum() }
    }

    /// The empty span at the start of the text.
    #[inline]
    #[must_use]
    pub fn minimum() -> (r: Self)
        ensures
            r.start.raw == 0,
            r.end.raw == 0,
    {
        Self { start: Offset::minimum(), end: Offset::minimum() }
    }

    pub open spec fn is_valid(self) -> bool {
        self.start.raw <= self.end.raw
    }

    /// What `new` builds.
    pub open spec fn new_spec(start: Offset, end: Offset) -> Self {
        Span { start, end: if start.raw <= end.raw { end } else { start } }
    }

    /// The span from `start` to `end`; an `end` in front of `start` is
    /// replaced by `start`.
    #[inline]
    #[must_use]
    pub fn new(start: Offset, end: Offset) -> (r: Self)
        ensures
            r == Span::new_spec(start, end),
            r.start == start,
            r.end == if start.raw <= end.raw { end } else { start },
            r.is_valid(),
    {
        Self { start, end: if start.raw <= end.raw { end } else { start } }
    }

    /// The empty span at `offset`.
    #[inline]
    #[must_use]
    pub fn at(offset: Offset) -> (r: Self)
        ensures
            r.start == offset,
            r.end == offset,
    {
        Self { start: offset, end: offset }
    }

    #[inline]
    #[must_use]
    pub fn start(&self) -> (r: Offset)
        ensures
            r == self.start,
    {
        self.start
    }

    #[inline]
    #[must_use]
    pub fn end(&self) -> (r: Offset)
        ensures
            r == self.end,
    {
        self.end
    }

    /// Number of bytes covered.
    #[inline]
    #[must_use]
    pub fn len(&self) -> (r: RawOffset)
        requires
            self.is_valid(),
        ensures
            r == self.end.raw - self.start.raw,
    {
        self.end.raw - self.start.raw
    }

    #[inline]
    #[must_use]
    pub fn is_empty(&self) -> (r: bool)
        ensures
            r == (self.start == self.end),
    {
        self.start.raw == self.end.raw
    }

    /// Whether `offset` lies in the span, its end included.
    #[inline]
    #[must_use]
    pub fn contains(&self, offset: Offset) -> (r: bool)
        ensures
            r == (self.start.raw <= offset.raw <= self.end.raw),
    {
        self.start.raw <= offset.raw && offset.raw <= self.end.raw
    }

    /// Order of spans: by start, then by end.
    pub open spec fn precedes(self, other: Self) -> bool {
        self.start.raw < other.start.raw || (self.start == other.start && self.end.raw
            < other.end.raw)
    }
}

impl PartialOrd for Span {
    fn partial_cmp(&self, other: &Self) -> (r: Option<Ordering>) {
        if self.start.raw < other.start.raw || (self.start.raw == other.start.raw && self.end.raw
            < other.end.raw) {
            Some(Ordering::Less)
        } else if self.start.raw == other.start.raw && self.end.raw == other.end.raw {
            Some(Ordering::Equal)
        } else {
            Some(Ordering::Greater)
        }
    }
}

impl PartialOrdSpecImpl for Span {
    open spec fn obeys_partial_cmp_spec() -> bool {
        true
    }

    open spec fn partial_cmp_spec(&self, other: &Self) -> Option<Ordering> {
        if self.precedes(*other) {
            Some(Ordering::Less)
        } else if *self == *other {
            Some(Ordering::Equal)
        } else {
            Some(Ordering::Greater)
        }
    }
}

/// An interval of positions. A well-formed range ends at or behind its
/// start.
#[derive(Clone, Copy, Debug, PartialEq, Eq, Structural, Ord, Hash)]
pub struct Range {
    pub start: Position,
    pub end: Position,
}

impl Range {
    /// The range behind every other one: the place of an end-of-file mark.
    #[inline]
    #[must_use]
    pub fn maximum() -> (r: Self)
        ensures
            r.start == (Position { line: u32::MAX, column: u32::MAX }),
            r.end == r.start,
    {
        Self { start: Position::maximum(), end: Position::maximum() }
    }

    /// The empty range at the start of the text.
    #[inline]
    #[must_use]
    pub fn minimum() -> (r: Self)
        ensures
            r.start == (Position { line: 0, column: 0 }),
            r.end == r.start,
    {
        Self { start: Position::minimum(), end: Position::minimum() }
    }

    pub open spec fn is_valid(self) -> bool {
        self.start.at_or_before(self.end)
    }

    /// The range from `start` to `end`. An `end` in front of `start` is
    /// not an error: the range then collapses to the empty one at `start`.
    #[inline]
    pub fn new(start: Position, end: Position) -> (r: Self)
        ensures
            r == Range::new_spec(start, end),
            r.start == start,
            r.end == if start.at_or_before(end) { end } else { start },
            r.is_valid(),
            !start.at_or_before(end) ==> r.start == r.end,
    {
        Self { start, end: if start.is_at_or_before(&end) { end } else { start } }
    }

    /// The empty range at `position`.
    #[inline]
    #[must_use]
    pub fn at(position: Position) -> (r: Self)
        ensures
            r.start == position,
            r.end == position,
    {
        Self::new(position, position)
    }

    #[inline]
    #[must_use]
    pub fn is_empty(self) -> (r: bool)
        ensures
            r == (self.start == self.end),
    {
        self.start.line == self.end.line && self.start.column == self.end.column
    }

    /// Whether `position` lies in the range, its end included.
    #[inline]
    #[must_use]
    pub fn contains(&self, position: Position) -> (r: bool)
        ensures
            r == (self.start.at_or_before(position) && position.at_or_before(self.end)),
    {
        self.start.is_at_or_before(&position) && position.is_at_or_before(&self.end)
    }

    /// Order of ranges: by start, then by end.
    pub open spec fn precedes(self, other: Self) -> bool {
        self.start.precedes(other.start) || (self.start == other.start && self.end.precedes(
            other.end,
        ))
    }

    /// Builds the range between two `(line, column)` pairs.
    #[inline]
    #[must_use]
    pub fn from_pairs(start: (Line, Column), end: (Line, Column)) -> (r: Self)
        ensures
            r == Range::new_spec(
                Position { line: start.0, column: start.1 },
                Position { line: end.0, column: end.1 },
            ),
    {
        Self::new(Position::new(start.0, start.1), Position::new(end.0, end.1))
    }

    /// What `new` builds.
    pub open spec fn new_spec(start: Position, end: Position) -> Self {
        Range { start, end: if start.at_or_before(end) { end } else { start } }
    }

    /// Stretches the range over a following text of extent `rhs`.
    #[inline]
    #[must_use]
    pub fn extended(self, rhs: RelativePosition) -> (r: Self)
        requires
            self.end.advanced(rhs).0 <= u32::MAX,
            self.end.advanced(rhs).1 <= u32::MAX,
        ensures
            r.start == self.start,
            (r.end.line as int, r.end.column as int) == self.end.advanced(rhs),
    {
        Self { start: self.start, end: self.end.advance(rhs) }
    }

    /// The smallest range that covers both `self` and `rhs`.
    #[inline]
    #[must_use]
    pub fn cover(self, rhs: Self) -> (r: Self)
        ensures
            r == Range::new_spec(
                if self.start.at_or_before(rhs.start) { self.start } else { rhs.start },
                if self.end.at_or_before(rhs.end) { rhs.end } else { self.end },
            ),
    {
        Self::new(self.start.earliest(rhs.start), self.end.latest(rhs.end))
    }
}

impl Default for Range {
    fn default() -> (r: Self)
        ensures
            r.start == (Position { line: 0, column: 0 }),
            r.end == r.start,
    {
        Self { start: Position { line: 0, column: 0 }, end: Position { line: 0, column: 0 } }
    }
}

impl PartialOrd for Range {
    #[inline]
    fn partial_cmp(&self, other: &Self) -> (r: Option<Ordering>) {
        if self.start.line < other.start.line || (self.start.line == other.start.line
            && self.start.column < other.start.column) {
            Some(Ordering::Less)
        } else if !(self.start.line == other.start.line && self.start.column
            == other.start.column) {
            Some(Ordering::Greater)
        } else if self.end.line < other.end.line || (self.end.line == other.end.line
            && self.end.column < other.end.column) {
            Some(Ordering::Less)
        } else if self.end.line == other.end.line && self.end.column == other.end.column {
            Some(Ordering::Equal)
        } else {
            Some(Ordering::Greater)
        }
    }
}

impl PartialOrdSpecImpl for Range {
    open spec fn obeys_partial_cmp_spec() -> bool {
        true
    }

    open spec fn partial_cmp_spec(&self, other: &Self) -> Option<Ordering> {
        if self.precedes(*other) {
            Some(Ordering::Less)
        } else if *self == *other {
            Some(Ordering::Equal)
        } else {
            Some(Ordering::Greater)
        }
    }
}

impl core::ops::Add for Range {
    type Output = Self;

    /// The smallest range that covers both.
    #[inline]
    fn add(self, rhs: Self) -> (r: Self) {
        self.cover(rhs)
    }
}

impl AddSpecImpl for Range {
    open spec fn obeys_add_spec() -> bool {
        true
    }

    open spec fn add_req(self, rhs: Self) -> bool {
        true
    }

    open spec fn add_spec(self, rhs: Self) -> Self {
        Range::new_spec(
            if self.start.at_or_before(rhs.start) {
                self.start
            } else {
                rhs.start
            },
            if self.end.at_or_before(rhs.end) {
                rhs.end
            } else {
                self.end
            },
        )
    }
}

impl From<((Line, Column), (Line, Column))> for Range {
    #[inline]
    fn from(ends: ((Line, Column), (Line, Column))) -> (r: Self) {
        Self::from_pairs(ends.0, ends.1)
    }
}

impl FromSpecImpl<((Line, Column), (Line, Column))> for Range {
    open spec fn obeys_from_spec() -> bool {
        true
    }

    open spec fn from_spec(ends: ((Line, Column), (Line, Column))) -> Self {
        Range::new_spec(
            Position { line: ends.0.0, column: ends.0.1 },
            Position { line: ends.1.0, column: ends.1.1 },
        )
    }
}

impl From<(Position, Position)> for Range {
    #[inline]
    fn from(ends: (Position, Position)) -> (r: Self) {
        Self::new(ends.0, ends.1)
    }
}

impl FromSpecImpl<(Position, Position)> for Range {
    open spec fn obeys_from_spec() -> bool {
        true
    }

    open spec fn from_spec(ends: (Position, Position)) -> Self {
        Range::new_spec(ends.0, ends.1)
    }
}

/// A range built with `new` never ends in front of its start, whatever
/// the two positions were.
pub proof fn lemma_range_new_is_valid(start: Position, end: Position)
    ensures
        Range::new_spec(start, end).is_valid(),
        end.precedes(start) ==> Range::new_spec(start, end).start == Range::new_spec(
            start,
            end,
        ).end,
{
}

/// No span lies behind the maximal one, and every other span lies
/// strictly in front of it.
pub proof fn lemma_span_maximum_is_last(span: Span)
    ensures
        !(Span { start: Offset { raw: u32::MAX }, end: Offset { raw: u32::MAX } }).precedes(span),
        span != (Span { start: Offset { raw: u32::MAX }, end: Offset { raw: u32::MAX } })
            ==> span.precedes(
            Span { start: Offset { raw: u32::MAX }, end: Offset { raw: u32::MAX } },
        ),
{
}

/// No range lies behind the maximal one, and every other range lies
/// strictly in front of it.
pub proof fn lemma_range_maximum_is_last(range: Range)
    ensures
        ({
            let last = Position { line: u32::MAX, column: u32::MAX };
            let max = Range { start: last, end: last };
            &&& !max.precedes(range)
            &&& range != max ==> range.precedes(max)
        }),
{
}

} // verus!
