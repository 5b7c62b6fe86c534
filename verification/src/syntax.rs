//! The closed set of lexical and syntactic categories of the grammar.

use vstd::prelude::*;

verus! {

/// The tag of a tree element as the tree stores it.
pub type RawSyntaxKind = u16;

/// Every category a token or a node can belong to.
#[allow(non_camel_case_types)]
#[allow(clippy::upper_case_acronyms)]
#[derive(Clone, Copy, Debug, PartialEq, Eq, Structural, Hash)]
pub enum SyntaxKind {
    TOMBSTONE,
    EOF,
    COMMA,
    DOT,
    EQUAL,
    BRACKET_START,
    BRACKET_END,
    DOUBLE_BRACKET_START,
    DOUBLE_BRACKET_END,
    BRACE_START,
    BRACE_END,
    BARE_KEY,
    BASIC_STRING,
    MULTI_LINE_BASIC_STRING,
    LITERAL_STRING,
    MULTI_LINE_LITERAL_STRING,
    INTEGER_DEC,
    INTEGER_HEX,
    INTEGER_OCT,
    INTEGER_BIN,
    FLOAT,
    BOOLEAN,
    OFFSET_DATE_TIME,
    LOCAL_DATE_TIME,
    LOCAL_DATE,
    LOCAL_TIME,
    WHITESPACE,
    LINE_BREAK,
    COMMENT,
    INVALID_TOKEN,
    ROOT,
    KEYS,
    KEY_VALUE,
    ARRAY,
    TABLE,
    ARRAY_OF_TABLE,
    INLINE_TABLE,
    ERROR,
}

/// Number of kinds; every raw tag is below it.
pub const KIND_COUNT: u16 = 38;

impl SyntaxKind {
    /// The position of the kind in the enumeration.
    pub open spec fn ordinal(self) -> nat {
        match self {
            SyntaxKind::TOMBSTONE => 0,
            SyntaxKind::EOF => 1,
            SyntaxKind::COMMA => 2,
            SyntaxKind::DOT => 3,
            SyntaxKind::EQUAL => 4,
            SyntaxKind::BRACKET_START => 5,
            SyntaxKind::BRACKET_END => 6,
            SyntaxKind::DOUBLE_BRACKET_START => 7,
            SyntaxKind::DOUBLE_BRACKET_END => 8,
            SyntaxKind::BRACE_START => 9,
            SyntaxKind::BRACE_END => 10,
            SyntaxKind::BARE_KEY => 11,
            SyntaxKind::BASIC_STRING => 12,
            SyntaxKind::MULTI_LINE_BASIC_STRING => 13,
            SyntaxKind::LITERAL_STRING => 14,
            SyntaxKind::MULTI_LINE_LITERAL_STRING => 15,
            SyntaxKind::INTEGER_DEC => 16,
            SyntaxKind::INTEGER_HEX => 17,
            SyntaxKind::INTEGER_OCT => 18,
            SyntaxKind::INTEGER_BIN => 19,
            SyntaxKind::FLOAT => 20,
            SyntaxKind::BOOLEAN => 21,
            SyntaxKind::OFFSET_DATE_TIME => 22,
            SyntaxKind::LOCAL_DATE_TIME => 23,
            SyntaxKind::LOCAL_DATE => 24,
            SyntaxKind::LOCAL_TIME => 25,
            SyntaxKind::WHITESPACE => 26,
            SyntaxKind::LINE_BREAK => 27,
            SyntaxKind::COMMENT => 28,
            SyntaxKind::INVALID_TOKEN => 29,
            SyntaxKind::ROOT => 30,
            SyntaxKind::KEYS => 31,
            SyntaxKind::KEY_VALUE => 32,
            SyntaxKind::ARRAY => 33,
            SyntaxKind::TABLE => 34,
            SyntaxKind::ARRAY_OF_TABLE => 35,
            SyntaxKind::INLINE_TABLE => 36,
            SyntaxKind::ERROR => 37,
        }
    }

    /// The kind at position `raw` of the enumeration.
    pub open spec fn of_ordinal(raw: nat) -> SyntaxKind {
        if raw == 0 {
            SyntaxKind::TOMBSTONE
        } else if raw == 1 {
            SyntaxKind::EOF
        } else if raw == 2 {
            SyntaxKind::COMMA
        } else if raw == 3 {
            SyntaxKind::DOT
        } else if raw == 4 {
            SyntaxKind::EQUAL
        } else if raw == 5 {
            SyntaxKind::BRACKET_START
        } else if raw == 6 {
            SyntaxKind::BRACKET_END
        } else if raw == 7 {
            SyntaxKind::DOUBLE_BRACKET_START
        } else if raw == 8 {
            SyntaxKind::DOUBLE_BRACKET_END
        } else if raw == 9 {
            SyntaxKind::BRACE_START
        } else if raw == 10 {
            SyntaxKind::BRACE_END
        } else if raw == 11 {
            SyntaxKind::BARE_KEY
        } else if raw == 12 {
            SyntaxKind::BASIC_STRING
        } else if raw == 13 {
            SyntaxKind::MULTI_LINE_BASIC_STRING
        } else if raw == 14 {
            SyntaxKind::LITERAL_STRING
        } else if raw == 15 {
            SyntaxKind::MULTI_LINE_LITERAL_STRING
        } else if raw == 16 {
            SyntaxKind::INTEGER_DEC
        } else if raw == 17 {
            SyntaxKind::INTEGER_HEX
        } else if raw == 18 {
            SyntaxKind::INTEGER_OCT
        } else if raw == 19 {
            SyntaxKind::INTEGER_BIN
        } else if raw == 20 {
            SyntaxKind::FLOAT
        } else if raw == 21 {
            SyntaxKind::BOOLEAN
        } else if raw == 22 {
            SyntaxKind::OFFSET_DATE_TIME
        } else if raw == 23 {
            SyntaxKind::LOCAL_DATE_TIME
        } else if raw == 24 {
            SyntaxKind::LOCAL_DATE
        } else if raw == 25 {
            SyntaxKind::LOCAL_TIME
        } else if raw == 26 {
            SyntaxKind::WHITESPACE
        } else if raw == 27 {
            SyntaxKind::LINE_BREAK
        } else if raw == 28 {
            SyntaxKind::COMMENT
        } else if raw == 29 {
            SyntaxKind::INVALID_TOKEN
        } else if raw == 30 {
            SyntaxKind::ROOT
        } else if raw == 31 {
            SyntaxKind::KEYS
        } else if raw == 32 {
            SyntaxKind::KEY_VALUE
        } else if raw == 33 {
            SyntaxKind::ARRAY
        } else if raw == 34 {
            SyntaxKind::TABLE
        } else if raw == 35 {
            SyntaxKind::ARRAY_OF_TABLE
        } else if raw == 36 {
            SyntaxKind::INLINE_TABLE
        } else {
            SyntaxKind::ERROR
        }
    }

    /// The raw tag of the kind: its position in the enumeration.
    #[must_use]
    pub fn to_raw(self) -> (r: RawSyntaxKind)
        ensures
            r == self.ordinal(),
            r < KIND_COUNT,
    {
        match self {
            SyntaxKind::TOMBSTONE => 0,
            SyntaxKind::EOF => 1,
            SyntaxKind::COMMA => 2,
            SyntaxKind::DOT => 3,
            SyntaxKind::EQUAL => 4,
            SyntaxKind::BRACKET_START => 5,
            SyntaxKind::BRACKET_END => 6,
            SyntaxKind::DOUBLE_BRACKET_START => 7,
            SyntaxKind::DOUBLE_BRACKET_END => 8,
            SyntaxKind::BRACE_START => 9,
            SyntaxKind::BRACE_END => 10,
            SyntaxKind::BARE_KEY => 11,
            SyntaxKind::BASIC_STRING => 12,
            SyntaxKind::MULTI_LINE_BASIC_STRING => 13,
            SyntaxKind::LITERAL_STRING => 14,
            SyntaxKind::MULTI_LINE_LITERAL_STRING => 15,
            SyntaxKind::INTEGER_DEC => 16,
            SyntaxKind::INTEGER_HEX => 17,
            SyntaxKind::INTEGER_OCT => 18,
            SyntaxKind::INTEGER_BIN => 19,
            SyntaxKind::FLOAT => 20,
            SyntaxKind::BOOLEAN => 21,
            SyntaxKind::OFFSET_DATE_TIME => 22,
            SyntaxKind::LOCAL_DATE_TIME => 23,
            SyntaxKind::LOCAL_DATE => 24,
            SyntaxKind::LOCAL_TIME => 25,
            SyntaxKind::WHITESPACE => 26,
            SyntaxKind::LINE_BREAK => 27,
            SyntaxKind::COMMENT => 28,
            SyntaxKind::INVALID_TOKEN => 29,
            SyntaxKind::ROOT => 30,
            SyntaxKind::KEYS => 31,
            SyntaxKind::KEY_VALUE => 32,
            SyntaxKind::ARRAY => 33,
            SyntaxKind::TABLE => 34,
            SyntaxKind::ARRAY_OF_TABLE => 35,
            SyntaxKind::INLINE_TABLE => 36,
            SyntaxKind::ERROR => 37,
        }
    }

    /// The kind with raw tag `raw`.
    #[must_use]
    pub fn from_raw(raw: RawSyntaxKind) -> (r: Self)
        requires
            raw < KIND_COUNT,
        ensures
            r == Self::of_ordinal(raw as nat),
            r.ordinal() == raw,
    {
        if raw == 0 {
            SyntaxKind::TOMBSTONE
        } else if raw == 1 {
            SyntaxKind::EOF
        } else if raw == 2 {
            SyntaxKind::COMMA
        } else if raw == 3 {
            SyntaxKind::DOT
        } else if raw == 4 {
            SyntaxKind::EQUAL
        } else if raw == 5 {
            SyntaxKind::BRACKET_START
        } else if raw == 6 {
            SyntaxKind::BRACKET_END
        } else if raw == 7 {
            SyntaxKind::DOUBLE_BRACKET_START
        } else if raw == 8 {
            SyntaxKind::DOUBLE_BRACKET_END
        } else if raw == 9 {
            SyntaxKind::BRACE_START
        } else if raw == 10 {
            SyntaxKind::BRACE_END
        } else if raw == 11 {
            SyntaxKind::BARE_KEY
        } else if raw == 12 {
            SyntaxKind::BASIC_STRING
        } else if raw == 13 {
            SyntaxKind::MULTI_LINE_BASIC_STRING
        } else if raw == 14 {
            SyntaxKind::LITERAL_STRING
        } else if raw == 15 {
            SyntaxKind::MULTI_LINE_LITERAL_STRING
        } else if raw == 16 {
            SyntaxKind::INTEGER_DEC
        } else if raw == 17 {
            SyntaxKind::INTEGER_HEX
        } else if raw == 18 {
            SyntaxKind::INTEGER_OCT
        } else if raw == 19 {
            SyntaxKind::INTEGER_BIN
        } else if raw == 20 {
            SyntaxKind::FLOAT
        } else if raw == 21 {
            SyntaxKind::BOOLEAN
        } else if raw == 22 {
            SyntaxKind::OFFSET_DATE_TIME
        } else if raw == 23 {
            SyntaxKind::LOCAL_DATE_TIME
        } else if raw == 24 {
            SyntaxKind::LOCAL_DATE
        } else if raw == 25 {
            SyntaxKind::LOCAL_TIME
        } else if raw == 26 {
            SyntaxKind::WHITESPACE
        } else if raw == 27 {
            SyntaxKind::LINE_BREAK
        } else if raw == 28 {
            SyntaxKind::COMMENT
        } else if raw == 29 {
            SyntaxKind::INVALID_TOKEN
        } else if raw == 30 {
            SyntaxKind::ROOT
        } else if raw == 31 {
            SyntaxKind::KEYS
        } else if raw == 32 {
            SyntaxKind::KEY_VALUE
        } else if raw == 33 {
            SyntaxKind::ARRAY
        } else if raw == 34 {
            SyntaxKind::TABLE
        } else if raw == 35 {
            SyntaxKind::ARRAY_OF_TABLE
        } else if raw == 36 {
            SyntaxKind::INLINE_TABLE
        } else {
            SyntaxKind::ERROR
        }
    }

    /// Whether elements of this kind are whitespace, line breaks or
    /// comments, which carry no meaning but are kept in the tree.
    pub open spec fn spec_is_trivia(self) -> bool {
        self == SyntaxKind::WHITESPACE || self == SyntaxKind::LINE_BREAK || self
            == SyntaxKind::COMMENT
    }

    /// Decides `spec_is_trivia`.
    #[must_use]
    pub fn is_trivia(self) -> (r: bool)
        ensures
            r == self.spec_is_trivia(),
    {
        matches!(self, SyntaxKind::WHITESPACE | SyntaxKind::LINE_BREAK | SyntaxKind::COMMENT)
    }
}

/// Raw tags and kinds correspond one to one.
pub proof fn lemma_kind_raw_round_trip(kind: SyntaxKind)
    ensures
        kind.ordinal() < KIND_COUNT,
        SyntaxKind::of_ordinal(kind.ordinal()) == kind,
{
}

/// What can be wrong with a piece of syntax.
#[derive(Clone, Debug, PartialEq, Eq, Structural)]
pub enum Error {
    InvalidToken,
}

impl Default for Error {
    fn default() -> (r: Self)
        ensures
            r == Error::InvalidToken,
    {
        Error::InvalidToken
    }
}

impl Error {
    /// The message of the error.
    #[must_use]
    pub fn as_str(&self) -> (r: &'static str)
        ensures
            r@ == "Invalid token"@,
    {
        match self {
            Self::InvalidToken => "Invalid token",
        }
    }
}

} // verus!
