//! Reading a text as tokens: what a token is, how a text is cut into
//! lexemes, and what is reported about those that are malformed.

use crate::green::{lemma_chars_within_bytes, lemma_utf8_len_concat, utf8_len};
use crate::scan::{
    check_decimal_integer, check_date_at, check_date_time_until, check_float,
    check_offset_date_time, check_prefixed_integer, check_time_at, check_word_char,
    is_decimal_integer, is_float, is_local_date, is_local_date_time, is_local_time,
    is_offset_date_time, is_prefixed_integer, is_word_char, plain_digits, check_plain_digits,
    slice_of,
};
use crate::strings::chars_of;
use crate::syntax::SyntaxKind;
use crate::text::{
    lemma_extent_bounded, lemma_extent_sum, line_breaks, tail_columns, Offset, Position, Range,
    Span,
};
use vstd::prelude::*;
use vstd::utf8::{encode_scalar, encode_utf8};

verus! {

/// What is wrong with a malformed token.
#[derive(Clone, Copy, Debug, PartialEq, Eq, Structural)]
pub enum ErrorKind {
    InvalidKey,
    InvalidBasicString,
    InvalidLiteralString,
    InvalidMultilineBasicString,
    InvalidMultilineLiteralString,
    InvalidNumber,
    InvalidOffsetDateTime,
    InvalidLocalDateTime,
    InvalidLocalDate,
    InvalidLocalTime,
    InvalidLineBreak,
    InvalidToken,
}

/// A malformed token: what is wrong and where.
#[derive(Debug, PartialEq, Eq, Structural)]
pub struct Error {
    pub kind: ErrorKind,
    pub span: Span,
    pub range: Range,
}

impl Error {
    #[inline]
    #[must_use]
    pub fn new(kind: ErrorKind, place: (Span, Range)) -> (r: Self)
        ensures
            r.kind == kind,
            r.span == place.0,
            r.range == place.1,
    {
        Self { kind, span: place.0, range: place.1 }
    }

    #[inline]
    #[must_use]
    pub fn kind(&self) -> (r: ErrorKind)
        ensures
            r == self.kind,
    {
        self.kind
    }

    #[inline]
    #[must_use]
    pub fn span(&self) -> (r: Span)
        ensures
            r == self.span,
    {
        self.span
    }

    #[inline]
    #[must_use]
    pub fn range(&self) -> (r: Range)
        ensures
            r == self.range,
    {
        self.range
    }
}

/// A lexeme: its kind and its place in the source, as bytes and as
/// lines and columns.
#[derive(Clone, Copy, Debug, PartialEq, Eq, Structural)]
pub struct Token {
    pub kind: SyntaxKind,
    pub span: Span,
    pub range: Range,
}

impl Token {
    #[must_use]
    pub fn new(kind: SyntaxKind, place: (Span, Range)) -> (r: Self)
        ensures
            r.kind == kind,
            r.span == place.0,
            r.range == place.1,
    {
        Self { kind, span: place.0, range: place.1 }
    }

    /// The mark behind the last token of a text. It sits at the largest
    /// span and range, so that it sorts behind every token of the text.
    #[must_use]
    pub fn eof() -> (r: Self)
        ensures
            r == Token::eof_spec(),
    {
        Self { kind: SyntaxKind::EOF, span: Span::maximum(), range: Range::maximum() }
    }

    /// What `eof` builds.
    pub open spec fn eof_spec() -> Token {
        Token {
            kind: SyntaxKind::EOF,
            span: Span { start: Offset { raw: u32::MAX }, end: Offset { raw: u32::MAX } },
            range: Range {
                start: Position { line: u32::MAX, column: u32::MAX },
                end: Position { line: u32::MAX, column: u32::MAX },
            },
        }
    }

    #[inline]
    #[must_use]
    pub fn is_eof(&self) -> (r: bool)
        ensures
            r == (self.kind == SyntaxKind::EOF),
    {
        self.kind == SyntaxKind::EOF
    }

    #[inline]
    #[must_use]
    pub fn kind(&self) -> (r: SyntaxKind)
        ensures
            r == self.kind,
    {
        self.kind
    }

    #[inline]
    #[must_use]
    pub fn span(&self) -> (r: Span)
        ensures
            r == self.span,
    {
        self.span
    }

    #[inline]
    #[must_use]
    pub fn range(&self) -> (r: Range)
        ensures
            r == self.range,
    {
        self.range
    }
}

/// The end-of-file mark is one, and no token lies behind it: a token at
/// another span lies strictly in front of it, and so does one at another
/// range.
pub proof fn lemma_eof_is_last(token: Token)
    ensures
        Token::eof_spec().kind == SyntaxKind::EOF,
        !Token::eof_spec().span.precedes(token.span),
        !Token::eof_spec().range.precedes(token.range),
        token.span != Token::eof_spec().span ==> token.span.precedes(Token::eof_spec().span),
        token.range != Token::eof_spec().range ==> token.range.precedes(Token::eof_spec().range),
{
}

/// A class of characters that a lexeme is a run of.
#[derive(Clone, Copy, Debug, PartialEq, Eq, Structural)]
pub enum CharClass {
    /// Blanks and tabs.
    Blank,
    /// What may stand in a bare key.
    Word,
    /// What may stand in a number, a date or a time.
    Number,
    /// What may stand in a comment: all but the end of the line.
    Comment,
    /// What no lexeme starts with.
    Unknown,
}

/// Whether a lexeme of its own starts with `c`.
pub open spec fn starts_lexeme(c: char) -> bool {
    c == ' ' || c == '\t' || c == '\n' || c == '\r' || c == '#' || c == ',' || c == '.' || c
        == '=' || c == '[' || c == ']' || c == '{' || c == '}' || c == '"' || c == '\'' || c
        == '+' || is_word_char(c)
}

impl CharClass {
    pub open spec fn holds(self, c: char) -> bool {
        match self {
            CharClass::Blank => c == ' ' || c == '\t',
            CharClass::Word => is_word_char(c),
            CharClass::Number => is_word_char(c) || c == '+' || c == '.' || c == ':',
            CharClass::Comment => c != '\n' && c != '\r',
            CharClass::Unknown => !starts_lexeme(c),
        }
    }

    /// Decides `holds`.
    pub fn check(self, c: char) -> (r: bool)
        ensures
            r == self.holds(c),
    {
        match self {
            CharClass::Blank => c == ' ' || c == '\t',
            CharClass::Word => check_word_char(c),
            CharClass::Number => check_word_char(c) || c == '+' || c == '.' || c == ':',
            CharClass::Comment => c != '\n' && c != '\r',
            CharClass::Unknown => !(c == ' ' || c == '\t' || c == '\n' || c == '\r' || c == '#'
                || c == ',' || c == '.' || c == '=' || c == '[' || c == ']' || c == '{' || c
                == '}' || c == '"' || c == '\'' || c == '+' || check_word_char(c)),
        }
    }
}

/// Where the run of characters of `class` that starts at `at` ends.
pub open spec fn run_end(chars: Seq<char>, at: int, class: CharClass) -> int
    decreases chars.len() - at,
{
    if 0 <= at < chars.len() && class.holds(chars[at]) {
        run_end(chars, at + 1, class)
    } else {
        at
    }
}

/// A run ends behind its start and within the text.
pub proof fn lemma_run_end(chars: Seq<char>, at: int, class: CharClass)
    requires
        0 <= at <= chars.len(),
    ensures
        at <= run_end(chars, at, class) <= chars.len(),
        at < chars.len() && class.holds(chars[at]) ==> at < run_end(chars, at, class),
    decreases chars.len() - at,
{
    if at < chars.len() && class.holds(chars[at]) {
        lemma_run_end(chars, at + 1, class);
    }
}

/// Finds `run_end`.
pub fn scan_run(chars: &Vec<char>, at: usize, class: CharClass) -> (r: usize)
    requires
        at <= chars.len(),
    ensures
        r == run_end(chars@, at as int, class),
        at <= r <= chars.len(),
{
    let mut i: usize = at;
    while i < chars.len() && class.check(chars[i])
        invariant
            at <= i <= chars.len(),
            run_end(chars@, at as int, class) == run_end(chars@, i as int, class),
        decreases chars.len() - i,
    {
        i += 1;
    }
    i
}

/// Whether `c` may follow a backslash in a basic string. In a string of
/// several lines a backslash may also stand in front of the end of a
/// line, or of blanks before it.
pub open spec fn escape_ok(c: char, multi: bool) -> bool {
    c == 'b' || c == 't' || c == 'n' || c == 'f' || c == 'r' || c == 'e' || c == '"' || c
        == '\\' || c == 'u' || c == 'U' || c == 'x' || (multi && (c == '\n' || c == '\r' || c
        == ' ' || c == '\t'))
}

/// Whether the string that is read from `at` on is closed there: by its
/// quote, or by three of them in a row if it may run over several lines.
pub open spec fn closes_at(chars: Seq<char>, at: int, quote: char, multi: bool) -> bool {
    chars[at] == quote && (!multi || (at + 2 < chars.len() && chars[at + 1] == quote && chars[at
        + 2] == quote))
}

/// Where the string ends whose inside goes on at `at`, and whether it
/// is a well-formed one so far and to its end. A string ends behind its
/// closing quotes. One that is not closed ends at the end of the line,
/// or of the text if it may run over several lines, and is not well
/// formed; nor is one with a backslash in front of a character that
/// may not follow one.
pub open spec fn string_end(
    chars: Seq<char>,
    at: int,
    quote: char,
    multi: bool,
    escapes: bool,
    ok: bool,
) -> (int, bool)
    decreases chars.len() - at,
{
    if at < 0 || at >= chars.len() {
        (at, false)
    } else if !multi && (chars[at] == '\n' || chars[at] == '\r') {
        (at, false)
    } else if closes_at(chars, at, quote, multi) {
        (
            at + if multi {
                3int
            } else {
                1int
            },
            ok,
        )
    } else if escapes && chars[at] == '\\' {
        if at + 1 < chars.len() && (multi || !(chars[at + 1] == '\n' || chars[at + 1] == '\r')) {
            string_end(chars, at + 2, quote, multi, escapes, ok && escape_ok(chars[at + 1], multi))
        } else {
            (at + 1, false)
        }
    } else {
        string_end(chars, at + 1, quote, multi, escapes, ok)
    }
}

/// A string ends at or behind the place from which it is read, and
/// within the text.
pub proof fn lemma_string_end(
    chars: Seq<char>,
    at: int,
    quote: char,
    multi: bool,
    escapes: bool,
    ok: bool,
)
    requires
        0 <= at <= chars.len(),
    ensures
        at <= string_end(chars, at, quote, multi, escapes, ok).0 <= chars.len(),
    decreases chars.len() - at,
{
    if at >= chars.len() {
    } else if !multi && (chars[at] == '\n' || chars[at] == '\r') {
    } else if closes_at(chars, at, quote, multi) {
    } else if escapes && chars[at] == '\\' {
        if at + 1 < chars.len() && (multi || !(chars[at + 1] == '\n' || chars[at + 1] == '\r')) {
            lemma_string_end(
                chars,
                at + 2,
                quote,
                multi,
                escapes,
                ok && escape_ok(chars[at + 1], multi),
            );
        }
    } else {
        lemma_string_end(chars, at + 1, quote, multi, escapes, ok);
    }
}

/// Finds `string_end`.
pub fn scan_string(chars: &Vec<char>, at: usize, quote: char, multi: bool, escapes: bool) -> (r: (
    usize,
    bool,
))
    requires
        at <= chars.len(),
    ensures
        (r.0 as int, r.1) == string_end(chars@, at as int, quote, multi, escapes, true),
        at <= r.0 <= chars.len(),
{
    let n: usize = chars.len();
    let mut i: usize = at;
    let mut ok = true;
    proof {
        lemma_string_end(chars@, at as int, quote, multi, escapes, true);
    }
    loop
        invariant
            n == chars.len(),
            at <= i <= n,
            string_end(chars@, at as int, quote, multi, escapes, true) == string_end(
                chars@,
                i as int,
                quote,
                multi,
                escapes,
                ok,
            ),
        decreases n - i,
    {
        if i >= n {
            return (i, false);
        }
        let c = chars[i];
        if !multi && (c == '\n' || c == '\r') {
            return (i, false);
        }
        if c == quote && (!multi || (n - i > 2 && chars[i + 1] == quote && chars[i + 2]
            == quote)) {
            let end = if multi {
                i + 3
            } else {
                i + 1
            };
            return (end, ok);
        }
        if escapes && c == '\\' {
            if n - i > 1 && (multi || !(chars[i + 1] == '\n' || chars[i + 1] == '\r')) {
                let e = chars[i + 1];
                let fine = e == 'b' || e == 't' || e == 'n' || e == 'f' || e == 'r' || e == 'e'
                    || e == '"' || e == '\\' || e == 'u' || e == 'U' || e == 'x' || (multi && (e
                    == '\n' || e == '\r' || e == ' ' || e == '\t'));
                ok = ok && fine;
                i += 2;
            } else {
                return (i + 1, false);
            }
        } else {
            i += 1;
        }
    }
}

/// Whether all of `word` may stand in a bare key.
pub open spec fn all_word_chars(word: Seq<char>) -> bool {
    forall|i: int| 0 <= i < word.len() ==> is_word_char(#[trigger] word[i])
}

/// Decides `all_word_chars`.
fn check_all_word_chars(word: &Vec<char>) -> (r: bool)
    ensures
        r == all_word_chars(word@),
{
    let mut i: usize = 0;
    while i < word.len()
        invariant
            i <= word.len(),
            forall|j: int| 0 <= j < i ==> is_word_char(#[trigger] word@[j]),
        decreases word.len() - i,
    {
        if !check_word_char(word[i]) {
            return false;
        }
        i += 1;
    }
    true
}

/// Decides whether `c` is in `word`.
fn has_char(word: &Vec<char>, c: char) -> (r: bool)
    ensures
        r == word@.contains(c),
{
    let mut i: usize = 0;
    while i < word.len()
        invariant
            i <= word.len(),
            forall|j: int| 0 <= j < i ==> word@[j] != c,
        decreases word.len() - i,
    {
        if word[i] == c {
            return true;
        }
        i += 1;
    }
    false
}

/// What is wrong with a word that starts like a number and is neither
/// a number, a date, a time nor a key. The word is taken for what it
/// looks like most: with a colon for something with a time, which is a
/// date-time if it has a `T`, with an offset if it ends like one; with
/// a year and a hyphen in front for a date; for a number otherwise.
pub open spec fn number_error(word: Seq<char>) -> ErrorKind {
    let n = word.len() as int;
    if word.contains(':') {
        if word.contains('T') || word.contains('t') {
            if word[n - 1] == 'Z' || word[n - 1] == 'z' || (n >= 6 && (word[n - 6] == '+'
                || word[n - 6] == '-')) {
                ErrorKind::InvalidOffsetDateTime
            } else {
                ErrorKind::InvalidLocalDateTime
            }
        } else {
            ErrorKind::InvalidLocalTime
        }
    } else if n >= 5 && word[4] == '-' && plain_digits(word.subrange(0, 4)) {
        ErrorKind::InvalidLocalDate
    } else {
        ErrorKind::InvalidNumber
    }
}

/// Finds `number_error`.
fn find_number_error(word: &Vec<char>) -> (r: ErrorKind)
    requires
        word.len() > 0,
    ensures
        r == number_error(word@),
{
    let n: usize = word.len();
    if has_char(word, ':') {
        if has_char(word, 'T') || has_char(word, 't') {
            if word[n - 1] == 'Z' || word[n - 1] == 'z' || (n >= 6 && (word[n - 6] == '+'
                || word[n - 6] == '-')) {
                ErrorKind::InvalidOffsetDateTime
            } else {
                ErrorKind::InvalidLocalDateTime
            }
        } else {
            ErrorKind::InvalidLocalTime
        }
    } else if n >= 5 && word[4] == '-' && check_plain_digits(word, 0, 4) {
        ErrorKind::InvalidLocalDate
    } else {
        ErrorKind::InvalidNumber
    }
}

/// What a word is that starts with a digit or a sign: a date or a time
/// if it is written like one, an integer in the radix that it names or
/// in decimal, a floating-point number, a bare key if it is made of the
/// characters of one, and an invalid token otherwise.
pub open spec fn classify_number(word: Seq<char>) -> (SyntaxKind, Option<ErrorKind>) {
    if is_offset_date_time(word) {
        (SyntaxKind::OFFSET_DATE_TIME, None)
    } else if is_local_date_time(word) {
        (SyntaxKind::LOCAL_DATE_TIME, None)
    } else if is_local_date(word) {
        (SyntaxKind::LOCAL_DATE, None)
    } else if is_local_time(word) {
        (SyntaxKind::LOCAL_TIME, None)
    } else if is_prefixed_integer(word, 'x', 16) {
        (SyntaxKind::INTEGER_HEX, None)
    } else if is_prefixed_integer(word, 'o', 8) {
        (SyntaxKind::INTEGER_OCT, None)
    } else if is_prefixed_integer(word, 'b', 2) {
        (SyntaxKind::INTEGER_BIN, None)
    } else if is_decimal_integer(word) {
        (SyntaxKind::INTEGER_DEC, None)
    } else if is_float(word) {
        (SyntaxKind::FLOAT, None)
    } else if all_word_chars(word) {
        (SyntaxKind::BARE_KEY, None)
    } else {
        (SyntaxKind::INVALID_TOKEN, Some(number_error(word)))
    }
}

/// Finds `classify_number`.
fn find_number_kind(word: &Vec<char>) -> (r: (SyntaxKind, Option<ErrorKind>))
    requires
        word.len() > 0,
    ensures
        r == classify_number(word@),
{
    let n: usize = word.len();
    if check_offset_date_time(word) {
        (SyntaxKind::OFFSET_DATE_TIME, None)
    } else if check_date_time_until(word, n) {
        (SyntaxKind::LOCAL_DATE_TIME, None)
    } else if n == 10 && check_date_at(word, 0) {
        (SyntaxKind::LOCAL_DATE, None)
    } else if check_time_at(word, 0, n) {
        (SyntaxKind::LOCAL_TIME, None)
    } else if check_prefixed_integer(word, 'x', 16) {
        (SyntaxKind::INTEGER_HEX, None)
    } else if check_prefixed_integer(word, 'o', 8) {
        (SyntaxKind::INTEGER_OCT, None)
    } else if check_prefixed_integer(word, 'b', 2) {
        (SyntaxKind::INTEGER_BIN, None)
    } else if check_decimal_integer(word) {
        (SyntaxKind::INTEGER_DEC, None)
    } else if check_float(word) {
        (SyntaxKind::FLOAT, None)
    } else if check_all_word_chars(word) {
        (SyntaxKind::BARE_KEY, None)
    } else {
        (SyntaxKind::INVALID_TOKEN, Some(find_number_error(word)))
    }
}

/// What a word is that starts with a letter or an underscore: a
/// boolean, one of the floating-point numbers with a name, or a bare
/// key.
pub open spec fn classify_word(word: Seq<char>) -> SyntaxKind {
    if word == seq!['t', 'r', 'u', 'e'] || word == seq!['f', 'a', 'l', 's', 'e'] {
        SyntaxKind::BOOLEAN
    } else if word == seq!['i', 'n', 'f'] || word == seq!['n', 'a', 'n'] {
        SyntaxKind::FLOAT
    } else {
        SyntaxKind::BARE_KEY
    }
}

/// Decides whether `word` is made of the characters of `other`.
fn is_word(word: &Vec<char>, other: &str) -> (r: bool)
    ensures
        r == (word@ == other@),
{
    let other_chars = chars_of(other);
    if word.len() != other_chars.len() {
        return false;
    }
    let mut i: usize = 0;
    while i < word.len()
        invariant
            i <= word.len() == other_chars.len(),
            other_chars@ == other@,
            forall|j: int| 0 <= j < i ==> word@[j] == other_chars@[j],
        decreases word.len() - i,
    {
        if word[i] != other_chars[i] {
            assert(word@[i as int] != other@[i as int]);
            return false;
        }
        i += 1;
    }
    assert(word@ =~= other_chars@);
    true
}

/// Finds `classify_word`.
fn find_word_kind(word: &Vec<char>) -> (r: SyntaxKind)
    ensures
        r == classify_word(word@),
{
    proof {
        reveal_strlit("true");
        reveal_strlit("false");
        reveal_strlit("inf");
        reveal_strlit("nan");
        assert("true"@ =~= seq!['t', 'r', 'u', 'e']);
        assert("false"@ =~= seq!['f', 'a', 'l', 's', 'e']);
        assert("inf"@ =~= seq!['i', 'n', 'f']);
        assert("nan"@ =~= seq!['n', 'a', 'n']);
    }
    if is_word(word, "true") || is_word(word, "false") {
        SyntaxKind::BOOLEAN
    } else if is_word(word, "inf") || is_word(word, "nan") {
        SyntaxKind::FLOAT
    } else {
        SyntaxKind::BARE_KEY
    }
}

/// A lexeme: what it is, what is wrong with it if anything, and where
/// it ends.
pub ghost struct Lexeme {
    pub kind: SyntaxKind,
    pub error: Option<ErrorKind>,
    pub end: int,
}

/// The kind of a string that is well formed or not.
pub open spec fn string_lexeme(
    end: (int, bool),
    kind: SyntaxKind,
    error: ErrorKind,
) -> Lexeme {
    if end.1 {
        Lexeme { kind, error: None, end: end.0 }
    } else {
        Lexeme { kind: SyntaxKind::INVALID_TOKEN, error: Some(error), end: end.0 }
    }
}

/// Whether three quotes `quote` in a row stand at `at`.
pub open spec fn opens_multi(chars: Seq<char>, at: int, quote: char) -> bool {
    at + 2 < chars.len() && chars[at + 1] == quote && chars[at + 2] == quote
}

/// The lexeme that starts at `at`: the longest that can be read there.
/// Blanks, the end of a line, a comment up to the end of its line, a
/// mark of punctuation, a string, a word; and what is none of these is
/// an invalid token up to where a lexeme can start again.
#[verifier::opaque]
pub open spec fn lexeme_at(chars: Seq<char>, at: int) -> Lexeme {
    let c = chars[at];
    if c == ' ' || c == '\t' {
        Lexeme {
            kind: SyntaxKind::WHITESPACE,
            error: None,
            end: run_end(chars, at, CharClass::Blank),
        }
    } else if c == '\n' {
        Lexeme { kind: SyntaxKind::LINE_BREAK, error: None, end: at + 1 }
    } else if c == '\r' {
        if at + 1 < chars.len() && chars[at + 1] == '\n' {
            Lexeme { kind: SyntaxKind::LINE_BREAK, error: None, end: at + 2 }
        } else {
            Lexeme {
                kind: SyntaxKind::INVALID_TOKEN,
                error: Some(ErrorKind::InvalidLineBreak),
                end: at + 1,
            }
        }
    } else if c == '#' {
        Lexeme {
            kind: SyntaxKind::COMMENT,
            error: None,
            end: run_end(chars, at, CharClass::Comment),
        }
    } else if c == ',' {
        Lexeme { kind: SyntaxKind::COMMA, error: None, end: at + 1 }
    } else if c == '.' {
        Lexeme { kind: SyntaxKind::DOT, error: None, end: at + 1 }
    } else if c == '=' {
        Lexeme { kind: SyntaxKind::EQUAL, error: None, end: at + 1 }
    } else if c == '[' {
        Lexeme { kind: SyntaxKind::BRACKET_START, error: None, end: at + 1 }
    } else if c == ']' {
        Lexeme { kind: SyntaxKind::BRACKET_END, error: None, end: at + 1 }
    } else if c == '{' {
        Lexeme { kind: SyntaxKind::BRACE_START, error: None, end: at + 1 }
    } else if c == '}' {
        Lexeme { kind: SyntaxKind::BRACE_END, error: None, end: at + 1 }
    } else if c == '"' {
        if opens_multi(chars, at, '"') {
            string_lexeme(
                string_end(chars, at + 3, '"', true, true, true),
                SyntaxKind::MULTI_LINE_BASIC_STRING,
                ErrorKind::InvalidMultilineBasicString,
            )
        } else {
            string_lexeme(
                string_end(chars, at + 1, '"', false, true, true),
                SyntaxKind::BASIC_STRING,
                ErrorKind::InvalidBasicString,
            )
        }
    } else if c == '\'' {
        if opens_multi(chars, at, '\'') {
            string_lexeme(
                string_end(chars, at + 3, '\'', true, false, true),
                SyntaxKind::MULTI_LINE_LITERAL_STRING,
                ErrorKind::InvalidMultilineLiteralString,
            )
        } else {
            string_lexeme(
                string_end(chars, at + 1, '\'', false, false, true),
                SyntaxKind::LITERAL_STRING,
                ErrorKind::InvalidLiteralString,
            )
        }
    } else if ('0' <= c <= '9') || c == '+' || c == '-' {
        let end = run_end(chars, at, CharClass::Number);
        let found = classify_number(chars.subrange(at, end));
        Lexeme { kind: found.0, error: found.1, end }
    } else if is_word_char(c) {
        let end = run_end(chars, at, CharClass::Word);
        Lexeme { kind: classify_word(chars.subrange(at, end)), error: None, end }
    } else {
        Lexeme {
            kind: SyntaxKind::INVALID_TOKEN,
            error: Some(ErrorKind::InvalidToken),
            end: run_end(chars, at, CharClass::Unknown),
        }
    }
}

/// A lexeme is not empty and ends within the text.
pub proof fn lemma_lexeme_at(chars: Seq<char>, at: int)
    requires
        0 <= at < chars.len(),
    ensures
        at < lexeme_at(chars, at).end <= chars.len(),
{
    reveal(lexeme_at);
    let c = chars[at];
    lemma_run_end(chars, at, CharClass::Blank);
    lemma_run_end(chars, at, CharClass::Comment);
    lemma_run_end(chars, at, CharClass::Number);
    lemma_run_end(chars, at, CharClass::Word);
    lemma_run_end(chars, at, CharClass::Unknown);
    if c == '"' {
        if opens_multi(chars, at, '"') {
            lemma_string_end(chars, at + 3, '"', true, true, true);
        } else {
            lemma_string_end(chars, at + 1, '"', false, true, true);
        }
    }
    if c == '\'' {
        if opens_multi(chars, at, '\'') {
            lemma_string_end(chars, at + 3, '\'', true, false, true);
        } else {
            lemma_string_end(chars, at + 1, '\'', false, false, true);
        }
    }
}

/// Reads the lexeme that starts at `at`.
pub fn read_lexeme(chars: &Vec<char>, at: usize) -> (r: (SyntaxKind, Option<ErrorKind>, usize))
    requires
        at < chars.len(),
    ensures
        (Lexeme { kind: r.0, error: r.1, end: r.2 as int }) == lexeme_at(chars@, at as int),
        at < r.2 <= chars.len(),
{
    proof {
        reveal(lexeme_at);
        lemma_lexeme_at(chars@, at as int);
    }
    let n: usize = chars.len();
    let c = chars[at];
    if c == ' ' || c == '\t' {
        (SyntaxKind::WHITESPACE, None, scan_run(chars, at, CharClass::Blank))
    } else if c == '\n' {
        (SyntaxKind::LINE_BREAK, None, at + 1)
    } else if c == '\r' {
        if n - at > 1 && chars[at + 1] == '\n' {
            (SyntaxKind::LINE_BREAK, None, at + 2)
        } else {
            (SyntaxKind::INVALID_TOKEN, Some(ErrorKind::InvalidLineBreak), at + 1)
        }
    } else if c == '#' {
        (SyntaxKind::COMMENT, None, scan_run(chars, at, CharClass::Comment))
    } else if c == ',' {
        (SyntaxKind::COMMA, None, at + 1)
    } else if c == '.' {
        (SyntaxKind::DOT, None, at + 1)
    } else if c == '=' {
        (SyntaxKind::EQUAL, None, at + 1)
    } else if c == '[' {
        (SyntaxKind::BRACKET_START, None, at + 1)
    } else if c == ']' {
        (SyntaxKind::BRACKET_END, None, at + 1)
    } else if c == '{' {
        (SyntaxKind::BRACE_START, None, at + 1)
    } else if c == '}' {
        (SyntaxKind::BRACE_END, None, at + 1)
    } else if c == '"' || c == '\'' {
        let multi = n - at > 2 && chars[at + 1] == c && chars[at + 2] == c;
        let from = if multi {
            at + 3
        } else {
            at + 1
        };
        let (end, ok) = scan_string(chars, from, c, multi, c == '"');
        if ok {
            let kind = if c == '"' {
                if multi {
                    SyntaxKind::MULTI_LINE_BASIC_STRING
                } else {
                    SyntaxKind::BASIC_STRING
                }
            } else {
                if multi {
                    SyntaxKind::MULTI_LINE_LITERAL_STRING
                } else {
                    SyntaxKind::LITERAL_STRING
                }
            };
            (kind, None, end)
        } else {
            let error = if c == '"' {
                if multi {
                    ErrorKind::InvalidMultilineBasicString
                } else {
                    ErrorKind::InvalidBasicString
                }
            } else {
                if multi {
                    ErrorKind::InvalidMultilineLiteralString
                } else {
                    ErrorKind::InvalidLiteralString
                }
            };
            (SyntaxKind::INVALID_TOKEN, Some(error), end)
        }
    } else if ('0' <= c && c <= '9') || c == '+' || c == '-' {
        let end = scan_run(chars, at, CharClass::Number);
        let word = slice_of(chars, at, end);
        let (kind, error) = find_number_kind(&word);
        (kind, error, end)
    } else if check_word_char(c) {
        let end = scan_run(chars, at, CharClass::Word);
        let word = slice_of(chars, at, end);
        (find_word_kind(&word), None, end)
    } else {
        (
            SyntaxKind::INVALID_TOKEN,
            Some(ErrorKind::InvalidToken),
            scan_run(chars, at, CharClass::Unknown),
        )
    }
}

/// A piece of the text that is one lexeme, from `start` up to `end`.
pub ghost struct Piece {
    pub kind: SyntaxKind,
    pub error: Option<ErrorKind>,
    pub start: int,
    pub end: int,
}

/// The lexemes of the text from `at` on: the one that starts there, and
/// those of what follows it.
pub open spec fn pieces(chars: Seq<char>, at: int) -> Seq<Piece>
    decreases chars.len() - at,
{
    if at < 0 || at >= chars.len() {
        Seq::empty()
    } else {
        let lexeme = lexeme_at(chars, at);
        if lexeme.end <= at || lexeme.end > chars.len() {
            Seq::empty()
        } else {
            seq![Piece { kind: lexeme.kind, error: lexeme.error, start: at, end: lexeme.end }]
                + pieces(chars, lexeme.end)
        }
    }
}

/// The offset in bytes of the character at `at`.
pub open spec fn offset_of(chars: Seq<char>, at: int) -> Offset {
    Offset { raw: utf8_len(chars.take(at)) as u32 }
}

/// The line and the column of the character at `at`.
pub open spec fn position_of(chars: Seq<char>, at: int) -> Position {
    Position {
        line: line_breaks(chars.take(at)) as u32,
        column: tail_columns(chars.take(at)) as u32,
    }
}

/// The bytes that the characters from `start` up to `end` cover.
pub open spec fn span_of(chars: Seq<char>, start: int, end: int) -> Span {
    Span { start: offset_of(chars, start), end: offset_of(chars, end) }
}

/// The lines and columns that the characters from `start` up to `end`
/// cover.
pub open spec fn range_of(chars: Seq<char>, start: int, end: int) -> Range {
    Range { start: position_of(chars, start), end: position_of(chars, end) }
}

/// The token of a piece.
pub open spec fn token_of(chars: Seq<char>, piece: Piece) -> Token {
    Token {
        kind: piece.kind,
        span: span_of(chars, piece.start, piece.end),
        range: range_of(chars, piece.start, piece.end),
    }
}

/// The tokens of `pieces`, one by one.
pub open spec fn tokens_of(chars: Seq<char>, pieces: Seq<Piece>) -> Seq<Token> {
    Seq::new(pieces.len(), |i: int| token_of(chars, pieces[i]))
}

/// What is wrong with `pieces`: an error for each piece with which
/// something is, in their order.
pub open spec fn errors_of(chars: Seq<char>, pieces: Seq<Piece>) -> Seq<Error>
    decreases pieces.len(),
{
    if pieces.len() == 0 {
        Seq::empty()
    } else {
        let last = pieces.last();
        match last.error {
            Some(kind) => errors_of(chars, pieces.drop_last()).push(
                Error {
                    kind,
                    span: span_of(chars, last.start, last.end),
                    range: range_of(chars, last.start, last.end),
                },
            ),
            None => errors_of(chars, pieces.drop_last()),
        }
    }
}

/// The tokens of a text: those of its lexemes, and the mark of its end.
pub open spec fn lexed_tokens(chars: Seq<char>) -> Seq<Token> {
    tokens_of(chars, pieces(chars, 0)).push(Token::eof_spec())
}

/// What is wrong with the lexemes of a text.
pub open spec fn lexed_errors(chars: Seq<char>) -> Seq<Error> {
    errors_of(chars, pieces(chars, 0))
}

/// The pieces from a place within the text on: the lexeme that starts
/// there, which is not empty, and the pieces behind it.
pub proof fn lemma_pieces_unfold(chars: Seq<char>, at: int)
    requires
        0 <= at < chars.len(),
    ensures
        at < lexeme_at(chars, at).end <= chars.len(),
        pieces(chars, at) == seq![
            Piece {
                kind: lexeme_at(chars, at).kind,
                error: lexeme_at(chars, at).error,
                start: at,
                end: lexeme_at(chars, at).end,
            },
        ] + pieces(chars, lexeme_at(chars, at).end),
{
    lemma_lexeme_at(chars, at);
}

/// Whether `pieces` lie one behind the other from `at` to `end`, none
/// of them empty.
pub open spec fn tiles(pieces: Seq<Piece>, at: int, end: int) -> bool
    decreases pieces.len(),
{
    if pieces.len() == 0 {
        at == end
    } else {
        pieces[0].start == at && at < pieces[0].end <= end && tiles(
            pieces.drop_first(),
            pieces[0].end,
            end,
        )
    }
}

/// The pieces lie one behind the other from `at` to the end of the
/// text, and none is empty.
pub proof fn lemma_pieces_tile(chars: Seq<char>, at: int)
    requires
        0 <= at <= chars.len(),
    ensures
        tiles(pieces(chars, at), at, chars.len() as int),
    decreases chars.len() - at,
{
    if at < chars.len() {
        lemma_pieces_unfold(chars, at);
        let end = lexeme_at(chars, at).end;
        lemma_pieces_tile(chars, end);
        assert(pieces(chars, at).drop_first() =~= pieces(chars, end));
    }
}

/// The first characters of a text have no more bytes than all of it.
pub proof fn lemma_prefix_within(chars: Seq<char>, at: int)
    requires
        0 <= at <= chars.len(),
    ensures
        utf8_len(chars.take(at)) <= utf8_len(chars),
{
    assert(chars =~= chars.take(at) + chars.skip(at));
    lemma_utf8_len_concat(chars.take(at), chars.skip(at));
}

/// Number of bytes of `c` in UTF-8.
pub fn char_width(c: char) -> (r: u32)
    ensures
        r == utf8_len(seq![c]),
        1 <= r <= 4,
{
    proof {
        vstd::utf8::char_is_scalar(c);
        assert(seq![c].drop_first() =~= Seq::<char>::empty());
        assert(encode_utf8(Seq::<char>::empty()) =~= Seq::<u8>::empty());
        assert(encode_utf8(seq![c]) =~= encode_scalar(c as u32));
    }
    let code: u32 = c as u32;
    if code <= 0x7F {
        1
    } else if code <= 0x7FF {
        2
    } else if code <= 0xFFFF {
        3
    } else {
        4
    }
}

/// The offset and the place of the character at `to`, given those of
/// the character at `from`.
fn measure(chars: &Vec<char>, from: usize, to: usize, offset: u32, position: Position) -> (r: (
    u32,
    Position,
))
    requires
        from <= to <= chars.len(),
        utf8_len(chars@) <= u32::MAX,
        offset == utf8_len(chars@.take(from as int)),
        position.line == line_breaks(chars@.take(from as int)),
        position.column == tail_columns(chars@.take(from as int)),
    ensures
        r.0 == utf8_len(chars@.take(to as int)),
        r.1.line == line_breaks(chars@.take(to as int)),
        r.1.column == tail_columns(chars@.take(to as int)),
        (Offset { raw: r.0 }) == offset_of(chars@, to as int),
        r.1 == position_of(chars@, to as int),
{
    let mut offset = offset;
    let mut line = position.line;
    let mut column = position.column;
    let mut i: usize = from;
    while i < to
        invariant
            from <= i <= to <= chars.len(),
            utf8_len(chars@) <= u32::MAX,
            offset == utf8_len(chars@.take(i as int)),
            line == line_breaks(chars@.take(i as int)),
            column == tail_columns(chars@.take(i as int)),
        decreases to - i,
    {
        let c = chars[i];
        proof {
            let next = chars@.take(i + 1);
            assert(next =~= chars@.take(i as int) + seq![c]);
            assert(next.drop_last() =~= chars@.take(i as int));
            lemma_utf8_len_concat(chars@.take(i as int), seq![c]);
            lemma_prefix_within(chars@, i + 1);
            lemma_chars_within_bytes(next);
            lemma_extent_bounded(next);
        }
        offset = offset + char_width(c);
        if c == '\n' {
            line = line + 1;
            column = 0;
        } else {
            column = column + 1;
        }
        i += 1;
    }
    (offset, Position::new(line, column))
}

/// What a text was read as: its tokens, the last of which marks its
/// end, and what is wrong with some of them.
#[derive(Debug)]
pub struct Lexed {
    pub tokens: Vec<Token>,
    pub errors: Vec<Error>,
}

/// Reads a text as tokens. Every character of the text belongs to
/// exactly one token. A lexeme that is not well formed becomes an
/// invalid token, with an error that says what is wrong with it, and
/// the reading goes on behind it.
pub fn lex(text: &str) -> (r: Lexed)
    requires
        utf8_len(text@) <= u32::MAX,
    ensures
        r.tokens@ == lexed_tokens(text@),
        r.errors@ == lexed_errors(text@),
{
    let chars = chars_of(text);
    lex_chars(&chars)
}

/// A lexeme as it was read: what it is, what is wrong with it if
/// anything, and which characters of the text it covers.
#[derive(Clone, Copy, Debug, PartialEq, Eq, Structural)]
pub struct RawToken {
    pub kind: SyntaxKind,
    pub error: Option<ErrorKind>,
    pub start: usize,
    pub end: usize,
}

impl View for RawToken {
    type V = Piece;

    open spec fn view(&self) -> Piece {
        Piece { kind: self.kind, error: self.error, start: self.start as int, end: self.end as int }
    }
}

/// The pieces of a list of lexemes, one by one.
pub open spec fn piece_models(raw: Seq<RawToken>) -> Seq<Piece> {
    Seq::new(raw.len(), |i: int| raw[i]@)
}

/// What it means for pieces to lie one behind the other, piece by
/// piece.
pub proof fn lemma_tiles_index(pieces: Seq<Piece>, at: int, end: int)
    requires
        tiles(pieces, at, end),
    ensures
        pieces.len() == 0 ==> at == end,
        pieces.len() > 0 ==> pieces[0].start == at && pieces.last().end == end,
        forall|i: int|
            0 <= i < pieces.len() ==> at <= (#[trigger] pieces[i]).start < pieces[i].end <= end,
        forall|i: int, j: int|
            0 <= i && j == i + 1 && j < pieces.len() ==> (#[trigger] pieces[i]).end == (
            #[trigger] pieces[j]).start,
    decreases pieces.len(),
{
    if pieces.len() > 0 {
        let rest = pieces.drop_first();
        lemma_tiles_index(rest, pieces[0].end, end);
        assert forall|i: int| 0 <= i < pieces.len() implies at <= (#[trigger] pieces[i]).start
            < pieces[i].end <= end by {
            if i > 0 {
                assert(pieces[i] == rest[i - 1]);
            }
        }
        assert forall|i: int, j: int| 0 <= i && j == i + 1 && j < pieces.len() implies (
        #[trigger] pieces[i]).end == (#[trigger] pieces[j]).start by {
            assert(pieces[j] == rest[j - 1]);
            if i > 0 {
                assert(pieces[i] == rest[i - 1]);
            }
        }
        if rest.len() > 0 {
            assert(pieces.last() == rest.last());
        }
    }
}

/// Reads the characters of a text as lexemes.
pub fn read_pieces(chars: &Vec<char>) -> (r: Vec<RawToken>)
    ensures
        piece_models(r@) == pieces(chars@, 0),
{
    let n: usize = chars.len();
    let mut out: Vec<RawToken> = Vec::new();
    let mut at: usize = 0;
    proof {
        assert(piece_models(out@) + pieces(chars@, 0) =~= pieces(chars@, 0));
    }
    while at < n
        invariant
            n == chars.len(),
            at <= n,
            pieces(chars@, 0) == piece_models(out@) + pieces(chars@, at as int),
        decreases n - at,
    {
        let (kind, error, end) = read_lexeme(chars, at);
        let raw = RawToken { kind, error, start: at, end };
        let ghost before = out@;
        out.push(raw);
        proof {
            lemma_pieces_unfold(chars@, at as int);
            assert(piece_models(out@) =~= piece_models(before).push(raw@));
            assert(piece_models(before) + (seq![raw@] + pieces(chars@, end as int))
                =~= piece_models(before).push(raw@) + pieces(chars@, end as int));
        }
        at = end;
    }
    proof {
        assert(piece_models(out@) + pieces(chars@, n as int) =~= piece_models(out@));
    }
    out
}

/// Reads the characters of a text as tokens.
pub fn lex_chars(chars: &Vec<char>) -> (r: Lexed)
    requires
        utf8_len(chars@) <= u32::MAX,
    ensures
        r.tokens@ == lexed_tokens(chars@),
        r.errors@ == lexed_errors(chars@),
{
    let raw = read_pieces(chars);
    let mut tokens = place_tokens(chars, &raw);
    let errors = collect_errors(chars, &raw, &tokens);
    tokens.push(Token::eof());
    Lexed { tokens, errors }
}

/// Gives each lexeme its place in the text.
pub fn place_tokens(chars: &Vec<char>, raw: &Vec<RawToken>) -> (r: Vec<Token>)
    requires
        utf8_len(chars@) <= u32::MAX,
        piece_models(raw@) == pieces(chars@, 0),
    ensures
        r@ == tokens_of(chars@, piece_models(raw@)),
{
    let ghost ps = piece_models(raw@);
    proof {
        lemma_pieces_tile(chars@, 0);
        lemma_tiles_index(ps, 0, chars.len() as int);
        assert(chars@.take(0) =~= Seq::<char>::empty());
        assert(encode_utf8(Seq::<char>::empty()) =~= Seq::<u8>::empty());
    }
    let mut tokens: Vec<Token> = Vec::new();
    let mut i: usize = 0;
    let mut at: usize = 0;
    let mut offset: u32 = 0;
    let mut position = Position::new(0, 0);
    while i < raw.len()
        invariant
            i <= raw.len(),
            ps == piece_models(raw@),
            utf8_len(chars@) <= u32::MAX,
            forall|j: int|
                0 <= j < ps.len() ==> 0 <= (#[trigger] ps[j]).start < ps[j].end <= chars.len(),
            forall|j: int, k: int|
                0 <= j && k == j + 1 && k < ps.len() ==> (#[trigger] ps[j]).end == (
                #[trigger] ps[k]).start,
            ps.len() > 0 ==> ps[0].start == 0,
            at <= chars.len(),
            i < raw.len() ==> at == ps[i as int].start,
            offset == utf8_len(chars@.take(at as int)),
            position.line == line_breaks(chars@.take(at as int)),
            position.column == tail_columns(chars@.take(at as int)),
            (Offset { raw: offset }) == offset_of(chars@, at as int),
            position == position_of(chars@, at as int),
            tokens@ == tokens_of(chars@, ps.take(i as int)),
        decreases raw.len() - i,
    {
        let piece = raw[i];
        assert(ps[i as int] == piece@);
        let (end_offset, end_position) = measure(chars, at, piece.end, offset, position);
        let span = Span { start: Offset::new(offset), end: Offset::new(end_offset) };
        let range = Range { start: position, end: end_position };
        tokens.push(Token { kind: piece.kind, span, range });
        proof {
            assert(ps.take(i + 1) =~= ps.take(i as int).push(ps[i as int]));
            assert(tokens_of(chars@, ps.take(i + 1)) =~= tokens_of(chars@, ps.take(i as int)).push(
                token_of(chars@, ps[i as int]),
            ));
        }
        proof {
            if i + 1 < raw.len() {
                assert(ps[i as int].end == ps[i + 1].start);
            }
        }
        at = piece.end;
        offset = end_offset;
        position = end_position;
        i += 1;
    }
    assert(ps.take(i as int) =~= ps);
    tokens
}

/// Collects what is wrong with the lexemes.
fn collect_errors(chars: &Vec<char>, raw: &Vec<RawToken>, tokens: &Vec<Token>) -> (r: Vec<Error>)
    requires
        tokens@ == tokens_of(chars@, piece_models(raw@)),
    ensures
        r@ == errors_of(chars@, piece_models(raw@)),
{
    let ghost ps = piece_models(raw@);
    let mut errors: Vec<Error> = Vec::new();
    let mut i: usize = 0;
    assert(ps.take(0) =~= Seq::<Piece>::empty());
    while i < raw.len()
        invariant
            i <= raw.len(),
            ps == piece_models(raw@),
            tokens@ == tokens_of(chars@, ps),
            errors@ == errors_of(chars@, ps.take(i as int)),
        decreases raw.len() - i,
    {
        proof {
            assert(ps.take(i + 1).drop_last() =~= ps.take(i as int));
            assert(ps.take(i + 1).last() == raw@[i as int]@);
            assert(tokens@[i as int] == token_of(chars@, ps[i as int]));
        }
        match raw[i].error {
            Some(kind) => {
                errors.push(Error { kind, span: tokens[i].span, range: tokens[i].range });
            },
            None => {},
        }
        i += 1;
    }
    assert(ps.take(i as int) =~= ps);
    errors
}

/// The tokens of a text, the last of which marks its end.
pub fn tokenize(text: &str) -> (r: Vec<Token>)
    requires
        utf8_len(text@) <= u32::MAX,
    ensures
        r@ == lexed_tokens(text@),
{
    lex(text).tokens
}

/// No lexeme is the mark of the end of the text, and a lexeme is an
/// invalid token exactly if something is wrong with it.
pub proof fn lemma_lexeme_kind(chars: Seq<char>, at: int)
    requires
        0 <= at < chars.len(),
    ensures
        lexeme_at(chars, at).kind != SyntaxKind::EOF,
        (lexeme_at(chars, at).kind == SyntaxKind::INVALID_TOKEN) == (lexeme_at(chars, at).error
            is Some),
{
    reveal(lexeme_at);
}

/// None of the pieces of a text is the mark of its end, and a piece is
/// an invalid token exactly if something is wrong with it.
pub proof fn lemma_piece_kinds(chars: Seq<char>, at: int)
    requires
        0 <= at <= chars.len(),
    ensures
        forall|i: int|
            0 <= i < pieces(chars, at).len() ==> (#[trigger] pieces(chars, at)[i]).kind
                != SyntaxKind::EOF && (pieces(chars, at)[i].kind == SyntaxKind::INVALID_TOKEN)
                == (pieces(chars, at)[i].error is Some),
    decreases chars.len() - at,
{
    if at < chars.len() {
        lemma_pieces_unfold(chars, at);
        lemma_lexeme_kind(chars, at);
        let end = lexeme_at(chars, at).end;
        lemma_piece_kinds(chars, end);
        let all = pieces(chars, at);
        let rest = pieces(chars, end);
        assert forall|i: int| 0 <= i < all.len() implies (#[trigger] all[i]).kind
            != SyntaxKind::EOF && (all[i].kind == SyntaxKind::INVALID_TOKEN) == (all[i].error
            is Some) by {
            if i > 0 {
                assert(all[i] == rest[i - 1]);
            }
        }
    }
}

/// Pieces of which none is an invalid token have nothing wrong with
/// them.
pub proof fn lemma_no_errors(chars: Seq<char>, pieces: Seq<Piece>)
    requires
        forall|i: int|
            0 <= i < pieces.len() ==> ((#[trigger] pieces[i]).kind == SyntaxKind::INVALID_TOKEN)
                == (pieces[i].error is Some),
    ensures
        (forall|i: int|
            0 <= i < pieces.len() ==> (#[trigger] pieces[i]).kind != SyntaxKind::INVALID_TOKEN)
            ==> errors_of(chars, pieces).len() == 0,
    decreases pieces.len(),
{
    if pieces.len() > 0 {
        let rest = pieces.drop_last();
        assert forall|i: int| 0 <= i < rest.len() implies ((#[trigger] rest[i]).kind
            == SyntaxKind::INVALID_TOKEN) == (rest[i].error is Some) by {
            assert(rest[i] == pieces[i]);
        }
        lemma_no_errors(chars, rest);
        if forall|i: int|
            0 <= i < pieces.len() ==> (#[trigger] pieces[i]).kind != SyntaxKind::INVALID_TOKEN {
            assert forall|i: int| 0 <= i < rest.len() implies (#[trigger] rest[i]).kind
                != SyntaxKind::INVALID_TOKEN by {
                assert(rest[i] == pieces[i]);
            }
            assert(pieces[pieces.len() - 1].kind != SyntaxKind::INVALID_TOKEN);
        }
    }
}

/// Every token of a text lies strictly in front of the mark of its
/// end, by its span and by its range, and none of them is such a mark.
pub proof fn lemma_tokens_precede_eof(chars: Seq<char>, i: int)
    requires
        utf8_len(chars) <= u32::MAX,
        0 <= i < pieces(chars, 0).len(),
    ensures
        lexed_tokens(chars)[i] == token_of(chars, pieces(chars, 0)[i]),
        lexed_tokens(chars)[i].kind != SyntaxKind::EOF,
        lexed_tokens(chars)[i].span.precedes(Token::eof_spec().span),
        lexed_tokens(chars)[i].range.precedes(Token::eof_spec().range),
        lexed_tokens(chars).last() == Token::eof_spec(),
{
    let ps = pieces(chars, 0);
    let piece = ps[i];
    lemma_pieces_tile(chars, 0);
    lemma_tiles_index(ps, 0, chars.len() as int);
    lemma_piece_kinds(chars, 0);
    let before = chars.take(piece.start);
    let inside = chars.subrange(piece.start, piece.end);
    assert(chars.take(piece.end) =~= before + inside);
    lemma_utf8_len_concat(before, inside);
    lemma_chars_within_bytes(inside);
    lemma_prefix_within(chars, piece.end);
    lemma_extent_sum(before);
    lemma_chars_within_bytes(chars);
}

} // verus!
