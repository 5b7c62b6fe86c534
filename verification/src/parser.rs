//! Reading tokens as a document: the tree that the tokens make, and what
//! is found wrong with them.

use crate::ast::Root;
use crate::parsed::Parsed;
use crate::builder::{
    finished, leaves_text, lemma_leaves_text, lemma_with_child_leaves, lemma_with_finished_leaves,
    lemma_with_started_leaves, stack_leaves, with_child, with_finished, with_started,
    FrameModel, Leaf, TreeBuilder,
};
use crate::green::{lemma_utf8_len_concat, utf8_len, GreenModel};
use crate::lexer::{
    lemma_piece_kinds, lemma_pieces_tile, lemma_prefix_within, lemma_tiles_index, piece_models,
    pieces, place_tokens, read_pieces, token_of, tokens_of, Piece, RawToken, Token,
};
use crate::strings::{chars_of, push_char};
use crate::syntax::SyntaxKind;
use crate::text::{Offset, Position, Range, Span};
use crate::token_set::TokenSet;
use vstd::prelude::*;

verus! {

/// What is wrong at a place of a document.
#[derive(Clone, Copy, Debug, PartialEq, Eq, Structural)]
pub enum ErrorKind {
    /// A token that cannot stand where it stands.
    UnexpectedToken,
    /// A key was expected.
    ExpectedKey,
    /// A value was expected.
    ExpectedValue,
    /// An equal sign was expected.
    ExpectedEqual,
    /// A closing bracket was expected.
    ExpectedBracketEnd,
    /// A closing double bracket was expected.
    ExpectedDoubleBracketEnd,
    /// A closing brace was expected.
    ExpectedBraceEnd,
    /// The end of the line was expected.
    ExpectedLineBreak,
    /// A token that the lexer could not read.
    InvalidToken,
}

/// A finding of the parser: what is wrong and where.
#[derive(Clone, Copy, Debug, PartialEq, Eq, Structural)]
pub struct Error {
    pub kind: ErrorKind,
    pub span: Span,
    pub range: Range,
}

impl Error {
    #[inline]
    #[must_use]
    pub fn new(kind: ErrorKind, place: (Span, Range)) -> (r: Self)
        ensures
            r.kind == kind,
            r.span == place.0,
            r.range == place.1,
    {
        Self { kind, span: place.0, range: place.1 }
    }

    #[inline]
    #[must_use]
    pub fn kind(&self) -> (r: ErrorKind)
        ensures
            r == self.kind,
    {
        self.kind
    }

    #[inline]
    #[must_use]
    pub fn span(&self) -> (r: Span)
        ensures
            r == self.span,
    {
        self.span
    }

    #[inline]
    #[must_use]
    pub fn range(&self) -> (r: Range)
        ensures
            r == self.range,
    {
        self.range
    }
}

/// The leaf that a piece of the text makes.
pub open spec fn leaf_of(chars: Seq<char>, piece: Piece) -> Leaf {
    Leaf { kind: piece.kind.ordinal() as int, text: chars.subrange(piece.start, piece.end) }
}

/// The token of the tree that a piece of the text makes.
pub open spec fn green_token_of(chars: Seq<char>, piece: Piece) -> GreenModel {
    GreenModel::Token {
        kind: piece.kind.ordinal() as int,
        text: chars.subrange(piece.start, piece.end),
    }
}

/// The leaves that the first `count` of `pieces` make.
pub open spec fn consumed(chars: Seq<char>, pieces: Seq<Piece>, count: int) -> Seq<Leaf> {
    Seq::new(count as nat, |i: int| leaf_of(chars, pieces[i]))
}

/// The leaves that the lexemes of a text make.
pub open spec fn text_leaves(chars: Seq<char>) -> Seq<Leaf> {
    consumed(chars, pieces(chars, 0), pieces(chars, 0).len() as int)
}

/// Where the first `count` of `pieces` end.
pub open spec fn cursor(pieces: Seq<Piece>, count: int) -> int {
    if count <= 0 {
        0
    } else {
        pieces[count - 1].end
    }
}

/// The leaves of the first pieces of a text make up its beginning.
pub proof fn lemma_consumed_text(chars: Seq<char>, count: int)
    requires
        0 <= count <= pieces(chars, 0).len(),
    ensures
        0 <= cursor(pieces(chars, 0), count) <= chars.len(),
        leaves_text(consumed(chars, pieces(chars, 0), count)) == chars.take(
            cursor(pieces(chars, 0), count),
        ),
        count == pieces(chars, 0).len() ==> cursor(pieces(chars, 0), count) == chars.len(),
    decreases count,
{
    let ps = pieces(chars, 0);
    lemma_pieces_tile(chars, 0);
    lemma_tiles_index(ps, 0, chars.len() as int);
    if count == 0 {
        assert(consumed(chars, ps, 0) =~= Seq::<Leaf>::empty());
        assert(chars.take(0) =~= Seq::<char>::empty());
    } else {
        lemma_consumed_text(chars, count - 1);
        let all = consumed(chars, ps, count);
        assert(all.drop_last() =~= consumed(chars, ps, count - 1));
        assert(all.last() == leaf_of(chars, ps[count - 1]));
        if count >= 2 {
            assert(ps[count - 2].end == ps[count - 1].start);
        }
        assert(chars.take(ps[count - 1].start) + chars.subrange(
            ps[count - 1].start,
            ps[count - 1].end,
        ) =~= chars.take(ps[count - 1].end));
    }
}

/// A piece of a text has no more bytes than all of it.
pub proof fn lemma_subrange_within(chars: Seq<char>, start: int, end: int)
    requires
        0 <= start <= end <= chars.len(),
    ensures
        utf8_len(chars.subrange(start, end)) <= utf8_len(chars),
{
    assert(chars.take(end) =~= chars.take(start) + chars.subrange(start, end));
    lemma_utf8_len_concat(chars.take(start), chars.subrange(start, end));
    lemma_prefix_within(chars, end);
}

/// The characters of `chars` from `start` up to `end`, as a string.
fn text_of(chars: &Vec<char>, start: usize, end: usize) -> (r: String)
    requires
        start <= end <= chars.len(),
    ensures
        r@ == chars@.subrange(start as int, end as int),
{
    let mut out = String::new();
    let mut i: usize = start;
    assert(chars@.subrange(start as int, start as int) =~= Seq::<char>::empty());
    while i < end
        invariant
            start <= i <= end <= chars.len(),
            out@ == chars@.subrange(start as int, i as int),
        decreases end - i,
    {
        push_char(&mut out, chars[i]);
        assert(chars@.subrange(start as int, i + 1) =~= chars@.subrange(start as int, i as int).push(
            chars@[i as int],
        ));
        i += 1;
    }
    out
}

/// Whether a key can be of kind `kind`: a bare key, a string in one
/// line, or a word that reads as a number, a boolean or a date.
pub open spec fn is_key_kind(kind: SyntaxKind) -> bool {
    kind == SyntaxKind::BARE_KEY || kind == SyntaxKind::BASIC_STRING || kind
        == SyntaxKind::LITERAL_STRING || kind == SyntaxKind::INTEGER_DEC || kind
        == SyntaxKind::FLOAT || kind == SyntaxKind::BOOLEAN || kind == SyntaxKind::LOCAL_DATE
}

/// Whether a value that is one token can be of kind `kind`.
pub open spec fn is_scalar_kind(kind: SyntaxKind) -> bool {
    kind == SyntaxKind::BASIC_STRING || kind == SyntaxKind::MULTI_LINE_BASIC_STRING || kind
        == SyntaxKind::LITERAL_STRING || kind == SyntaxKind::MULTI_LINE_LITERAL_STRING || kind
        == SyntaxKind::INTEGER_DEC || kind == SyntaxKind::INTEGER_HEX || kind
        == SyntaxKind::INTEGER_OCT || kind == SyntaxKind::INTEGER_BIN || kind
        == SyntaxKind::FLOAT || kind == SyntaxKind::BOOLEAN || kind
        == SyntaxKind::OFFSET_DATE_TIME || kind == SyntaxKind::LOCAL_DATE_TIME || kind
        == SyntaxKind::LOCAL_DATE || kind == SyntaxKind::LOCAL_TIME
}

/// Whether a line ends in front of a lexeme of kind `kind`.
pub open spec fn ends_line(kind: SyntaxKind) -> bool {
    kind == SyntaxKind::LINE_BREAK || kind == SyntaxKind::EOF
}

/// Whether a value ends in front of a lexeme of kind `kind`, well
/// formed or not.
pub open spec fn ends_value(kind: SyntaxKind) -> bool {
    kind == SyntaxKind::LINE_BREAK || kind == SyntaxKind::COMMENT || kind == SyntaxKind::COMMA
        || kind == SyntaxKind::BRACKET_END || kind == SyntaxKind::BRACE_END
}

/// Decides `is_key_kind`.
pub fn check_key_kind(kind: SyntaxKind) -> (r: bool)
    ensures
        r == is_key_kind(kind),
{
    matches!(
        kind,
        SyntaxKind::BARE_KEY
            | SyntaxKind::BASIC_STRING
            | SyntaxKind::LITERAL_STRING
            | SyntaxKind::INTEGER_DEC
            | SyntaxKind::FLOAT
            | SyntaxKind::BOOLEAN
            | SyntaxKind::LOCAL_DATE
    )
}

/// Decides `is_scalar_kind`.
pub fn check_scalar_kind(kind: SyntaxKind) -> (r: bool)
    ensures
        r == is_scalar_kind(kind),
{
    matches!(
        kind,
        SyntaxKind::BASIC_STRING
            | SyntaxKind::MULTI_LINE_BASIC_STRING
            | SyntaxKind::LITERAL_STRING
            | SyntaxKind::MULTI_LINE_LITERAL_STRING
            | SyntaxKind::INTEGER_DEC
            | SyntaxKind::INTEGER_HEX
            | SyntaxKind::INTEGER_OCT
            | SyntaxKind::INTEGER_BIN
            | SyntaxKind::FLOAT
            | SyntaxKind::BOOLEAN
            | SyntaxKind::OFFSET_DATE_TIME
            | SyntaxKind::LOCAL_DATE_TIME
            | SyntaxKind::LOCAL_DATE
            | SyntaxKind::LOCAL_TIME
    )
}

/// Whether none of the first `count` of `pieces` is an invalid token.
pub open spec fn all_valid(pieces: Seq<Piece>, count: int) -> bool {
    forall|i: int| 0 <= i < count ==> (#[trigger] pieces[i]).kind != SyntaxKind::INVALID_TOKEN
}

/// What is parsed: the text and its lexemes.
pub ghost struct Input {
    pub chars: Seq<char>,
    pub pieces: Seq<Piece>,
}

/// How far the parse has come: how many lexemes have been taken into
/// the tree, the nodes that have been started and not finished, and
/// what has been found wrong.
pub ghost struct State {
    pub pos: int,
    pub frames: Seq<FrameModel>,
    pub errors: Seq<Error>,
}

impl Input {
    /// The input that a text makes.
    pub open spec fn of(chars: Seq<char>) -> Input {
        Input { chars, pieces: pieces(chars, 0) }
    }

    /// The kind of the lexeme at `index`, and `EOF` behind the last.
    pub open spec fn kind_at(self, index: int) -> SyntaxKind {
        if 0 <= index < self.pieces.len() {
            self.pieces[index].kind
        } else {
            SyntaxKind::EOF
        }
    }

    /// The place of the lexemes from `from` up to `to`; if there are
    /// none, the empty place in front of the lexeme at `from`, or at
    /// the end of the text.
    pub open spec fn place(self, from: int, to: int) -> (Span, Range) {
        let n = self.pieces.len() as int;
        if 0 <= from < to <= n {
            let first = token_of(self.chars, self.pieces[from]);
            let last = token_of(self.chars, self.pieces[to - 1]);
            (
                Span::new_spec(first.span.start, last.span.end),
                Range::new_spec(first.range.start, last.range.end),
            )
        } else if 0 <= from < n {
            let first = token_of(self.chars, self.pieces[from]);
            (
                Span { start: first.span.start, end: first.span.start },
                Range { start: first.range.start, end: first.range.start },
            )
        } else if 0 < from <= n {
            let last = token_of(self.chars, self.pieces[from - 1]);
            (
                Span { start: last.span.end, end: last.span.end },
                Range { start: last.range.end, end: last.range.end },
            )
        } else {
            (
                Span { start: Offset { raw: 0 }, end: Offset { raw: 0 } },
                Range {
                    start: Position { line: 0, column: 0 },
                    end: Position { line: 0, column: 0 },
                },
            )
        }
    }

    /// The state in which nothing has been read: the root has been
    /// started.
    pub open spec fn start(self) -> State {
        State {
            pos: 0,
            frames: seq![FrameModel { kind: SyntaxKind::ROOT, children: Seq::empty() }],
            errors: Seq::empty(),
        }
    }

    /// The state after the next lexeme was taken into the tree.
    pub open spec fn bumped(self, state: State) -> State {
        State {
            pos: state.pos + 1,
            frames: with_child(state.frames, green_token_of(self.chars, self.pieces[state.pos])),
            errors: state.errors,
        }
    }

    /// The state after the finding that something of kind `kind` is
    /// wrong with the lexemes from `from` up to `to`.
    pub open spec fn with_error(self, state: State, kind: ErrorKind, from: int, to: int) -> State {
        State {
            pos: state.pos,
            frames: state.frames,
            errors: state.errors.push(
                Error { kind, span: self.place(from, to).0, range: self.place(from, to).1 },
            ),
        }
    }

    /// The state after the finding that something of kind `kind` is
    /// wrong in front of the next lexeme.
    pub open spec fn with_error_here(self, state: State, kind: ErrorKind) -> State {
        self.with_error(state, kind, state.pos, state.pos)
    }

    /// The state after blanks were taken into the tree.
    pub open spec fn blank_eaten(self, state: State) -> State
        decreases self.pieces.len() - state.pos,
    {
        if 0 <= state.pos < self.pieces.len() && self.kind_at(state.pos) == SyntaxKind::WHITESPACE {
            self.blank_eaten(self.bumped(state))
        } else {
            state
        }
    }

    /// The state after blanks, comments and ends of lines were taken
    /// into the tree.
    pub open spec fn trivia_eaten(self, state: State) -> State
        decreases self.pieces.len() - state.pos,
    {
        if 0 <= state.pos < self.pieces.len() && self.kind_at(state.pos).spec_is_trivia() {
            self.trivia_eaten(self.bumped(state))
        } else {
            state
        }
    }

    /// The state after a lexeme of kind `kind` was asked for: it is
    /// taken if it comes next, and its absence is a finding.
    pub open spec fn expected(self, state: State, kind: SyntaxKind, error: ErrorKind) -> State {
        if self.kind_at(state.pos) == kind {
            self.bumped(state)
        } else {
            self.with_error_here(state, error)
        }
    }

    /// Where what cannot be read ends if it starts at `at`: in front of
    /// the next lexeme at which a line ends, or a value if `line` is
    /// not set, or at the end of the text.
    pub open spec fn island_end(self, at: int, line: bool) -> int
        decreases self.pieces.len() - at,
    {
        if at < 0 || at >= self.pieces.len() || (if line {
            ends_line(self.kind_at(at))
        } else {
            ends_value(self.kind_at(at))
        }) {
            at
        } else {
            self.island_end(at + 1, line)
        }
    }

    /// `stop` without the blanks in front of it, as far as they lie
    /// behind `from`.
    pub open spec fn trimmed(self, from: int, stop: int) -> int
        decreases stop,
    {
        if from < stop && 0 < stop <= self.pieces.len() && self.kind_at(stop - 1)
            == SyntaxKind::WHITESPACE {
            self.trimmed(from, stop - 1)
        } else {
            stop
        }
    }

    /// The state after the lexemes up to `stop` were taken into the
    /// tree.
    pub open spec fn bumped_until(self, state: State, stop: int) -> State
        decreases stop - state.pos,
    {
        if 0 <= state.pos < stop {
            self.bumped_until(self.bumped(state), stop)
        } else {
            state
        }
    }

    /// The state after what cannot be read was wrapped into an error
    /// node: all the lexemes up to the end of the line, or up to where
    /// a value can end, without the blanks at their end. There is one
    /// finding, whatever the number of lexemes, and no node if there is
    /// no lexeme.
    pub open spec fn recovered(self, state: State, error: ErrorKind, line: bool) -> State {
        let stop = self.trimmed(state.pos, self.island_end(state.pos, line));
        let found = self.with_error(state, error, state.pos, stop);
        if stop > state.pos {
            node_finished(
                self.bumped_until(node_started(found, SyntaxKind::ERROR), stop),
            )
        } else {
            found
        }
    }

    /// The state after the next lexeme was wrapped into an error node.
    pub open spec fn skipped_one(self, state: State, error: ErrorKind) -> State {
        node_finished(
            self.bumped(
                node_started(
                    self.with_error(state, error, state.pos, state.pos + 1),
                    SyntaxKind::ERROR,
                ),
            ),
        )
    }

    /// The state after the keys behind the first one were read: each
    /// stands behind a dot, with blanks around it or not.
    pub open spec fn keys_rest(self, state: State) -> State
        decreases self.pieces.len() - state.pos,
    {
        let spaced = if self.kind_at(state.pos) == SyntaxKind::WHITESPACE && self.kind_at(
            state.pos + 1,
        ) == SyntaxKind::DOT {
            self.bumped(state)
        } else {
            state
        };
        if self.kind_at(spaced.pos) != SyntaxKind::DOT {
            spaced
        } else {
            let dotted = self.blank_eaten(self.bumped(spaced));
            if is_key_kind(self.kind_at(dotted.pos)) {
                let next = self.bumped(dotted);
                if state.pos < next.pos <= self.pieces.len() {
                    self.keys_rest(next)
                } else {
                    next
                }
            } else {
                self.with_error_here(dotted, ErrorKind::ExpectedKey)
            }
        }
    }

    /// The state after keys were read: one key, or several with dots
    /// between them.
    pub open spec fn keys_read(self, state: State) -> State {
        node_finished(self.keys_rest(self.bumped(node_started(state, SyntaxKind::KEYS))))
    }

    /// The state after a value was read: a scalar, an array or an
    /// inline table. What is none of these is wrapped as an error.
    pub open spec fn value_read(self, state: State) -> State
        decreases self.pieces.len() - state.pos, 1nat,
    {
        let kind = self.kind_at(state.pos);
        if state.pos < 0 || state.pos > self.pieces.len() {
            state
        } else if is_scalar_kind(kind) {
            self.bumped(state)
        } else if kind == SyntaxKind::BRACKET_START {
            self.array_read(state)
        } else if kind == SyntaxKind::BRACE_START {
            self.inline_table_read(state)
        } else {
            self.recovered(state, ErrorKind::ExpectedValue, false)
        }
    }

    /// The state after an array was read: values between brackets, with
    /// commas between them and possibly one behind the last.
    pub open spec fn array_read(self, state: State) -> State
        decreases self.pieces.len() - state.pos, 0nat,
    {
        if state.pos < 0 || state.pos >= self.pieces.len() {
            state
        } else {
            node_finished(self.array_rest(self.bumped(node_started(state, SyntaxKind::ARRAY))))
        }
    }

    /// The state after what follows the opening bracket of an array was
    /// read, or what follows one of its commas.
    pub open spec fn array_rest(self, state: State) -> State
        decreases self.pieces.len() - state.pos, 3nat,
    {
        let ready = self.trivia_eaten(state);
        let kind = self.kind_at(ready.pos);
        if state.pos < 0 || ready.pos < state.pos || ready.pos > self.pieces.len() {
            ready
        } else if kind == SyntaxKind::BRACKET_END {
            self.bumped(ready)
        } else if ready.pos >= self.pieces.len() {
            self.with_error_here(ready, ErrorKind::ExpectedBracketEnd)
        } else if kind == SyntaxKind::COMMA {
            self.array_rest(self.bumped(self.with_error_here(ready, ErrorKind::ExpectedValue)))
        } else {
            let read = self.value_read(ready);
            let settled = self.trivia_eaten(read);
            let next = self.kind_at(settled.pos);
            if next == SyntaxKind::COMMA {
                let on = self.bumped(settled);
                if state.pos < on.pos <= self.pieces.len() {
                    self.array_rest(on)
                } else {
                    on
                }
            } else if next == SyntaxKind::BRACKET_END {
                self.bumped(settled)
            } else if settled.pos < 0 || settled.pos >= self.pieces.len() {
                self.with_error_here(settled, ErrorKind::ExpectedBracketEnd)
            } else if settled.pos == ready.pos {
                let on = self.skipped_one(settled, ErrorKind::UnexpectedToken);
                if state.pos < on.pos <= self.pieces.len() {
                    self.array_rest(on)
                } else {
                    on
                }
            } else {
                self.with_error_here(settled, ErrorKind::ExpectedBracketEnd)
            }
        }
    }

    /// The state after an inline table was read: keys with their values
    /// between braces, with commas between them.
    pub open spec fn inline_table_read(self, state: State) -> State
        decreases self.pieces.len() - state.pos, 0nat,
    {
        if state.pos < 0 || state.pos >= self.pieces.len() {
            state
        } else {
            node_finished(
                self.inline_table_rest(self.bumped(node_started(state, SyntaxKind::INLINE_TABLE))),
            )
        }
    }

    /// The state after what follows the opening brace of an inline
    /// table was read, or what follows one of its commas.
    pub open spec fn inline_table_rest(self, state: State) -> State
        decreases self.pieces.len() - state.pos, 3nat,
    {
        let ready = self.trivia_eaten(state);
        let kind = self.kind_at(ready.pos);
        if state.pos < 0 || ready.pos < state.pos || ready.pos > self.pieces.len() {
            ready
        } else if kind == SyntaxKind::BRACE_END {
            self.bumped(ready)
        } else if ready.pos >= self.pieces.len() {
            self.with_error_here(ready, ErrorKind::ExpectedBraceEnd)
        } else if !is_key_kind(kind) {
            self.inline_table_rest(
                self.skipped_one(
                    ready,
                    if kind == SyntaxKind::COMMA {
                        ErrorKind::ExpectedKey
                    } else {
                        ErrorKind::UnexpectedToken
                    },
                ),
            )
        } else {
            let read = self.key_value_read(ready);
            let settled = self.trivia_eaten(read);
            let next = self.kind_at(settled.pos);
            if next == SyntaxKind::COMMA {
                let on = self.bumped(settled);
                if state.pos < on.pos <= self.pieces.len() {
                    self.inline_table_rest(on)
                } else {
                    on
                }
            } else if next == SyntaxKind::BRACE_END {
                self.bumped(settled)
            } else {
                self.with_error_here(settled, ErrorKind::ExpectedBraceEnd)
            }
        }
    }

    /// The state after keys, an equal sign and a value were read.
    pub open spec fn key_value_read(self, state: State) -> State
        decreases self.pieces.len() - state.pos, 2nat,
    {
        let keyed = self.blank_eaten(self.keys_read(node_started(state, SyntaxKind::KEY_VALUE)));
        if state.pos < 0 || keyed.pos < state.pos || keyed.pos > self.pieces.len() {
            keyed
        } else if self.kind_at(keyed.pos) == SyntaxKind::EQUAL {
            let ready = self.blank_eaten(self.bumped(keyed));
            if ready.pos < state.pos || ready.pos > self.pieces.len() {
                ready
            } else {
                node_finished(self.value_read(ready))
            }
        } else {
            node_finished(self.recovered(keyed, ErrorKind::ExpectedEqual, false))
        }
    }

    /// The state after the header of a table was read, between
    /// brackets, or of an array of tables, between two brackets on each
    /// side.
    pub open spec fn header_read(self, state: State, double: bool) -> State {
        let opened = self.bumped(state);
        let opened_twice = if double && self.kind_at(opened.pos) == SyntaxKind::BRACKET_START {
            self.bumped(opened)
        } else {
            opened
        };
        let ready = self.blank_eaten(opened_twice);
        let keyed = self.blank_eaten(
            if is_key_kind(self.kind_at(ready.pos)) {
                self.keys_read(ready)
            } else {
                self.with_error_here(ready, ErrorKind::ExpectedKey)
            },
        );
        let closed = self.expected(keyed, SyntaxKind::BRACKET_END, ErrorKind::ExpectedBracketEnd);
        if self.kind_at(keyed.pos) == SyntaxKind::BRACKET_END && double {
            self.expected(closed, SyntaxKind::BRACKET_END, ErrorKind::ExpectedDoubleBracketEnd)
        } else {
            closed
        }
    }

    /// The state after what may follow on a line behind a header or a
    /// value was read: blanks and a comment. Anything else up to the end
    /// of the line is wrapped as an error.
    pub open spec fn line_tail_read(self, state: State) -> State {
        let ready = self.blank_eaten(state);
        let commented = if self.kind_at(ready.pos) == SyntaxKind::COMMENT {
            self.bumped(ready)
        } else {
            ready
        };
        if ends_line(self.kind_at(commented.pos)) {
            commented
        } else {
            self.recovered(commented, ErrorKind::ExpectedLineBreak, true)
        }
    }

    /// The state after the rest of a document was read, when a table is
    /// open or not: headers of tables and keys with values, each on a
    /// line of its own, with comments and blank lines between them. The
    /// keys that follow a header belong to its table.
    pub open spec fn root_rest(self, state: State, table_open: bool) -> State
        decreases self.pieces.len() - state.pos,
    {
        let kind = self.kind_at(state.pos);
        if state.pos < 0 || state.pos >= self.pieces.len() {
            if table_open {
                node_finished(state)
            } else {
                state
            }
        } else if kind.spec_is_trivia() {
            self.root_rest(self.bumped(state), table_open)
        } else if kind == SyntaxKind::BRACKET_START {
            let closed = if table_open {
                node_finished(state)
            } else {
                state
            };
            let double = self.kind_at(state.pos + 1) == SyntaxKind::BRACKET_START;
            let on = self.line_tail_read(
                self.header_read(
                    node_started(
                        closed,
                        if double {
                            SyntaxKind::ARRAY_OF_TABLE
                        } else {
                            SyntaxKind::TABLE
                        },
                    ),
                    double,
                ),
            );
            if state.pos < on.pos <= self.pieces.len() {
                self.root_rest(on, true)
            } else {
                on
            }
        } else if is_key_kind(kind) {
            let on = self.line_tail_read(self.key_value_read(state));
            if state.pos < on.pos <= self.pieces.len() {
                self.root_rest(on, table_open)
            } else {
                on
            }
        } else {
            let wrapped = self.recovered(state, ErrorKind::UnexpectedToken, true);
            let on = if wrapped.pos == state.pos {
                self.skipped_one(wrapped, ErrorKind::UnexpectedToken)
            } else {
                wrapped
            };
            if state.pos < on.pos <= self.pieces.len() {
                self.root_rest(on, table_open)
            } else {
                on
            }
        }
    }
}

/// The state after a node of kind `kind` was started.
pub open spec fn node_started(state: State, kind: SyntaxKind) -> State {
    State { pos: state.pos, frames: with_started(state.frames, kind), errors: state.errors }
}

/// The state after the node that was started last was finished.
pub open spec fn node_finished(state: State) -> State {
    State { pos: state.pos, frames: with_finished(state.frames), errors: state.errors }
}

/// The state in which a text has been read as a document.
pub open spec fn parsed_state(chars: Seq<char>) -> State {
    Input::of(chars).root_rest(Input::of(chars).start(), false)
}

/// The tree of a text that is read as a document.
pub open spec fn parsed_tree(chars: Seq<char>) -> GreenModel {
    finished(parsed_state(chars).frames[0])
}

/// What is found wrong when a text is read as a document.
pub open spec fn parsed_findings(chars: Seq<char>) -> Seq<Error> {
    parsed_state(chars).errors
}

/// The state of the parser: the lexemes of the text, how many of them
/// have been taken into the tree, the tree as far as it is built, and
/// what has been found wrong.
pub struct Parser<'a> {
    chars: &'a Vec<char>,
    raw: &'a Vec<RawToken>,
    tokens: &'a Vec<Token>,
    value_end: TokenSet,
    line_end: TokenSet,
    pos: usize,
    builder: TreeBuilder,
    errors: Vec<Error>,
}

/// Whether in `next` the parse is no less far than in `state`, with the
/// same nodes open.
pub open spec fn advances(state: State, next: State) -> bool {
    &&& next.pos >= state.pos
    &&& next.frames.len() == state.frames.len()
    &&& next.errors.len() >= state.errors.len()
}

impl<'a> Parser<'a> {
    /// What is parsed.
    pub closed spec fn input(&self) -> Input {
        Input::of(self.chars@)
    }

    /// How far the parse has come.
    pub closed spec fn state(&self) -> State {
        State { pos: self.pos as int, frames: self.builder.frames(), errors: self.errors@ }
    }

    /// The tree holds the lexemes that have been taken, in their order,
    /// and if an invalid token is among them, something has been found
    /// wrong.
    pub closed spec fn wf(&self) -> bool {
        &&& utf8_len(self.chars@) <= u32::MAX
        &&& piece_models(self.raw@) == pieces(self.chars@, 0)
        &&& self.tokens@ == tokens_of(self.chars@, piece_models(self.raw@))
        &&& forall|kind: SyntaxKind| self.line_end@.contains(kind) <==> ends_line(kind)
        &&& forall|kind: SyntaxKind| self.value_end@.contains(kind) <==> ends_value(kind)
        &&& self.pos <= self.raw.len()
        &&& self.builder.frames().len() >= 1
        &&& self.builder.frames()[0].kind == SyntaxKind::ROOT
        &&& stack_leaves(self.builder.frames()) == consumed(
            self.chars@,
            pieces(self.chars@, 0),
            self.pos as int,
        )
        &&& all_valid(pieces(self.chars@, 0), self.pos as int) || self.errors.len() > 0
    }

    /// Whether `next` is a state of the same parse as `self`.
    pub closed spec fn leads_to(&self, next: &Self) -> bool {
        &&& next.chars == self.chars
        &&& next.raw == self.raw
        &&& next.tokens == self.tokens
        &&& next.value_end == self.value_end
        &&& next.line_end == self.line_end
    }

    /// What `wf` says about the state.
    proof fn lemma_state(&self)
        requires
            self.wf(),
        ensures
            0 <= self.state().pos <= self.input().pieces.len(),
            self.input().pieces.len() == self.raw.len(),
            self.state().frames.len() >= 1,
    {
        assert(piece_models(self.raw@).len() == self.raw.len());
    }

    fn at_end(&self) -> (r: bool)
        requires
            self.wf(),
        ensures
            r == (self.state().pos >= self.input().pieces.len()),
    {
        proof {
            self.lemma_state();
        }
        self.pos >= self.raw.len()
    }

    fn current(&self) -> (r: SyntaxKind)
        requires
            self.wf(),
        ensures
            r == self.input().kind_at(self.state().pos),
            r != SyntaxKind::EOF ==> self.state().pos < self.input().pieces.len(),
            self.state().pos < self.input().pieces.len() ==> r != SyntaxKind::EOF,
    {
        proof {
            self.lemma_state();
        }
        if self.pos < self.raw.len() {
            let kind = self.raw[self.pos].kind;
            proof {
                lemma_piece_kinds(self.chars@, 0);
                assert(piece_models(self.raw@)[self.pos as int] == self.raw@[self.pos as int]@);
            }
            kind
        } else {
            SyntaxKind::EOF
        }
    }

    /// The kind of the lexeme behind the one that comes next.
    fn second(&self) -> (r: SyntaxKind)
        requires
            self.wf(),
        ensures
            r == self.input().kind_at(self.state().pos + 1),
    {
        proof {
            self.lemma_state();
        }
        if self.raw.len() - self.pos > 1 {
            assert(piece_models(self.raw@)[self.pos + 1] == self.raw@[self.pos + 1]@);
            self.raw[self.pos + 1].kind
        } else {
            SyntaxKind::EOF
        }
    }

    /// Takes the lexeme that comes next into the tree.
    fn bump(&mut self)
        requires
            old(self).wf(),
            old(self).state().pos < old(self).input().pieces.len(),
            old(self).input().kind_at(old(self).state().pos) != SyntaxKind::INVALID_TOKEN
                || old(self).state().errors.len() > 0,
        ensures
            final(self).wf(),
            old(self).leads_to(final(self)),
            final(self).state() == old(self).input().bumped(old(self).state()),
            advances(old(self).state(), final(self).state()),
            final(self).state().pos == old(self).state().pos + 1,
    {
        let ghost ps = pieces(self.chars@, 0);
        let ghost frames = self.builder.frames();
        proof {
            self.lemma_state();
        }
        let piece = self.raw[self.pos];
        proof {
            lemma_pieces_tile(self.chars@, 0);
            lemma_tiles_index(ps, 0, self.chars.len() as int);
            assert(ps[self.pos as int] == piece@);
            lemma_subrange_within(self.chars@, piece.start as int, piece.end as int);
        }
        let text = text_of(self.chars, piece.start, piece.end);
        self.builder.token(piece.kind, text.as_str());
        self.pos = self.pos + 1;
        proof {
            let token = green_token_of(self.chars@, ps[self.pos - 1]);
            lemma_with_child_leaves(frames, token);
            assert(token.leaves() =~= seq![leaf_of(self.chars@, ps[self.pos - 1])]);
            assert(consumed(self.chars@, ps, self.pos as int) =~= consumed(
                self.chars@,
                ps,
                self.pos - 1,
            ) + seq![leaf_of(self.chars@, ps[self.pos - 1])]);
            assert forall|i: int| 0 <= i < self.pos && all_valid(ps, self.pos - 1)
                && piece.kind != SyntaxKind::INVALID_TOKEN implies (#[trigger] ps[i]).kind
                != SyntaxKind::INVALID_TOKEN by {}
        }
    }

    /// Starts a node of kind `kind`.
    fn start_node(&mut self, kind: SyntaxKind)
        requires
            old(self).wf(),
        ensures
            final(self).wf(),
            old(self).leads_to(final(self)),
            final(self).state() == node_started(old(self).state(), kind),
    {
        proof {
            lemma_with_started_leaves(self.builder.frames(), kind);
        }
        self.builder.start_node(kind);
    }

    /// Finishes the node that was started last.
    fn finish_node(&mut self)
        requires
            old(self).wf(),
            old(self).state().frames.len() >= 2,
        ensures
            final(self).wf(),
            old(self).leads_to(final(self)),
            final(self).state() == node_finished(old(self).state()),
            final(self).state().frames.len() == old(self).state().frames.len() - 1,
    {
        proof {
            self.lemma_state();
            lemma_consumed_text(self.chars@, self.pos as int);
            lemma_prefix_within(self.chars@, cursor(pieces(self.chars@, 0), self.pos as int));
            lemma_with_finished_leaves(self.builder.frames());
        }
        self.builder.finish_node();
    }

    /// The place of the lexemes from `from` up to `to`; if there are
    /// none, the empty place in front of the lexeme at `from`, or at
    /// the end of the text.
    fn place(&self, from: usize, to: usize) -> (r: (Span, Range))
        requires
            self.wf(),
            from <= to <= self.raw.len(),
        ensures
            r == self.input().place(from as int, to as int),
    {
        proof {
            self.lemma_state();
        }
        assert(self.tokens.len() == self.raw.len());
        if from < to {
            let first = self.tokens[from];
            let last = self.tokens[to - 1];
            (Span::new(first.span.start, last.span.end), Range::new(first.range.start, last.range.end))
        } else if from < self.tokens.len() {
            let first = self.tokens[from];
            (Span::at(first.span.start), Range::at(first.range.start))
        } else if from > 0 {
            let last = self.tokens[from - 1];
            (Span::at(last.span.end), Range::at(last.range.end))
        } else {
            (Span::at(Offset::new(0)), Range::at(Position::new(0, 0)))
        }
    }

    /// Records that something of kind `kind` is wrong with the lexemes
    /// from `from` up to `to`.
    fn error_at(&mut self, kind: ErrorKind, from: usize, to: usize)
        requires
            old(self).wf(),
            from <= to <= old(self).input().pieces.len(),
        ensures
            final(self).wf(),
            old(self).leads_to(final(self)),
            final(self).state() == old(self).input().with_error(
                old(self).state(),
                kind,
                from as int,
                to as int,
            ),
    {
        proof {
            self.lemma_state();
        }
        let place = self.place(from, to);
        self.errors.push(Error::new(kind, place));
    }

    /// Records that something is wrong in front of the lexeme that
    /// comes next.
    fn error_here(&mut self, kind: ErrorKind)
        requires
            old(self).wf(),
        ensures
            final(self).wf(),
            old(self).leads_to(final(self)),
            final(self).state() == old(self).input().with_error_here(old(self).state(), kind),
            advances(old(self).state(), final(self).state()),
            final(self).state().errors.len() > 0,
            final(self).state().pos == old(self).state().pos,
    {
        proof {
            self.lemma_state();
        }
        self.error_at(kind, self.pos, self.pos);
    }

    /// Takes blanks into the tree.
    fn eat_blank(&mut self)
        requires
            old(self).wf(),
        ensures
            final(self).wf(),
            old(self).leads_to(final(self)),
            final(self).state() == old(self).input().blank_eaten(old(self).state()),
            advances(old(self).state(), final(self).state()),
    {
        while self.current() == SyntaxKind::WHITESPACE
            invariant
                self.wf(),
                old(self).leads_to(self),
                self.input() == old(self).input(),
                self.input().blank_eaten(self.state()) == old(self).input().blank_eaten(
                    old(self).state(),
                ),
                advances(old(self).state(), self.state()),
            decreases self.input().pieces.len() - self.state().pos,
        {
            self.bump();
        }
        proof {
            self.lemma_state();
        }
    }

    /// Takes blanks, comments and ends of lines into the tree.
    fn eat_trivia(&mut self)
        requires
            old(self).wf(),
        ensures
            final(self).wf(),
            old(self).leads_to(final(self)),
            final(self).state() == old(self).input().trivia_eaten(old(self).state()),
            advances(old(self).state(), final(self).state()),
    {
        while self.current().is_trivia()
            invariant
                self.wf(),
                old(self).leads_to(self),
                self.input() == old(self).input(),
                self.input().trivia_eaten(self.state()) == old(self).input().trivia_eaten(
                    old(self).state(),
                ),
                advances(old(self).state(), self.state()),
            decreases self.input().pieces.len() - self.state().pos,
        {
            self.bump();
        }
        proof {
            self.lemma_state();
        }
    }

    /// Takes the lexeme that comes next if it is of kind `kind`, and
    /// records what is wrong otherwise.
    fn expect(&mut self, kind: SyntaxKind, error: ErrorKind) -> (r: bool)
        requires
            old(self).wf(),
            kind != SyntaxKind::INVALID_TOKEN,
            kind != SyntaxKind::EOF,
        ensures
            final(self).wf(),
            old(self).leads_to(final(self)),
            final(self).state() == old(self).input().expected(old(self).state(), kind, error),
            advances(old(self).state(), final(self).state()),
            r == (old(self).input().kind_at(old(self).state().pos) == kind),
    {
        if self.current() == kind {
            self.bump();
            true
        } else {
            self.error_here(error);
            false
        }
    }

    /// Whether what cannot be read ends in front of the lexeme at
    /// `index`: at the end of the line, or also where a value can end.
    fn ends_island(&self, index: usize, line: bool) -> (r: bool)
        requires
            self.wf(),
            index < self.raw.len(),
        ensures
            r == if line {
                ends_line(self.input().kind_at(index as int))
            } else {
                ends_value(self.input().kind_at(index as int))
            },
    {
        proof {
            self.lemma_state();
            assert(piece_models(self.raw@)[index as int] == self.raw@[index as int]@);
        }
        if line {
            self.line_end.contains(self.raw[index].kind)
        } else {
            self.value_end.contains(self.raw[index].kind)
        }
    }

    /// Wraps what cannot be read into an error node, and records that it
    /// is wrong: all the lexemes up to the end of the line, or up to
    /// where a value can end, without the blanks at their end. One
    /// finding is recorded, whatever the number of lexemes.
    fn recover(&mut self, error: ErrorKind, line: bool)
        requires
            old(self).wf(),
        ensures
            final(self).wf(),
            old(self).leads_to(final(self)),
            final(self).state() == old(self).input().recovered(old(self).state(), error, line),
            advances(old(self).state(), final(self).state()),
            final(self).state().errors.len() > 0,
    {
        proof {
            self.lemma_state();
        }
        let ghost input = self.input();
        let mut stop: usize = self.pos;
        while stop < self.raw.len() && !self.ends_island(stop, line)
            invariant
                self.wf(),
                input == self.input(),
                self.pos <= stop <= self.raw.len(),
                input.pieces.len() == self.raw.len(),
                input.island_end(self.pos as int, line) == input.island_end(stop as int, line),
            decreases self.raw.len() - stop,
        {
            stop += 1;
        }
        let ghost end = stop;
        while stop > self.pos && self.raw[stop - 1].kind == SyntaxKind::WHITESPACE
            invariant
                self.wf(),
                input == self.input(),
                self.pos <= stop <= self.raw.len(),
                input.pieces.len() == self.raw.len(),
                input.trimmed(self.pos as int, end as int) == input.trimmed(
                    self.pos as int,
                    stop as int,
                ),
            decreases stop,
        {
            proof {
                assert(piece_models(self.raw@)[stop - 1] == self.raw@[stop - 1]@);
            }
            stop -= 1;
        }
        proof {
            if stop > self.pos {
                assert(piece_models(self.raw@)[stop - 1] == self.raw@[stop - 1]@);
            }
        }
        self.error_at(error, self.pos, stop);
        if stop > self.pos {
            self.start_node(SyntaxKind::ERROR);
            let ghost started = self.state();
            while self.pos < stop
                invariant
                    self.wf(),
                    old(self).leads_to(self),
                    input == self.input(),
                    input.pieces.len() == self.raw.len(),
                    self.state().errors.len() > 0,
                    self.state().errors.len() >= old(self).state().errors.len(),
                    self.state().frames.len() == old(self).state().frames.len() + 1,
                    old(self).pos <= self.pos <= stop <= self.raw.len(),
                    input.bumped_until(started, stop as int) == input.bumped_until(
                        self.state(),
                        stop as int,
                    ),
                decreases stop - self.pos,
            {
                self.bump();
            }
            self.finish_node();
        }
    }

    /// Wraps the lexeme that comes next into an error node, and records
    /// that it is wrong.
    fn skip_one(&mut self, error: ErrorKind)
        requires
            old(self).wf(),
            old(self).state().pos < old(self).input().pieces.len(),
        ensures
            final(self).wf(),
            old(self).leads_to(final(self)),
            final(self).state() == old(self).input().skipped_one(old(self).state(), error),
            advances(old(self).state(), final(self).state()),
            final(self).state().pos == old(self).state().pos + 1,
    {
        proof {
            self.lemma_state();
        }
        self.error_at(error, self.pos, self.pos + 1);
        self.start_node(SyntaxKind::ERROR);
        self.bump();
        self.finish_node();
    }
}

impl<'a> Parser<'a> {
    /// Reads keys: one key, or several with dots between them.
    fn parse_keys(&mut self)
        requires
            old(self).wf(),
            is_key_kind(old(self).input().kind_at(old(self).state().pos)),
        ensures
            final(self).wf(),
            old(self).leads_to(final(self)),
            final(self).state() == old(self).input().keys_read(old(self).state()),
            advances(old(self).state(), final(self).state()),
            final(self).state().pos > old(self).state().pos,
    {
        let ghost input = self.input();
        proof {
            self.lemma_state();
        }
        self.start_node(SyntaxKind::KEYS);
        self.bump();
        let ghost entry = self.state();
        loop
            invariant_except_break
                input.keys_rest(entry) == input.keys_rest(self.state()),
            invariant
                self.wf(),
                old(self).leads_to(self),
                input == self.input(),
                self.state().frames.len() == old(self).state().frames.len() + 1,
                self.state().pos > old(self).state().pos,
                self.state().errors.len() >= old(self).state().errors.len(),
            ensures
                self.state() == input.keys_rest(entry),
            decreases input.pieces.len() - self.state().pos,
        {
            proof {
                self.lemma_state();
            }
            if self.current() == SyntaxKind::WHITESPACE && self.second() == SyntaxKind::DOT {
                self.bump();
            }
            if self.current() != SyntaxKind::DOT {
                break;
            }
            self.bump();
            self.eat_blank();
            if check_key_kind(self.current()) {
                self.bump();
                proof {
                    self.lemma_state();
                }
            } else {
                self.error_here(ErrorKind::ExpectedKey);
                break;
            }
        }
        self.finish_node();
    }

    /// Reads a value: a scalar, an array or an inline table. What is
    /// none of these is wrapped as an error.
    fn parse_value(&mut self)
        requires
            old(self).wf(),
        ensures
            final(self).wf(),
            old(self).leads_to(final(self)),
            final(self).state() == old(self).input().value_read(old(self).state()),
            advances(old(self).state(), final(self).state()),
        decreases old(self).input().pieces.len() - old(self).state().pos, 1nat,
    {
        proof {
            self.lemma_state();
        }
        let kind = self.current();
        if check_scalar_kind(kind) {
            self.bump();
        } else if kind == SyntaxKind::BRACKET_START {
            self.parse_array();
        } else if kind == SyntaxKind::BRACE_START {
            self.parse_inline_table();
        } else {
            self.recover(ErrorKind::ExpectedValue, false);
        }
    }

    /// Reads an array: values between brackets, with commas between
    /// them and possibly one behind the last. An array may run over
    /// several lines and hold comments.
    fn parse_array(&mut self)
        requires
            old(self).wf(),
            old(self).input().kind_at(old(self).state().pos) == SyntaxKind::BRACKET_START,
        ensures
            final(self).wf(),
            old(self).leads_to(final(self)),
            final(self).state() == old(self).input().array_read(old(self).state()),
            advances(old(self).state(), final(self).state()),
            final(self).state().pos > old(self).state().pos,
        decreases old(self).input().pieces.len() - old(self).state().pos, 0nat,
    {
        let ghost input = self.input();
        proof {
            self.lemma_state();
        }
        self.start_node(SyntaxKind::ARRAY);
        self.bump();
        let ghost entry = self.state();
        loop
            invariant_except_break
                input.array_rest(entry) == input.array_rest(self.state()),
            invariant
                self.wf(),
                old(self).leads_to(self),
                input == self.input(),
                input == old(self).input(),
                self.state().frames.len() == old(self).state().frames.len() + 1,
                self.state().pos > old(self).state().pos,
                self.state().errors.len() >= old(self).state().errors.len(),
            ensures
                self.state() == input.array_rest(entry),
            decreases input.pieces.len() - self.state().pos,
        {
            let ghost head = self.state();
            proof {
                self.lemma_state();
            }
            self.eat_trivia();
            proof {
                self.lemma_state();
            }
            let kind = self.current();
            if kind == SyntaxKind::BRACKET_END {
                self.bump();
                break;
            }
            if self.at_end() {
                self.error_here(ErrorKind::ExpectedBracketEnd);
                break;
            }
            if kind == SyntaxKind::COMMA {
                self.error_here(ErrorKind::ExpectedValue);
                self.bump();
                continue;
            }
            let taken = self.pos;
            self.parse_value();
            self.eat_trivia();
            proof {
                self.lemma_state();
            }
            let next = self.current();
            if next == SyntaxKind::COMMA {
                self.bump();
                proof {
                    self.lemma_state();
                }
            } else if next == SyntaxKind::BRACKET_END {
                self.bump();
                break;
            } else if self.at_end() {
                self.error_here(ErrorKind::ExpectedBracketEnd);
                break;
            } else if self.pos == taken {
                self.skip_one(ErrorKind::UnexpectedToken);
                proof {
                    self.lemma_state();
                }
            } else {
                self.error_here(ErrorKind::ExpectedBracketEnd);
                break;
            }
        }
        self.finish_node();
    }

    /// Reads an inline table: keys with their values between braces,
    /// with commas between them.
    fn parse_inline_table(&mut self)
        requires
            old(self).wf(),
            old(self).input().kind_at(old(self).state().pos) == SyntaxKind::BRACE_START,
        ensures
            final(self).wf(),
            old(self).leads_to(final(self)),
            final(self).state() == old(self).input().inline_table_read(old(self).state()),
            advances(old(self).state(), final(self).state()),
            final(self).state().pos > old(self).state().pos,
        decreases old(self).input().pieces.len() - old(self).state().pos, 0nat,
    {
        let ghost input = self.input();
        proof {
            self.lemma_state();
        }
        self.start_node(SyntaxKind::INLINE_TABLE);
        self.bump();
        let ghost entry = self.state();
        loop
            invariant_except_break
                input.inline_table_rest(entry) == input.inline_table_rest(self.state()),
            invariant
                self.wf(),
                old(self).leads_to(self),
                input == self.input(),
                input == old(self).input(),
                self.state().frames.len() == old(self).state().frames.len() + 1,
                self.state().pos > old(self).state().pos,
                self.state().errors.len() >= old(self).state().errors.len(),
            ensures
                self.state() == input.inline_table_rest(entry),
            decreases input.pieces.len() - self.state().pos,
        {
            proof {
                self.lemma_state();
            }
            self.eat_trivia();
            proof {
                self.lemma_state();
            }
            let kind = self.current();
            if kind == SyntaxKind::BRACE_END {
                self.bump();
                break;
            }
            if self.at_end() {
                self.error_here(ErrorKind::ExpectedBraceEnd);
                break;
            }
            if check_key_kind(kind) {
                self.parse_key_value();
            } else {
                self.skip_one(
                    if kind == SyntaxKind::COMMA {
                        ErrorKind::ExpectedKey
                    } else {
                        ErrorKind::UnexpectedToken
                    },
                );
                continue;
            }
            self.eat_trivia();
            proof {
                self.lemma_state();
            }
            let next = self.current();
            if next == SyntaxKind::COMMA {
                self.bump();
                proof {
                    self.lemma_state();
                }
            } else if next == SyntaxKind::BRACE_END {
                self.bump();
                break;
            } else {
                self.error_here(ErrorKind::ExpectedBraceEnd);
                break;
            }
        }
        self.finish_node();
    }

    /// Reads keys, an equal sign and a value.
    fn parse_key_value(&mut self)
        requires
            old(self).wf(),
            is_key_kind(old(self).input().kind_at(old(self).state().pos)),
        ensures
            final(self).wf(),
            old(self).leads_to(final(self)),
            final(self).state() == old(self).input().key_value_read(old(self).state()),
            advances(old(self).state(), final(self).state()),
            final(self).state().pos > old(self).state().pos,
        decreases old(self).input().pieces.len() - old(self).state().pos, 2nat,
    {
        proof {
            self.lemma_state();
        }
        self.start_node(SyntaxKind::KEY_VALUE);
        self.parse_keys();
        self.eat_blank();
        proof {
            self.lemma_state();
        }
        if self.current() == SyntaxKind::EQUAL {
            self.bump();
            self.eat_blank();
            proof {
                self.lemma_state();
            }
            self.parse_value();
        } else {
            self.recover(ErrorKind::ExpectedEqual, false);
        }
        self.finish_node();
    }

    /// Reads the header of a table, between brackets, or of an array of
    /// tables, between two brackets on each side.
    fn parse_header(&mut self, double: bool)
        requires
            old(self).wf(),
            old(self).input().kind_at(old(self).state().pos) == SyntaxKind::BRACKET_START,
        ensures
            final(self).wf(),
            old(self).leads_to(final(self)),
            final(self).state() == old(self).input().header_read(old(self).state(), double),
            advances(old(self).state(), final(self).state()),
            final(self).state().pos > old(self).state().pos,
    {
        proof {
            self.lemma_state();
        }
        self.bump();
        if double && self.current() == SyntaxKind::BRACKET_START {
            self.bump();
        }
        self.eat_blank();
        if check_key_kind(self.current()) {
            self.parse_keys();
        } else {
            self.error_here(ErrorKind::ExpectedKey);
        }
        self.eat_blank();
        let closed = self.expect(SyntaxKind::BRACKET_END, ErrorKind::ExpectedBracketEnd);
        if closed && double {
            self.expect(SyntaxKind::BRACKET_END, ErrorKind::ExpectedDoubleBracketEnd);
        }
    }

    /// Reads what may follow on a line behind a header or a value:
    /// blanks and a comment. Anything else up to the end of the line is
    /// wrapped as an error.
    fn parse_line_tail(&mut self)
        requires
            old(self).wf(),
        ensures
            final(self).wf(),
            old(self).leads_to(final(self)),
            final(self).state() == old(self).input().line_tail_read(old(self).state()),
            advances(old(self).state(), final(self).state()),
    {
        self.eat_blank();
        if self.current() == SyntaxKind::COMMENT {
            self.bump();
        }
        let kind = self.current();
        if !(kind == SyntaxKind::LINE_BREAK || self.at_end()) {
            self.recover(ErrorKind::ExpectedLineBreak, true);
        }
    }

    /// Reads a document: headers of tables and keys with values, each
    /// on a line of its own, with comments and blank lines between
    /// them. The keys that follow a header belong to its table.
    fn parse_root(&mut self)
        requires
            old(self).wf(),
            old(self).state().frames.len() == 1,
        ensures
            final(self).wf(),
            old(self).leads_to(final(self)),
            final(self).state() == old(self).input().root_rest(old(self).state(), false),
            final(self).state().frames.len() == 1,
            final(self).state().pos == old(self).input().pieces.len(),
    {
        let ghost input = self.input();
        let ghost entry = self.state();
        let mut table_open = false;
        while !self.at_end()
            invariant
                self.wf(),
                old(self).leads_to(self),
                input == self.input(),
                input.root_rest(entry, false) == input.root_rest(self.state(), table_open),
                self.state().frames.len() == if table_open {
                    2nat
                } else {
                    1nat
                },
            decreases input.pieces.len() - self.state().pos,
        {
            proof {
                self.lemma_state();
            }
            let kind = self.current();
            if kind.is_trivia() {
                self.bump();
            } else if kind == SyntaxKind::BRACKET_START {
                if table_open {
                    self.finish_node();
                }
                let double = self.second() == SyntaxKind::BRACKET_START;
                self.start_node(
                    if double {
                        SyntaxKind::ARRAY_OF_TABLE
                    } else {
                        SyntaxKind::TABLE
                    },
                );
                table_open = true;
                self.parse_header(double);
                self.parse_line_tail();
                proof {
                    self.lemma_state();
                }
            } else if check_key_kind(kind) {
                self.parse_key_value();
                self.parse_line_tail();
                proof {
                    self.lemma_state();
                }
            } else {
                let taken = self.pos;
                self.recover(ErrorKind::UnexpectedToken, true);
                if self.pos == taken {
                    self.skip_one(ErrorKind::UnexpectedToken);
                }
                proof {
                    self.lemma_state();
                }
            }
        }
        proof {
            self.lemma_state();
        }
        if table_open {
            self.finish_node();
        }
    }
}

/// Reads a text as a document. The tree that comes out holds every
/// lexeme of the text as a token, in the order of the text, so that the
/// text of the tree is the text that was read, whatever was wrong with
/// it. What cannot be read is wrapped into error nodes, each of which
/// comes with one finding; a text with an invalid token has at least
/// one finding.
pub fn parse(text: &str) -> (r: Parsed<Root>)
    requires
        utf8_len(text@) <= u32::MAX,
    ensures
        r.green()@ == parsed_tree(text@),
        r.findings()@ == parsed_findings(text@),
        r.green()@.leaves() == text_leaves(text@),
        r.green()@.text() == text@,
        r.root_kind() == SyntaxKind::ROOT,
        r.findings()@.len() == 0 ==> crate::lexer::lexed_errors(text@).len() == 0,
{
    let chars = chars_of(text);
    let raw = read_pieces(&chars);
    let tokens = place_tokens(&chars, &raw);
    let line_end = crate::token_set::ts_line_end();
    let value_end = crate::token_set::ts_value_end();
    let mut parser = Parser {
        chars: &chars,
        raw: &raw,
        tokens: &tokens,
        value_end,
        line_end,
        pos: 0,
        builder: TreeBuilder::new(SyntaxKind::ROOT),
        errors: Vec::new(),
    };
    let ghost ps = pieces(chars@, 0);
    proof {
        assert(consumed(chars@, ps, 0) =~= Seq::<Leaf>::empty());
        let frames = parser.builder.frames();
        assert(frames.drop_last() =~= Seq::<FrameModel>::empty());
        assert(stack_leaves(Seq::<FrameModel>::empty()) =~= Seq::<Leaf>::empty());
        assert(crate::builder::leaves_of(Seq::<GreenModel>::empty()) =~= Seq::<Leaf>::empty());
        assert(stack_leaves(frames) =~= Seq::<Leaf>::empty());
        assert(parser.state() == Input::of(chars@).start());
    }
    parser.parse_root();
    proof {
        assert(piece_models(raw@).len() == raw.len());
        lemma_consumed_text(chars@, ps.len() as int);
        assert(chars@.take(chars@.len() as int) =~= chars@);
        lemma_piece_kinds(chars@, 0);
        crate::lexer::lemma_no_errors(chars@, ps);
        let frames = parser.builder.frames();
        assert(frames.drop_last() =~= Seq::<FrameModel>::empty());
        assert(stack_leaves(Seq::<FrameModel>::empty()) =~= Seq::<Leaf>::empty());
        assert(stack_leaves(frames) =~= crate::builder::leaves_of(frames[0].children));
    }
    let Parser { builder, errors, .. } = parser;
    let green = builder.finish();
    proof {
        lemma_leaves_text(green@);
    }
    Parsed::new(green, errors)
}

} // verus!
