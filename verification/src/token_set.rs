//! A set of syntax kinds as a bit vector, for lookahead and recovery.

use crate::syntax::SyntaxKind;
use vstd::prelude::*;

verus! {

/// Whether bit `index` of `word` is set.
pub open spec fn bit_is_set(word: u64, index: u64) -> bool {
    word & (1u64 << index) != 0
}

proof fn lemma_set_bit(word: u64, d: u64, e: u64)
    requires
        d < 64,
        e < 64,
    ensures
        bit_is_set(word | (1u64 << d), e) == (bit_is_set(word, e) || d == e),
{
    assert((word | (1u64 << d)) & (1u64 << e) != 0 <==> (word & (1u64 << e) != 0 || d == e))
        by (bit_vector)
        requires
            d < 64,
            e < 64,
    ;
}

proof fn lemma_no_bit(e: u64)
    requires
        e < 64,
    ensures
        !bit_is_set(0, e),
{
    assert(0u64 & (1u64 << e) == 0) by (bit_vector);
}

/// A set of `SyntaxKind`s, one bit for each.
#[derive(Clone, Copy, Debug)]
pub struct TokenSet {
    pub bits: [u64; 3],
}

impl View for TokenSet {
    type V = Set<SyntaxKind>;

    /// The kinds whose bit is set.
    open spec fn view(&self) -> Set<SyntaxKind> {
        Set::new(
            |kind: SyntaxKind|
                bit_is_set(
                    self.bits[kind.ordinal() as int / 64],
                    (kind.ordinal() % 64) as u64,
                ),
        )
    }
}

impl TokenSet {
    /// The set that holds exactly the kinds listed in `kinds`.
    #[must_use]
    pub fn new(kinds: &[SyntaxKind]) -> (r: Self)
        ensures
            forall|kind: SyntaxKind| r@.contains(kind) <==> kinds@.contains(kind),
    {
        let mut res: [u64; 3] = [0, 0, 0];
        let mut i: usize = 0;
        proof {
            assert forall|kind: SyntaxKind|
                !bit_is_set(
                    #[trigger] res[kind.ordinal() as int / 64],
                    (kind.ordinal() % 64) as u64,
                ) by {
                lemma_no_bit((kind.ordinal() % 64) as u64);
            }
        }
        while i < kinds.len()
            invariant
                i <= kinds.len(),
                forall|kind: SyntaxKind|
                    bit_is_set(
                        #[trigger] res[kind.ordinal() as int / 64],
                        (kind.ordinal() % 64) as u64,
                    ) <==> kinds@.take(i as int).contains(kind),
            decreases kinds.len() - i,
        {
            let discriminant: usize = kinds[i].to_raw() as usize;
            let idx: usize = discriminant / 64;
            let shift: u64 = (discriminant % 64) as u64;
            let ghost before = res;
            let word: u64 = res[idx] | (1u64 << shift);
            res[idx] = word;
            proof {
                let added = kinds@[i as int];
                assert(kinds@.take(i + 1) =~= kinds@.take(i as int).push(added));
                assert forall|kind: SyntaxKind|
                    bit_is_set(
                        #[trigger] res[kind.ordinal() as int / 64],
                        (kind.ordinal() % 64) as u64,
                    ) <==> kinds@.take(i + 1).contains(kind) by {
                    let e = (kind.ordinal() % 64) as u64;
                    let j = kind.ordinal() as int / 64;
                    assert(kinds@.take(i as int).push(added).contains(kind) <==> (kinds@.take(
                        i as int,
                    ).contains(kind) || added == kind)) by {
                        let s = kinds@.take(i as int);
                        if s.push(added).contains(kind) {
                            let k = choose|k: int|
                                0 <= k < s.push(added).len() && s.push(added)[k] == kind;
                            if k < s.len() {
                                assert(s[k] == kind);
                            }
                        }
                        if s.contains(kind) {
                            let k = choose|k: int| 0 <= k < s.len() && s[k] == kind;
                            assert(s.push(added)[k] == kind);
                        }
                        if added == kind {
                            assert(s.push(added)[s.len() as int] == kind);
                        }
                    }
                    assert(bit_is_set(before[j], e) <==> kinds@.take(i as int).contains(kind));
                    if j == idx as int {
                        lemma_set_bit(before[j], shift, e);
                        assert(added.ordinal() == kind.ordinal() <==> added == kind) by {
                            crate::syntax::lemma_kind_raw_round_trip(added);
                            crate::syntax::lemma_kind_raw_round_trip(kind);
                        }
                    } else {
                        assert(res[j] == before[j]);
                        assert(added != kind);
                    }
                }
            }
            i += 1;
        }
        assert(kinds@.take(i as int) =~= kinds@);
        Self { bits: res }
    }

    /// Whether `kind` is in the set.
    #[must_use]
    pub fn contains(&self, kind: SyntaxKind) -> (r: bool)
        ensures
            r == self@.contains(kind),
    {
        let discriminant: usize = kind.to_raw() as usize;
        let idx: usize = discriminant / 64;
        let mask: u64 = 1u64 << ((discriminant % 64) as u64);
        self.bits[idx] & mask != 0
    }
}

/// The kinds at which a line ends.
#[must_use]
pub fn ts_line_end() -> (r: TokenSet)
    ensures
        forall|kind: SyntaxKind|
            r@.contains(kind) <==> (kind == SyntaxKind::LINE_BREAK || kind == SyntaxKind::EOF),
{
    let kinds = [SyntaxKind::LINE_BREAK, SyntaxKind::EOF];
    let r = TokenSet::new(&kinds);
    proof {
        assert(kinds@[0] == SyntaxKind::LINE_BREAK);
        assert(kinds@[1] == SyntaxKind::EOF);
    }
    r
}

/// The kinds at which what is written on a line ends: a comment, or the
/// end of the line.
#[must_use]
pub fn ts_comment_or_line_end() -> (r: TokenSet)
    ensures
        forall|kind: SyntaxKind|
            r@.contains(kind) <==> (kind == SyntaxKind::COMMENT || kind == SyntaxKind::LINE_BREAK
                || kind == SyntaxKind::EOF),
{
    let kinds = [SyntaxKind::COMMENT, SyntaxKind::LINE_BREAK, SyntaxKind::EOF];
    let r = TokenSet::new(&kinds);
    proof {
        assert(kinds@[0] == SyntaxKind::COMMENT);
        assert(kinds@[1] == SyntaxKind::LINE_BREAK);
        assert(kinds@[2] == SyntaxKind::EOF);
    }
    r
}

/// The kinds with which the next section of a document starts: the
/// header of a table or of an array of tables, or the end of the text.
#[must_use]
pub fn ts_next_section() -> (r: TokenSet)
    ensures
        forall|kind: SyntaxKind|
            r@.contains(kind) <==> (kind == SyntaxKind::BRACKET_START || kind
                == SyntaxKind::DOUBLE_BRACKET_START || kind == SyntaxKind::EOF),
{
    let kinds = [SyntaxKind::BRACKET_START, SyntaxKind::DOUBLE_BRACKET_START, SyntaxKind::EOF];
    let r = TokenSet::new(&kinds);
    proof {
        assert(kinds@[0] == SyntaxKind::BRACKET_START);
        assert(kinds@[1] == SyntaxKind::DOUBLE_BRACKET_START);
        assert(kinds@[2] == SyntaxKind::EOF);
    }
    r
}

/// The kinds of what may stand between two items, or in front of one:
/// comments and ends of lines.
#[must_use]
pub fn ts_comments_kinds() -> (r: TokenSet)
    ensures
        forall|kind: SyntaxKind|
            r@.contains(kind) <==> (kind == SyntaxKind::COMMENT || kind == SyntaxKind::LINE_BREAK),
{
    let kinds = [SyntaxKind::COMMENT, SyntaxKind::LINE_BREAK];
    let r = TokenSet::new(&kinds);
    proof {
        assert(kinds@[0] == SyntaxKind::COMMENT);
        assert(kinds@[1] == SyntaxKind::LINE_BREAK);
    }
    r
}

/// The kinds with which a key can start.
#[must_use]
pub fn ts_key_first() -> (r: TokenSet)
    ensures
        forall|kind: SyntaxKind|
            r@.contains(kind) <==> (kind == SyntaxKind::BARE_KEY || kind
                == SyntaxKind::BASIC_STRING || kind == SyntaxKind::LITERAL_STRING || kind
                == SyntaxKind::INTEGER_DEC || kind == SyntaxKind::FLOAT || kind
                == SyntaxKind::BOOLEAN || kind == SyntaxKind::LOCAL_DATE),
{
    let kinds = [
        // name = "Tom"
        SyntaxKind::BARE_KEY,
        // "127.0.0.1" = "value"
        SyntaxKind::BASIC_STRING,
        // 'key2' = "value"
        SyntaxKind::LITERAL_STRING,
        // 1234 = "value"
        SyntaxKind::INTEGER_DEC,
        // 3.14159 = "pi"
        SyntaxKind::FLOAT,
        // true = "value"
        SyntaxKind::BOOLEAN,
        // 2001-02-08 = "value"
        SyntaxKind::LOCAL_DATE,
    ];
    let r = TokenSet::new(&kinds);
    proof {
        assert(kinds@[0] == SyntaxKind::BARE_KEY);
        assert(kinds@[1] == SyntaxKind::BASIC_STRING);
        assert(kinds@[2] == SyntaxKind::LITERAL_STRING);
        assert(kinds@[3] == SyntaxKind::INTEGER_DEC);
        assert(kinds@[4] == SyntaxKind::FLOAT);
        assert(kinds@[5] == SyntaxKind::BOOLEAN);
        assert(kinds@[6] == SyntaxKind::LOCAL_DATE);
    }
    r
}

/// The kinds in front of which a value ends, well formed or not: the
/// end of the line, a comment, a comma, and a closing bracket or brace.
#[must_use]
pub fn ts_value_end() -> (r: TokenSet)
    ensures
        forall|kind: SyntaxKind|
            r@.contains(kind) <==> (kind == SyntaxKind::LINE_BREAK || kind == SyntaxKind::COMMENT
                || kind == SyntaxKind::COMMA || kind == SyntaxKind::BRACKET_END || kind
                == SyntaxKind::BRACE_END),
{
    let kinds = [
        SyntaxKind::LINE_BREAK,
        SyntaxKind::COMMENT,
        SyntaxKind::COMMA,
        SyntaxKind::BRACKET_END,
        SyntaxKind::BRACE_END,
    ];
    let r = TokenSet::new(&kinds);
    proof {
        assert(kinds@[0] == SyntaxKind::LINE_BREAK);
        assert(kinds@[1] == SyntaxKind::COMMENT);
        assert(kinds@[2] == SyntaxKind::COMMA);
        assert(kinds@[3] == SyntaxKind::BRACKET_END);
        assert(kinds@[4] == SyntaxKind::BRACE_END);
    }
    r
}

} // verus!
