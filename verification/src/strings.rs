//! Building text: joining pieces and rendering numbers.

use itertools::Itertools;
use vstd::prelude::*;
use vstd::std_specs::iter::IteratorSpec;

verus! {

/// The texts of a list of strings, one by one.
pub open spec fn texts(parts: Seq<String>) -> Seq<Seq<char>> {
    Seq::new(parts.len(), |i: int| parts[i]@)
}

/// The pieces in order, with `sep` between each two neighbours.
pub open spec fn joined(parts: Seq<Seq<char>>, sep: Seq<char>) -> Seq<char>
    decreases parts.len(),
{
    if parts.len() == 0 {
        Seq::empty()
    } else if parts.len() == 1 {
        parts[0]
    } else {
        joined(parts.drop_last(), sep) + sep + parts.last()
    }
}

/// `Itertools::join` over the strings of `parts`: the strings in order,
/// with `sep` between each two neighbours, and the empty string for no
/// strings at all.
#[verifier::external_body]
pub(crate) fn join(parts: &Vec<String>, sep: &str) -> (r: String)
    ensures
        r@ == joined(texts(parts@), sep@),
{
    parts.iter().join(sep)
}

/// `String::push`: appends one character.
#[verifier::external_body]
pub(crate) fn push_char(text: &mut String, c: char)
    ensures
        final(text)@ == old(text)@.push(c),
{
    text.push(c)
}

/// `str::eq`: two strings are equal when they hold the same characters.
#[verifier::external_body]
pub(crate) fn str_eq(left: &str, right: &str) -> (r: bool)
    ensures
        r == (left@ == right@),
{
    left == right
}

/// The decimal digits of `n`, without leading zeros.
pub open spec fn digits(n: nat) -> Seq<char>
    decreases n,
{
    if n < 10 {
        seq![(('0' as nat) + n) as char]
    } else {
        digits(n / 10).push((('0' as nat) + n % 10) as char)
    }
}

/// The decimal text of `i`: its digits, behind a minus sign if it is
/// negative.
pub open spec fn decimal(i: int) -> Seq<char> {
    if i < 0 {
        seq!['-'] + digits((-i) as nat)
    } else {
        digits(i as nat)
    }
}

/// The `Display` of an `i128`: its decimal text.
#[verifier::external_body]
pub(crate) fn decimal_string(value: i128) -> (r: String)
    ensures
        r@ == decimal(value as int),
{
    format!("{value}")
}

/// `text` with `to` in place of each `from`.
pub open spec fn replaced(text: Seq<char>, from: char, to: Seq<char>) -> Seq<char>
    decreases text.len(),
{
    if text.len() == 0 {
        Seq::empty()
    } else if text.last() == from {
        replaced(text.drop_last(), from, to) + to
    } else {
        replaced(text.drop_last(), from, to).push(text.last())
    }
}

/// `str::replace` with a character as the pattern: every occurrence of
/// `from` gives way to `to`, and the rest stays.
#[verifier::external_body]
pub(crate) fn replace_char(text: &str, from: char, to: &str) -> (r: String)
    ensures
        r@ == replaced(text@, from, to@),
{
    text.replace(from, to)
}

/// Whether `left` comes before `right` when texts are ordered character
/// by character from the left, a text coming before each of its proper
/// extensions.
pub open spec fn text_precedes(left: Seq<char>, right: Seq<char>) -> bool
    decreases left.len(),
{
    if right.len() == 0 {
        false
    } else if left.len() == 0 {
        true
    } else if left[0] != right[0] {
        (left[0] as int) < (right[0] as int)
    } else {
        text_precedes(left.drop_first(), right.drop_first())
    }
}

/// `<` on `str`: the lexicographic order of the texts, which on UTF-8
/// bytes is the same as on characters.
#[verifier::external_body]
pub(crate) fn str_lt(left: &str, right: &str) -> (r: bool)
    ensures
        r == text_precedes(left@, right@),
{
    left < right
}

/// The characters of `text`, one by one.
pub fn chars_of(text: &str) -> (r: Vec<char>)
    ensures
        r@ == text@,
{
    let mut iter = text.chars();
    let mut out: Vec<char> = Vec::new();
    loop
        invariant
            iter.obeys_prophetic_iter_laws(),
            iter.decrease() is Some,
            out@ + iter.remaining() == text@,
        ensures
            out@ == text@,
        decreases iter.decrease()->0,
    {
        let ghost before = iter;
        match iter.next() {
            Some(c) => {
                out.push(c);
                assert(out@ + iter.remaining() =~= (out@.drop_last() + before.remaining()));
            },
            None => {
                assert(out@ + iter.remaining() =~= out@);
                break;
            },
        }
    }
    out
}

} // verus!
