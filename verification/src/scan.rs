//! Recognizing the words of TOML: numbers, dates and times.

use crate::integer::{digit_of, to_digit};
use vstd::prelude::*;

verus! {

/// Whether `c` is a digit in `radix`.
pub open spec fn is_digit(c: char, radix: nat) -> bool {
    digit_of(c, radix) is Some
}

/// Decides `is_digit`.
pub fn check_digit(c: char, radix: u32) -> (r: bool)
    requires
        2 <= radix <= 36,
    ensures
        r == is_digit(c, radix as nat),
{
    to_digit(c, radix).is_some()
}

/// Whether `c` may stand in a bare key: a letter, a digit, `_` or `-`.
pub open spec fn is_word_char(c: char) -> bool {
    ('a' <= c <= 'z') || ('A' <= c <= 'Z') || ('0' <= c <= '9') || c == '_' || c == '-'
}

/// Decides `is_word_char`.
pub fn check_word_char(c: char) -> (r: bool)
    ensures
        r == is_word_char(c),
{
    ('a' <= c && c <= 'z') || ('A' <= c && c <= 'Z') || ('0' <= c && c <= '9') || c == '_' || c
        == '-'
}

/// The piece of `word` from `from` up to `to`.
pub fn slice_of(word: &Vec<char>, from: usize, to: usize) -> (r: Vec<char>)
    requires
        from <= to <= word.len(),
    ensures
        r@ == word@.subrange(from as int, to as int),
{
    let mut out: Vec<char> = Vec::new();
    let mut i: usize = from;
    while i < to
        invariant
            from <= i <= to <= word.len(),
            out@ == word@.subrange(from as int, i as int),
        decreases to - i,
    {
        out.push(word[i]);
        assert(word@.subrange(from as int, i + 1) =~= word@.subrange(from as int, i as int).push(
            word@[i as int],
        ));
        i += 1;
    }
    out
}

/// Digits in `radix`, with single underscores allowed between them.
pub open spec fn grouped_digits(word: Seq<char>, radix: nat) -> bool {
    &&& word.len() > 0
    &&& forall|i: int|
        0 <= i < word.len() ==> is_digit(#[trigger] word[i], radix) || (word[i] == '_' && 0 < i
            < word.len() - 1 && is_digit(word[i - 1], radix) && is_digit(word[i + 1], radix))
}

/// Decides `grouped_digits` for the piece of `word` from `from` to `to`.
pub fn check_grouped_digits(word: &Vec<char>, from: usize, to: usize, radix: u32) -> (r: bool)
    requires
        2 <= radix <= 36,
        from <= to <= word.len(),
    ensures
        r == grouped_digits(word@.subrange(from as int, to as int), radix as nat),
{
    let ghost piece = word@.subrange(from as int, to as int);
    if from == to {
        return false;
    }
    let mut i: usize = from;
    while i < to
        invariant
            from <= i <= to <= word.len(),
            from < to,
            2 <= radix <= 36,
            piece == word@.subrange(from as int, to as int),
            forall|j: int|
                0 <= j < i - from ==> is_digit(#[trigger] piece[j], radix as nat) || (piece[j]
                    == '_' && 0 < j < piece.len() - 1 && is_digit(piece[j - 1], radix as nat)
                    && is_digit(piece[j + 1], radix as nat)),
        decreases to - i,
    {
        let c = word[i];
        assert(piece[i - from] == c);
        if !check_digit(c, radix) {
            let fine = c == '_' && from < i && i + 1 < to && check_digit(word[i - 1], radix)
                && check_digit(word[i + 1], radix);
            proof {
                if from < i {
                    assert(piece[i - from - 1] == word@[i - 1]);
                }
                if i + 1 < to {
                    assert(piece[i - from + 1] == word@[i + 1]);
                }
            }
            if !fine {
                return false;
            }
        }
        i += 1;
    }
    true
}

/// Decimal digits and nothing else, at least one.
pub open spec fn plain_digits(word: Seq<char>) -> bool {
    &&& word.len() > 0
    &&& forall|i: int| 0 <= i < word.len() ==> is_digit(#[trigger] word[i], 10)
}

/// Decides `plain_digits` for the piece of `word` from `from` to `to`.
pub fn check_plain_digits(word: &Vec<char>, from: usize, to: usize) -> (r: bool)
    requires
        from <= to <= word.len(),
    ensures
        r == plain_digits(word@.subrange(from as int, to as int)),
{
    let ghost piece = word@.subrange(from as int, to as int);
    if from == to {
        return false;
    }
    let mut i: usize = from;
    while i < to
        invariant
            from <= i <= to <= word.len(),
            from < to,
            piece == word@.subrange(from as int, to as int),
            forall|j: int| 0 <= j < i - from ==> is_digit(#[trigger] piece[j], 10),
        decreases to - i,
    {
        assert(piece[i - from] == word@[i as int]);
        if !check_digit(word[i], 10) {
            return false;
        }
        i += 1;
    }
    true
}

/// `word` without the sign in front of it, if there is one.
pub open spec fn unsigned_part(word: Seq<char>) -> Seq<char> {
    if word.len() > 0 && (word[0] == '+' || word[0] == '-') {
        word.drop_first()
    } else {
        word
    }
}

/// Where the piece of `word` from `from` to `to` goes on behind its
/// sign, if it has one.
pub fn skip_sign(word: &Vec<char>, from: usize, to: usize) -> (r: usize)
    requires
        from <= to <= word.len(),
    ensures
        from <= r <= to,
        word@.subrange(r as int, to as int) == unsigned_part(
            word@.subrange(from as int, to as int),
        ),
{
    let ghost piece = word@.subrange(from as int, to as int);
    if from < to && (word[from] == '+' || word[from] == '-') {
        assert(piece[0] == word@[from as int]);
        assert(word@.subrange(from + 1, to as int) =~= piece.drop_first());
        from + 1
    } else {
        if from < to {
            assert(piece[0] == word@[from as int]);
        }
        from
    }
}

/// A decimal number without sign: digits, possibly grouped, and no zero
/// in front of other digits.
pub open spec fn decimal_body(word: Seq<char>) -> bool {
    grouped_digits(word, 10) && (word.len() == 1 || word[0] != '0')
}

/// Decides `decimal_body` for the piece of `word` from `from` to `to`.
pub fn check_decimal_body(word: &Vec<char>, from: usize, to: usize) -> (r: bool)
    requires
        from <= to <= word.len(),
    ensures
        r == decimal_body(word@.subrange(from as int, to as int)),
{
    if !check_grouped_digits(word, from, to, 10) {
        return false;
    }
    assert(word@.subrange(from as int, to as int)[0] == word@[from as int]);
    to - from == 1 || word[from] != '0'
}

/// A decimal integer: an optional sign and a decimal number.
pub open spec fn is_decimal_integer(word: Seq<char>) -> bool {
    decimal_body(unsigned_part(word))
}

/// An integer in another radix: `0`, the letter of the radix, and
/// digits, possibly grouped.
pub open spec fn is_prefixed_integer(word: Seq<char>, letter: char, radix: nat) -> bool {
    word.len() > 2 && word[0] == '0' && word[1] == letter && grouped_digits(word.skip(2), radix)
}

/// Decides `is_prefixed_integer`.
pub fn check_prefixed_integer(word: &Vec<char>, letter: char, radix: u32) -> (r: bool)
    requires
        2 <= radix <= 36,
    ensures
        r == is_prefixed_integer(word@, letter, radix as nat),
{
    if word.len() > 2 && word[0] == '0' && word[1] == letter {
        assert(word@.subrange(2, word.len() as int) =~= word@.skip(2));
        check_grouped_digits(word, 2, word.len(), radix)
    } else {
        false
    }
}

/// The place of the first `e` or `E` in `word` from `from` on, or the
/// length of `word` if there is none.
pub open spec fn exponent_at(word: Seq<char>, from: int) -> int
    decreases word.len() - from,
{
    if from < 0 || from >= word.len() || word[from] == 'e' || word[from] == 'E' {
        from
    } else {
        exponent_at(word, from + 1)
    }
}

/// The place of the first `.` in `word` from `from` on and in front of
/// `to`, or `to` if there is none.
pub open spec fn point_at(word: Seq<char>, from: int, to: int) -> int
    decreases to - from,
{
    if from < 0 || from >= to || word[from] == '.' {
        from
    } else {
        point_at(word, from + 1, to)
    }
}

proof fn lemma_exponent_at(word: Seq<char>, from: int)
    requires
        0 <= from <= word.len(),
    ensures
        from <= exponent_at(word, from) <= word.len(),
    decreases word.len() - from,
{
    if from < word.len() && !(word[from] == 'e' || word[from] == 'E') {
        lemma_exponent_at(word, from + 1);
    }
}

proof fn lemma_point_at(word: Seq<char>, from: int, to: int)
    requires
        0 <= from <= to <= word.len(),
    ensures
        from <= point_at(word, from, to) <= to,
    decreases to - from,
{
    if from < to && word[from] != '.' {
        lemma_point_at(word, from + 1, to);
    }
}

/// A floating-point number without sign that is written with digits: a
/// decimal number, then a fraction behind a point, an exponent behind
/// an `e`, or both.
pub open spec fn float_body(word: Seq<char>) -> bool {
    let e = exponent_at(word, 0);
    let d = point_at(word, 0, e);
    &&& decimal_body(word.subrange(0, d))
    &&& d < e ==> grouped_digits(word.subrange(d + 1, e), 10)
    &&& e < word.len() ==> grouped_digits(
        unsigned_part(word.subrange(e + 1, word.len() as int)),
        10,
    )
    &&& d < e || e < word.len()
}

/// A floating-point number: an optional sign, and `inf`, `nan` or a
/// number written with digits.
pub open spec fn is_float(word: Seq<char>) -> bool {
    let body = unsigned_part(word);
    body == seq!['i', 'n', 'f'] || body == seq!['n', 'a', 'n'] || float_body(body)
}

/// Decides whether the piece of `word` from `from` on is the three
/// characters given.
fn is_three(word: &Vec<char>, from: usize, a: char, b: char, c: char) -> (r: bool)
    requires
        from <= word.len(),
    ensures
        r == (word@.subrange(from as int, word.len() as int) == seq![a, b, c]),
{
    let ghost piece = word@.subrange(from as int, word.len() as int);
    if word.len() - from == 3 {
        assert(piece[0] == word@[from as int]);
        assert(piece[1] == word@[from + 1]);
        assert(piece[2] == word@[from + 2]);
        let r = word[from] == a && word[from + 1] == b && word[from + 2] == c;
        if r {
            assert(piece =~= seq![a, b, c]);
        }
        r
    } else {
        assert(seq![a, b, c].len() == 3);
        false
    }
}

/// Decides `is_float`.
pub fn check_float(word: &Vec<char>) -> (r: bool)
    ensures
        r == is_float(word@),
{
    let n: usize = word.len();
    let start = skip_sign(word, 0, n);
    assert(word@.subrange(0, n as int) =~= word@);
    let ghost body = word@.subrange(start as int, n as int);
    if is_three(word, start, 'i', 'n', 'f') || is_three(word, start, 'n', 'a', 'n') {
        return true;
    }
    let body_vec = slice_of(word, start, n);
    let m: usize = body_vec.len();
    let mut e: usize = 0;
    while e < m && !(body_vec[e] == 'e' || body_vec[e] == 'E')
        invariant
            e <= m == body_vec.len(),
            exponent_at(body_vec@, 0) == exponent_at(body_vec@, e as int),
        decreases m - e,
    {
        e += 1;
    }
    let mut d: usize = 0;
    while d < e && body_vec[d] != '.'
        invariant
            d <= e <= m == body_vec.len(),
            point_at(body_vec@, 0, e as int) == point_at(body_vec@, d as int, e as int),
        decreases e - d,
    {
        d += 1;
    }
    if !check_decimal_body(&body_vec, 0, d) {
        return false;
    }
    if d < e && !check_grouped_digits(&body_vec, d + 1, e, 10) {
        return false;
    }
    if e < m {
        let exponent = skip_sign(&body_vec, e + 1, m);
        if !check_grouped_digits(&body_vec, exponent, m, 10) {
            return false;
        }
    }
    d < e || e < m
}

/// Decides `is_decimal_integer`.
pub fn check_decimal_integer(word: &Vec<char>) -> (r: bool)
    ensures
        r == is_decimal_integer(word@),
{
    let n: usize = word.len();
    let start = skip_sign(word, 0, n);
    assert(word@.subrange(0, n as int) =~= word@);
    check_decimal_body(word, start, n)
}

/// The number that the two digits of `word` at `at` stand for, if they
/// are digits.
pub open spec fn two_digits(word: Seq<char>, at: int) -> Option<nat> {
    if 0 <= at && at + 1 < word.len() && is_digit(word[at], 10) && is_digit(word[at + 1], 10) {
        Some(digit_of(word[at], 10)->Some_0 * 10 + digit_of(word[at + 1], 10)->Some_0)
    } else {
        None
    }
}

/// Reads `two_digits`.
pub fn read_two_digits(word: &Vec<char>, at: usize) -> (r: Option<u32>)
    ensures
        r is Some == two_digits(word@, at as int) is Some,
        r matches Some(value) ==> two_digits(word@, at as int) == Some(value as nat),
{
    if at < word.len() && at + 1 < word.len() {
        match (to_digit(word[at], 10), to_digit(word[at + 1], 10)) {
            (Some(high), Some(low)) => Some(high * 10 + low),
            _ => None,
        }
    } else {
        None
    }
}

/// A date at `at`: four digits of a year, two of a month from 1 to 12
/// and two of a day from 1 to 31, with `-` between them.
pub open spec fn date_at(word: Seq<char>, at: int) -> bool {
    &&& 0 <= at && at + 10 <= word.len()
    &&& two_digits(word, at) is Some
    &&& two_digits(word, at + 2) is Some
    &&& word[at + 4] == '-'
    &&& two_digits(word, at + 5) matches Some(month) && 1 <= month <= 12
    &&& word[at + 7] == '-'
    &&& two_digits(word, at + 8) matches Some(day) && 1 <= day <= 31
}

/// Decides `date_at`.
pub fn check_date_at(word: &Vec<char>, at: usize) -> (r: bool)
    ensures
        r == date_at(word@, at as int),
{
    if word.len() < 10 || at > word.len() - 10 {
        return false;
    }
    if read_two_digits(word, at).is_none() || read_two_digits(word, at + 2).is_none() {
        return false;
    }
    if word[at + 4] != '-' || word[at + 7] != '-' {
        return false;
    }
    match (read_two_digits(word, at + 5), read_two_digits(word, at + 8)) {
        (Some(month), Some(day)) => 1 <= month && month <= 12 && 1 <= day && day <= 31,
        _ => false,
    }
}

/// A time from `at` up to `to`: two digits each of an hour up to 23, a
/// minute and a second up to 59, with `:` between them, and behind them
/// either nothing or a point and digits.
pub open spec fn time_at(word: Seq<char>, at: int, to: int) -> bool {
    &&& 0 <= at && at + 8 <= to <= word.len()
    &&& two_digits(word, at) matches Some(hour) && hour <= 23
    &&& word[at + 2] == ':'
    &&& two_digits(word, at + 3) matches Some(minute) && minute <= 59
    &&& word[at + 5] == ':'
    &&& two_digits(word, at + 6) matches Some(second) && second <= 59
    &&& at + 8 == to || (word[at + 8] == '.' && plain_digits(word.subrange(at + 9, to)))
}

/// Decides `time_at`.
pub fn check_time_at(word: &Vec<char>, at: usize, to: usize) -> (r: bool)
    ensures
        r == time_at(word@, at as int, to as int),
{
    if to > word.len() || to < 8 || at > to - 8 {
        return false;
    }
    if word[at + 2] != ':' || word[at + 5] != ':' {
        return false;
    }
    let fields = match (
        read_two_digits(word, at),
        read_two_digits(word, at + 3),
        read_two_digits(word, at + 6),
    ) {
        (Some(hour), Some(minute), Some(second)) => hour <= 23 && minute <= 59 && second <= 59,
        _ => false,
    };
    if !fields {
        return false;
    }
    if at + 8 == to {
        true
    } else {
        word[at + 8] == '.' && check_plain_digits(word, at + 9, to)
    }
}

/// A date, `T` or `t`, and a time up to `to`.
pub open spec fn date_time_until(word: Seq<char>, to: int) -> bool {
    &&& 19 <= to <= word.len()
    &&& date_at(word, 0)
    &&& (word[10] == 'T' || word[10] == 't')
    &&& time_at(word, 11, to)
}

/// Decides `date_time_until`.
pub fn check_date_time_until(word: &Vec<char>, to: usize) -> (r: bool)
    ensures
        r == date_time_until(word@, to as int),
{
    if to < 19 || to > word.len() {
        return false;
    }
    check_date_at(word, 0) && (word[10] == 'T' || word[10] == 't') && check_time_at(word, 11, to)
}

/// A local date: a date and nothing else.
pub open spec fn is_local_date(word: Seq<char>) -> bool {
    word.len() == 10 && date_at(word, 0)
}

/// A local time: a time and nothing else.
pub open spec fn is_local_time(word: Seq<char>) -> bool {
    time_at(word, 0, word.len() as int)
}

/// A local date-time: a date, `T` or `t`, a time and nothing else.
pub open spec fn is_local_date_time(word: Seq<char>) -> bool {
    date_time_until(word, word.len() as int)
}

/// An offset date-time: a date, a time and an offset, which is `Z`, `z`,
/// or a sign with two digits of hours up to 23, `:` and two digits of
/// minutes up to 59.
pub open spec fn is_offset_date_time(word: Seq<char>) -> bool {
    let n = word.len() as int;
    ||| (n >= 20 && (word[n - 1] == 'Z' || word[n - 1] == 'z') && date_time_until(word, n - 1))
    ||| {
        &&& n >= 25
        &&& (word[n - 6] == '+' || word[n - 6] == '-')
        &&& two_digits(word, n - 5) matches Some(hour) && hour <= 23
        &&& word[n - 3] == ':'
        &&& two_digits(word, n - 2) matches Some(minute) && minute <= 59
        &&& date_time_until(word, n - 6)
    }
}

/// Decides `is_offset_date_time`.
pub fn check_offset_date_time(word: &Vec<char>) -> (r: bool)
    ensures
        r == is_offset_date_time(word@),
{
    let n: usize = word.len();
    if n >= 20 && (word[n - 1] == 'Z' || word[n - 1] == 'z') && check_date_time_until(
        word,
        n - 1,
    ) {
        return true;
    }
    if n >= 25 && (word[n - 6] == '+' || word[n - 6] == '-') && word[n - 3] == ':' {
        let offset = match (read_two_digits(word, n - 5), read_two_digits(word, n - 2)) {
            (Some(hour), Some(minute)) => hour <= 23 && minute <= 59,
            _ => false,
        };
        offset && check_date_time_until(word, n - 6)
    } else {
        false
    }
}

} // verus!
