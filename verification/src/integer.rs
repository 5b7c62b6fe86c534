//! Reading integer literals: binary, octal, decimal and hexadecimal.

use crate::strings::{replace_char, replaced};
use vstd::prelude::*;
use vstd::string::StringSliceAdditionalSpecFns;
use vstd::utf8::{decode_utf8, is_char_boundary};

verus! {

/// Why a text is not an integer.
#[derive(Clone, Copy, Debug, PartialEq, Eq, Structural)]
pub enum ParseIntError {
    /// There is no text at all.
    Empty,
    /// A character is not a digit of the radix, or a sign stands alone.
    InvalidDigit,
    /// The number is too large for the type.
    PosOverflow,
    /// The number is too small for the type.
    NegOverflow,
}

/// The value of `c` as a digit in `radix`: `0` to `9`, then the letters
/// in either case for ten and up.
pub open spec fn digit_of(c: char, radix: nat) -> Option<nat> {
    let value: nat = if '0' <= c <= '9' {
        (c as nat - '0' as nat) as nat
    } else if 'a' <= c <= 'z' {
        (c as nat - 'a' as nat + 10) as nat
    } else if 'A' <= c <= 'Z' {
        (c as nat - 'A' as nat + 10) as nat
    } else {
        radix
    };
    if value < radix {
        Some(value)
    } else {
        None
    }
}

/// How many characters at the start of `text` are digits in `radix`.
pub open spec fn leading_digits(text: Seq<char>, radix: nat) -> nat
    decreases text.len(),
{
    if text.len() == 0 || digit_of(text[0], radix) is None {
        0
    } else {
        1 + leading_digits(text.drop_first(), radix)
    }
}

/// The number that the digits `text` stand for in `radix`.
pub open spec fn value_of(text: Seq<char>, radix: nat) -> nat
    decreases text.len(),
{
    if text.len() == 0 {
        0
    } else {
        value_of(text.drop_last(), radix) * radix + (match digit_of(text.last(), radix) {
            Some(digit) => digit,
            None => 0,
        })
    }
}

/// Reads `text` as a number without sign that may not exceed `limit`:
/// the digits are read from the left; the first character that is not a
/// digit ends the reading with `InvalidDigit`, unless the digits before
/// it have exceeded `limit` already, which ends it with `PosOverflow`.
pub open spec fn parse_digits(text: Seq<char>, radix: nat, limit: nat) -> Result<
    nat,
    ParseIntError,
> {
    let count = leading_digits(text, radix);
    let value = value_of(text.take(count as int), radix);
    if value > limit {
        Err(ParseIntError::PosOverflow)
    } else if count < text.len() {
        Err(ParseIntError::InvalidDigit)
    } else {
        Ok(value)
    }
}

/// Reads `text` as an `i64` in `radix`: an optional `+` or `-`, then at
/// least one digit and nothing else.
pub open spec fn parse_i64(text: Seq<char>, radix: nat) -> Result<i64, ParseIntError> {
    if text.len() == 0 {
        Err(ParseIntError::Empty)
    } else if text[0] == '-' {
        if text.len() == 1 {
            Err(ParseIntError::InvalidDigit)
        } else {
            match parse_digits(text.drop_first(), radix, 0x8000_0000_0000_0000) {
                Ok(value) => Ok((-value) as i64),
                Err(ParseIntError::PosOverflow) => Err(ParseIntError::NegOverflow),
                Err(error) => Err(error),
            }
        }
    } else {
        let body = if text[0] == '+' {
            text.drop_first()
        } else {
            text
        };
        if body.len() == 0 {
            Err(ParseIntError::InvalidDigit)
        } else {
            match parse_digits(body, radix, 0x7fff_ffff_ffff_ffff) {
                Ok(value) => Ok(value as i64),
                Err(error) => Err(error),
            }
        }
    }
}

/// Whether `text` is a `usize` in decimal: an optional `+`, then at
/// least one digit and nothing else, and a value within the type.
pub open spec fn is_usize_text(text: Seq<char>) -> bool {
    let body = if text.len() > 0 && text[0] == '+' {
        text.drop_first()
    } else {
        text
    };
    body.len() > 0 && parse_digits(body, 10, usize::MAX as nat) is Ok
}

/// A longer run of digits stands for no smaller a number.
pub proof fn lemma_value_grows(text: Seq<char>, radix: nat, shorter: int, longer: int)
    requires
        radix >= 1,
        0 <= shorter <= longer <= text.len(),
    ensures
        value_of(text.take(shorter), radix) <= value_of(text.take(longer), radix),
    decreases longer - shorter,
{
    if shorter < longer {
        lemma_value_grows(text, radix, shorter, longer - 1);
        assert(text.take(longer).drop_last() =~= text.take(longer - 1));
        let before = value_of(text.take(longer - 1), radix);
        assert(before * radix >= before) by (nonlinear_arith)
            requires
                radix >= 1,
                before >= 0,
        ;
    }
}

/// Where the leading digits end: all characters before are digits, and
/// the one at that place, if there is one, is not.
pub proof fn lemma_leading_digits(text: Seq<char>, radix: nat)
    ensures
        leading_digits(text, radix) <= text.len(),
        forall|i: int|
            0 <= i < leading_digits(text, radix) ==> digit_of(#[trigger] text[i], radix) is Some,
        leading_digits(text, radix) < text.len() ==> digit_of(
            text[leading_digits(text, radix) as int],
            radix,
        ) is None,
    decreases text.len(),
{
    if text.len() > 0 && digit_of(text[0], radix) is Some {
        let rest = text.drop_first();
        lemma_leading_digits(rest, radix);
        assert forall|i: int| 0 <= i < leading_digits(text, radix) implies digit_of(
            #[trigger] text[i],
            radix,
        ) is Some by {
            if i > 0 {
                assert(rest[i - 1] == text[i]);
            }
        }
    }
}

/// The leading digits end at the first character that is not a digit.
pub proof fn lemma_leading_digits_at(text: Seq<char>, radix: nat, at: int)
    requires
        0 <= at <= text.len(),
        forall|i: int| 0 <= i < at ==> digit_of(#[trigger] text[i], radix) is Some,
        at < text.len() ==> digit_of(text[at], radix) is None,
    ensures
        leading_digits(text, radix) == at,
    decreases text.len(),
{
    if text.len() > 0 && at > 0 {
        let rest = text.drop_first();
        assert(digit_of(text[0], radix) is Some);
        assert forall|i: int| 0 <= i < at - 1 implies digit_of(#[trigger] rest[i], radix) is Some by {
            assert(rest[i] == text[i + 1]);
        }
        lemma_leading_digits_at(rest, radix, at - 1);
    }
}

/// Reads `c` as a digit in `radix`.
pub fn to_digit(c: char, radix: u32) -> (r: Option<u32>)
    requires
        2 <= radix <= 36,
    ensures
        r is Some == digit_of(c, radix as nat) is Some,
        r matches Some(digit) ==> digit_of(c, radix as nat) == Some(digit as nat),
{
    let code: u32 = c as u32;
    let value: u32 = if 48 <= code && code <= 57 {
        code - 48
    } else if 97 <= code && code <= 122 {
        code - 97 + 10
    } else if 65 <= code && code <= 90 {
        code - 65 + 10
    } else {
        radix
    };
    if value < radix {
        Some(value)
    } else {
        None
    }
}

/// Reads the characters of `text` from `start` on as a number without
/// sign that may not exceed `limit`.
fn read_digits(text: &Vec<char>, start: usize, radix: u32, limit: u64) -> (r: Result<
    u64,
    ParseIntError,
>)
    requires
        2 <= radix <= 36,
        start <= text@.len(),
        limit <= 0x8000_0000_0000_0000,
    ensures
        r is Ok == parse_digits(text@.skip(start as int), radix as nat, limit as nat) is Ok,
        r matches Ok(value) ==> parse_digits(text@.skip(start as int), radix as nat, limit as nat)
            == Ok::<nat, ParseIntError>(value as nat),
        r matches Err(error) ==> parse_digits(
            text@.skip(start as int),
            radix as nat,
            limit as nat,
        ) == Err::<nat, ParseIntError>(error),
{
    let ghost body = text@.skip(start as int);
    let n: usize = text.len();
    let mut value: u64 = 0;
    let mut i: usize = start;
    assert(body.take(0) =~= Seq::<char>::empty());
    while i < n
        invariant
            n == text@.len(),
            start <= i <= n,
            body == text@.skip(start as int),
            2 <= radix <= 36,
            limit <= 0x8000_0000_0000_0000,
            forall|j: int| 0 <= j < i - start ==> digit_of(#[trigger] body[j], radix as nat) is Some,
            value == value_of(body.take(i - start), radix as nat),
            value <= limit,
        decreases n - i,
    {
        let c = text[i];
        assert(body[i - start] == c);
        match to_digit(c, radix) {
            None => {
                proof {
                    lemma_leading_digits_at(body, radix as nat, i - start);
                }
                return Err(ParseIntError::InvalidDigit);
            },
            Some(digit) => {
                assert(value * radix <= 0x8000_0000_0000_0000 * 36) by (nonlinear_arith)
                    requires
                        value <= 0x8000_0000_0000_0000,
                        radix <= 36,
                ;
                let wide: u128 = value as u128 * radix as u128 + digit as u128;
                proof {
                    assert(body.take(i - start + 1).drop_last() =~= body.take(i - start));
                    assert(body.take(i - start + 1).last() == c);
                    assert(wide == value_of(body.take(i - start + 1), radix as nat));
                }
                if wide > limit as u128 {
                    proof {
                        lemma_leading_digits(body, radix as nat);
                        let count = leading_digits(body, radix as nat) as int;
                        if count < i - start + 1 {
                            assert(digit_of(body[count], radix as nat) is None);
                        }
                        lemma_value_grows(body, radix as nat, i - start + 1, count);
                    }
                    return Err(ParseIntError::PosOverflow);
                }
                value = wide as u64;
            },
        }
        i += 1;
    }
    proof {
        lemma_leading_digits_at(body, radix as nat, body.len() as int);
        assert(body.take(body.len() as int) =~= body);
    }
    Ok(value)
}

/// Reads `text` as an `i64` in `radix`.
pub fn parse_i64_radix(text: &str, radix: u32) -> (r: Result<i64, ParseIntError>)
    requires
        2 <= radix <= 36,
    ensures
        r == parse_i64(text@, radix as nat),
{
    let chars = crate::strings::chars_of(text);
    let text = &chars;
    let n: usize = text.len();
    if n == 0 {
        return Err(ParseIntError::Empty);
    }
    let first = text[0];
    assert(text@.skip(1) =~= text@.drop_first());
    assert(text@.skip(0) =~= text@);
    if first == '-' {
        if n == 1 {
            return Err(ParseIntError::InvalidDigit);
        }
        match read_digits(text, 1, radix, 0x8000_0000_0000_0000) {
            Ok(value) => {
                if value == 0x8000_0000_0000_0000 {
                    Ok(i64::MIN)
                } else {
                    Ok(-(value as i64))
                }
            },
            Err(ParseIntError::PosOverflow) => Err(ParseIntError::NegOverflow),
            Err(error) => Err(error),
        }
    } else {
        let start: usize = if first == '+' {
            1
        } else {
            0
        };
        if start == n {
            return Err(ParseIntError::InvalidDigit);
        }
        match read_digits(text, start, radix, 0x7fff_ffff_ffff_ffff) {
            Ok(value) => Ok(value as i64),
            Err(error) => Err(error),
        }
    }
}

/// Decides whether `text` is a `usize` in decimal.
pub fn is_usize(text: &str) -> (r: bool)
    ensures
        r == is_usize_text(text@),
{
    let letters = crate::strings::chars_of(text);
    let n: usize = letters.len();
    if n == 0 {
        return false;
    }
    let first = letters[0];
    assert(text@.skip(1) =~= text@.drop_first());
    assert(text@.skip(0) =~= text@);
    let start: usize = if first == '+' {
        1
    } else {
        0
    };
    if start == n {
        return false;
    }
    let ghost body = text@.skip(start as int);
    assert(body == if text@.len() > 0 && text@[0] == '+' {
        text@.drop_first()
    } else {
        text@
    });
    let mut value: usize = 0;
    let mut i: usize = start;
    assert(body.take(0) =~= Seq::<char>::empty());
    while i < n
        invariant
            letters@ == text@,
            n == text@.len(),
            start <= i <= n,
            body == text@.skip(start as int),
            body.len() > 0,
            body == if text@.len() > 0 && text@[0] == '+' {
                text@.drop_first()
            } else {
                text@
            },
            forall|j: int| 0 <= j < i - start ==> digit_of(#[trigger] body[j], 10) is Some,
            value == value_of(body.take(i - start), 10),
        decreases n - i,
    {
        let c = letters[i];
        assert(body[i - start] == c);
        match to_digit(c, 10) {
            None => {
                proof {
                    lemma_leading_digits_at(body, 10, i - start);
                    assert(leading_digits(body, 10) < body.len());
                    assert(parse_digits(body, 10, usize::MAX as nat) is Err);
                }
                return false;
            },
            Some(digit) => {
                proof {
                    assert(body.take(i - start + 1).drop_last() =~= body.take(i - start));
                    assert(body.take(i - start + 1).last() == c);
                    assert(value_of(body.take(i - start + 1), 10) == value * 10 + digit);
                }
                let next = match value.checked_mul(10) {
                    Some(scaled) => scaled.checked_add(digit as usize),
                    None => None,
                };
                match next {
                    Some(next) => {
                        value = next;
                    },
                    None => {
                        proof {
                            lemma_leading_digits(body, 10);
                            let count = leading_digits(body, 10) as int;
                            if count < i - start + 1 {
                                assert(digit_of(body[count], 10) is None);
                            }
                            lemma_value_grows(body, 10, i - start + 1, count);
                            assert(value_of(body.take(i - start + 1), 10) > usize::MAX);
                            assert(parse_digits(body, 10, usize::MAX as nat) is Err);
                        }
                        return false;
                    },
                }
            },
        }
        i += 1;
    }
    proof {
        lemma_leading_digits_at(body, 10, body.len() as int);
        assert(body.take(body.len() as int) =~= body);
    }
    true
}

/// The text behind the two bytes that mark the radix of a literal, if
/// `value` is that long and its third byte starts a character.
pub open spec fn after_prefix(value: &str) -> Option<Seq<char>> {
    let bytes = value.spec_bytes();
    if bytes.len() >= 2 && is_char_boundary(bytes, 2) {
        Some(decode_utf8(bytes.subrange(2, bytes.len() as int)))
    } else {
        None
    }
}

/// What a literal with a two-byte radix mark stands for: the digits
/// behind the mark, without the underscores that group them, read in
/// `radix`. A text too short to hold the mark has no digits.
pub open spec fn parse_prefixed(value: &str, radix: nat) -> Result<i64, ParseIntError> {
    match after_prefix(value) {
        Some(digits) => parse_i64(replaced(digits, '_', Seq::empty()), radix),
        None => Err(ParseIntError::Empty),
    }
}

/// Reads the digits of `value` behind its two-byte radix mark.
fn try_from_prefixed(value: &str, radix: u32) -> (r: Result<i64, ParseIntError>)
    requires
        2 <= radix <= 36,
    ensures
        r == parse_prefixed(value, radix as nat),
{
    if value.as_bytes().len() < 2 || !value.is_char_boundary(2) {
        return Err(ParseIntError::Empty);
    }
    let (_, digits) = value.split_at(2);
    proof {
        vstd::utf8::encode_utf8_decode_utf8(digits@);
        reveal_strlit("");
        assert(""@ =~= Seq::<char>::empty());
        assert(digits.spec_bytes() == value.spec_bytes().subrange(
            2,
            value.spec_bytes().len() as int,
        ));
        assert(after_prefix(value) == Some(digits@));
    }
    let plain = replace_char(digits, '_', "");
    parse_i64_radix(plain.as_str(), radix)
}

/// Parse a binary integer literal (base 2), such as `0b1010_0101`.
pub fn try_from_binary(value: &str) -> (r: Result<i64, ParseIntError>)
    ensures
        r == parse_prefixed(value, 2),
{
    try_from_prefixed(value, 2)
}

/// Parse an octal integer literal (base 8), such as `0o755`.
pub fn try_from_octal(value: &str) -> (r: Result<i64, ParseIntError>)
    ensures
        r == parse_prefixed(value, 8),
{
    try_from_prefixed(value, 8)
}

/// Parse a decimal integer literal (base 10), such as `1_000`.
pub fn try_from_decimal(value: &str) -> (r: Result<i64, ParseIntError>)
    ensures
        r == parse_i64(replaced(value@, '_', Seq::empty()), 10),
{
    proof {
        reveal_strlit("");
        assert(""@ =~= Seq::<char>::empty());
    }
    let plain = replace_char(value, '_', "");
    parse_i64_radix(plain.as_str(), 10)
}

/// Parse a hexadecimal integer literal (base 16), such as `0xDEAD_BEEF`.
pub fn try_from_hexadecimal(value: &str) -> (r: Result<i64, ParseIntError>)
    ensures
        r == parse_prefixed(value, 16),
{
    try_from_prefixed(value, 16)
}

} // verus!
