//! Dates and times as TOML knows them.

use crate::scan::{check_time_at, is_local_time, read_two_digits, two_digits};
use crate::strings::{chars_of, decimal_string, digits, push_char};
use chrono::{NaiveTime, Timelike};
use core::cmp::Ordering;
use vstd::prelude::*;
use vstd::std_specs::cmp::PartialOrdSpecImpl;
use vstd::std_specs::convert::FromSpecImpl;
use vstd::string::StringExecFns;

verus! {

/// A calendar date.
#[derive(Clone, Copy, Debug, PartialEq, Eq, Structural, Hash)]
pub struct Date {
    pub year: u16,
    pub month: u8,
    pub day: u8,
}

/// A time of day.
#[derive(Clone, Copy, Debug, PartialEq, Eq, Structural, Ord, Hash)]
pub struct Time {
    pub hour: u8,
    pub minute: u8,
    pub second: u8,
    pub nanosecond: u32,
}

/// The distance of a time zone from UTC.
#[derive(Clone, Copy, Debug, PartialEq, Eq, Structural, Hash)]
pub enum TimeZoneOffset {
    Z,
    Custom { minutes: i16 },
}

/// What a date-time literal holds: each part is there or not.
#[derive(Clone, Copy, Debug, PartialEq, Eq, Structural, Hash)]
pub struct DateTime {
    pub date: Option<Date>,
    pub time: Option<Time>,
    pub offset: Option<TimeZoneOffset>,
}

/// Why a text is not the date-time literal that was asked for.
#[derive(Clone, Copy, Debug, PartialEq, Eq, Structural)]
pub enum Error {
    ExpectedOffsetDateTime,
    ExpectedLocalDateTime,
    ExpectedLocalDate,
    ExpectedLocalTime,
}

impl Time {
    /// `self` is the earlier time of the day.
    pub open spec fn precedes(self, other: Self) -> bool {
        self.hour < other.hour || (self.hour == other.hour && (self.minute < other.minute || (
        self.minute == other.minute && (self.second < other.second || (self.second
            == other.second && self.nanosecond < other.nanosecond)))))
    }

    /// Decides `precedes`.
    pub fn is_before(&self, other: &Self) -> (r: bool)
        ensures
            r == self.precedes(*other),
    {
        self.hour < other.hour || (self.hour == other.hour && (self.minute < other.minute || (
        self.minute == other.minute && (self.second < other.second || (self.second
            == other.second && self.nanosecond < other.nanosecond)))))
    }
}

impl PartialOrd for Time {
    fn partial_cmp(&self, other: &Self) -> (r: Option<Ordering>) {
        if self.is_before(other) {
            Some(Ordering::Less)
        } else if self.hour == other.hour && self.minute == other.minute && self.second
            == other.second && self.nanosecond == other.nanosecond {
            Some(Ordering::Equal)
        } else {
            Some(Ordering::Greater)
        }
    }
}

impl PartialOrdSpecImpl for Time {
    open spec fn obeys_partial_cmp_spec() -> bool {
        true
    }

    open spec fn partial_cmp_spec(&self, other: &Self) -> Option<Ordering> {
        if self.precedes(*other) {
            Some(Ordering::Less)
        } else if *self == *other {
            Some(Ordering::Equal)
        } else {
            Some(Ordering::Greater)
        }
    }
}

/// A time of day without a date and without an offset.
#[derive(Clone, Copy, Debug, PartialEq, Eq, Structural, Ord, Hash)]
pub struct LocalTime(pub Time);

impl PartialOrd for LocalTime {
    fn partial_cmp(&self, other: &Self) -> (r: Option<Ordering>) {
        if self.0.is_before(&other.0) {
            Some(Ordering::Less)
        } else if self.0.hour == other.0.hour && self.0.minute == other.0.minute
            && self.0.second == other.0.second && self.0.nanosecond == other.0.nanosecond {
            Some(Ordering::Equal)
        } else {
            Some(Ordering::Greater)
        }
    }
}

impl PartialOrdSpecImpl for LocalTime {
    open spec fn obeys_partial_cmp_spec() -> bool {
        true
    }

    open spec fn partial_cmp_spec(&self, other: &Self) -> Option<Ordering> {
        if self.0.precedes(other.0) {
            Some(Ordering::Less)
        } else if *self == *other {
            Some(Ordering::Equal)
        } else {
            Some(Ordering::Greater)
        }
    }
}

impl LocalTime {
    /// How the type is called in messages.
    #[must_use]
    pub fn type_label() -> (r: &'static str)
        ensures
            r@ == "local time"@,
    {
        "local time"
    }

    #[must_use]
    pub fn from_hms(hour: u8, minute: u8, second: u8) -> (r: Self)
        ensures
            r.0 == (Time { hour, minute, second, nanosecond: 0 }),
    {
        Self(Time { hour, minute, second, nanosecond: 0 })
    }

    #[must_use]
    pub fn from_hms_milli(hour: u8, minute: u8, second: u8, millisecond: u32) -> (r: Self)
        requires
            millisecond < 1_000,
        ensures
            r.0 == (Time { hour, minute, second, nanosecond: (millisecond * 1_000_000) as u32 }),
    {
        Self(Time { hour, minute, second, nanosecond: millisecond * 1_000_000 })
    }

    #[must_use]
    pub fn from_hms_nano(hour: u8, minute: u8, second: u8, nanosecond: u32) -> (r: Self)
        requires
            nanosecond < 1_000_000_000,
        ensures
            r.0 == (Time { hour, minute, second, nanosecond }),
    {
        Self(Time { hour, minute, second, nanosecond })
    }

    #[must_use]
    pub fn hour(&self) -> (r: u8)
        ensures
            r == self.0.hour,
    {
        self.0.hour
    }

    #[must_use]
    pub fn minute(&self) -> (r: u8)
        ensures
            r == self.0.minute,
    {
        self.0.minute
    }

    #[must_use]
    pub fn second(&self) -> (r: u8)
        ensures
            r == self.0.second,
    {
        self.0.second
    }

    #[must_use]
    pub fn nanosecond(&self) -> (r: u32)
        ensures
            r == self.0.nanosecond,
    {
        self.0.nanosecond
    }

    /// The local time that a date-time literal stands for: it is one if
    /// it holds a time and neither a date nor an offset.
    pub fn from_date_time(date_time: DateTime) -> (r: Result<Self, Error>)
        ensures
            r == (match date_time {
                DateTime { date: None, time: Some(time), offset: None } => Ok(LocalTime(time)),
                _ => Err(Error::ExpectedLocalTime),
            }),
    {
        match date_time {
            DateTime { date: None, time: Some(time), offset: None } => Ok(Self(time)),
            _ => Err(Error::ExpectedLocalTime),
        }
    }

    /// The local time with the given fields of a clock, each cut down to
    /// the width of its field.
    #[must_use]
    pub fn from_clock(hour: u32, minute: u32, second: u32, nanosecond: u32) -> (r: Self)
        ensures
            r.0 == (Time {
                hour: hour as u8,
                minute: minute as u8,
                second: second as u8,
                nanosecond,
            }),
            hour < 256 && minute < 256 && second < 256 ==> r.0.hour == hour && r.0.minute
                == minute && r.0.second == second,
    {
        Self(
            Time {
                hour: #[verifier::truncate]
                (hour as u8),
                minute: #[verifier::truncate]
                (minute as u8),
                second: #[verifier::truncate]
                (second as u8),
                nanosecond,
            },
        )
    }
}

#[verifier::external_type_specification]
#[verifier::external_body]
pub struct ExNaiveTime(NaiveTime);

/// `Timelike::hour` of a `NaiveTime`: the hour number, from 0 to 23.
#[verifier::external_body]
fn naive_hour(time: &NaiveTime) -> (r: u32)
    ensures
        r <= 23,
{
    time.hour()
}

/// `Timelike::minute` of a `NaiveTime`: the minute number, from 0 to 59.
#[verifier::external_body]
fn naive_minute(time: &NaiveTime) -> (r: u32)
    ensures
        r <= 59,
{
    time.minute()
}

/// `Timelike::second` of a `NaiveTime`: the second number, from 0 to 59,
/// also within a leap second.
#[verifier::external_body]
fn naive_second(time: &NaiveTime) -> (r: u32)
    ensures
        r <= 59,
{
    time.second()
}

/// `Timelike::nanosecond` of a `NaiveTime`: the nanoseconds since the
/// whole second, up to 1,999,999,999 within a leap second.
#[verifier::external_body]
fn naive_nanosecond(time: &NaiveTime) -> (r: u32)
    ensures
        r <= 1_999_999_999,
{
    time.nanosecond()
}

impl From<NaiveTime> for LocalTime {
    /// The local time of a clock time. A leap second shows in the
    /// nanoseconds.
    fn from(value: NaiveTime) -> (r: Self)
        ensures
            r.0.hour <= 23,
            r.0.minute <= 59,
            r.0.second <= 59,
            r.0.nanosecond <= 1_999_999_999,
    {
        Self::from_clock(
            naive_hour(&value),
            naive_minute(&value),
            naive_second(&value),
            naive_nanosecond(&value),
        )
    }
}

impl FromSpecImpl<NaiveTime> for LocalTime {
    open spec fn obeys_from_spec() -> bool {
        false
    }

    open spec fn from_spec(value: NaiveTime) -> Self {
        LocalTime(Time { hour: 0, minute: 0, second: 0, nanosecond: 0 })
    }
}

/// The nanoseconds that the digits of a fraction of a second stand
/// for, the first of them counting `scale` nanoseconds each. Digits
/// behind the ninth count nothing.
pub open spec fn fraction_nanos(fraction: Seq<char>, scale: nat) -> nat
    decreases fraction.len(),
{
    if fraction.len() == 0 || scale == 0 {
        0
    } else {
        (match crate::integer::digit_of(fraction[0], 10) {
            Some(digit) => digit * scale,
            None => 0,
        }) + fraction_nanos(fraction.drop_first(), scale / 10)
    }
}

/// A fraction of a second is no more than ten times what its first
/// digit counts.
pub proof fn lemma_fraction_nanos(fraction: Seq<char>, scale: nat)
    ensures
        fraction_nanos(fraction, scale) <= 10 * scale,
    decreases fraction.len(),
{
    if fraction.len() > 0 && scale > 0 {
        lemma_fraction_nanos(fraction.drop_first(), scale / 10);
        let digit: nat = match crate::integer::digit_of(fraction[0], 10) {
            Some(digit) => digit,
            None => 0,
        };
        assert(digit * scale <= 9 * scale) by (nonlinear_arith)
            requires
                digit <= 9,
        ;
    }
}

/// The time that the text of a local time stands for.
pub open spec fn time_of_text(text: Seq<char>) -> Time {
    Time {
        hour: two_digits(text, 0)->Some_0 as u8,
        minute: two_digits(text, 3)->Some_0 as u8,
        second: two_digits(text, 6)->Some_0 as u8,
        nanosecond: (if text.len() > 9 {
            fraction_nanos(text.skip(9), 100_000_000)
        } else {
            0
        }) as u32,
    }
}

/// `value` in two digits at least.
pub open spec fn two_digit_text(value: nat) -> Seq<char> {
    if value < 10 {
        seq!['0'] + digits(value)
    } else {
        digits(value)
    }
}

/// `text` without the zeros at its end.
pub open spec fn without_trailing_zeros(text: Seq<char>) -> Seq<char>
    decreases text.len(),
{
    if text.len() > 0 && text.last() == '0' {
        without_trailing_zeros(text.drop_last())
    } else {
        text
    }
}

/// `count` zeros.
pub open spec fn zeros(count: nat) -> Seq<char> {
    Seq::new(count, |i: int| '0')
}

/// The digits of a number of nanoseconds as the fraction of a second:
/// nine digits, without the zeros at their end.
pub open spec fn fraction_text(nanosecond: nat) -> Seq<char> {
    let written = digits(nanosecond);
    without_trailing_zeros(
        if written.len() < 9 {
            zeros((9 - written.len()) as nat) + written
        } else {
            written
        },
    )
}

impl Time {
    /// The text of the time: hour, minute and second in two digits each
    /// with colons between them, and behind them, if the second is not
    /// whole, a point and its fraction.
    pub open spec fn text(self) -> Seq<char> {
        let whole = two_digit_text(self.hour as nat) + seq![':'] + two_digit_text(
            self.minute as nat,
        ) + seq![':'] + two_digit_text(self.second as nat);
        if self.nanosecond == 0 {
            whole
        } else {
            whole + seq!['.'] + fraction_text(self.nanosecond as nat)
        }
    }
}

/// Renders `value` in two digits at least.
fn two_digit_string(value: u8) -> (r: String)
    ensures
        r@ == two_digit_text(value as nat),
{
    let written = decimal_string(value as i128);
    if value < 10 {
        let mut out = String::new();
        push_char(&mut out, '0');
        out.append(written.as_str());
        assert(out@ =~= seq!['0'] + digits(value as nat));
        out
    } else {
        written
    }
}

/// Renders a number of nanoseconds as the fraction of a second.
fn fraction_string(nanosecond: u32) -> (r: String)
    ensures
        r@ == fraction_text(nanosecond as nat),
{
    let written = chars_of(decimal_string(nanosecond as i128).as_str());
    let mut padded: Vec<char> = Vec::new();
    if written.len() < 9 {
        let missing: usize = 9 - written.len();
        while padded.len() < missing
            invariant
                padded.len() <= missing,
                padded@ == zeros(padded.len() as nat),
            decreases missing - padded.len(),
        {
            let ghost before = padded@;
            padded.push('0');
            assert(padded@ =~= zeros(padded.len() as nat));
        }
    }
    let ghost head = padded@;
    let mut i: usize = 0;
    while i < written.len()
        invariant
            i <= written.len(),
            padded@ == head + written@.take(i as int),
        decreases written.len() - i,
    {
        padded.push(written[i]);
        assert(head + written@.take(i + 1) =~= (head + written@.take(i as int)).push(
            written@[i as int],
        ));
        i += 1;
    }
    assert(written@.take(i as int) =~= written@);
    assert(head + written@ =~= if written.len() < 9 {
        zeros((9 - written.len()) as nat) + written@
    } else {
        written@
    }) by {
        if written.len() >= 9 {
            assert(head =~= Seq::<char>::empty());
        }
    }
    let mut end: usize = padded.len();
    assert(padded@.take(end as int) =~= padded@);
    while end > 0 && padded[end - 1] == '0'
        invariant
            end <= padded.len(),
            without_trailing_zeros(padded@) == without_trailing_zeros(padded@.take(end as int)),
        decreases end,
    {
        assert(padded@.take(end as int).drop_last() =~= padded@.take(end - 1));
        end -= 1;
    }
    let mut out = String::new();
    let mut j: usize = 0;
    while j < end
        invariant
            j <= end <= padded.len(),
            out@ == padded@.take(j as int),
        decreases end - j,
    {
        push_char(&mut out, padded[j]);
        assert(padded@.take(j + 1) =~= padded@.take(j as int).push(padded@[j as int]));
        j += 1;
    }
    out
}

impl LocalTime {
    /// Reads a local time: hour, minute and second in two digits each
    /// with colons between them, and possibly a point and the digits of
    /// a fraction of the second, of which the first nine count.
    pub fn parse(text: &str) -> (r: Result<Self, Error>)
        ensures
            is_local_time(text@) ==> r == Ok::<Self, Error>(LocalTime(time_of_text(text@))),
            !is_local_time(text@) ==> r == Err::<Self, Error>(Error::ExpectedLocalTime),
    {
        let word = chars_of(text);
        let n: usize = word.len();
        if !check_time_at(&word, 0, n) {
            return Err(Error::ExpectedLocalTime);
        }
        let hour = read_two_digits(&word, 0).unwrap();
        let minute = read_two_digits(&word, 3).unwrap();
        let second = read_two_digits(&word, 6).unwrap();
        let mut nanosecond: u64 = 0;
        if n > 9 {
            let ghost fraction = word@.skip(9);
            let mut scale: u64 = 100_000_000;
            let mut i: usize = 9;
            proof {
                lemma_fraction_nanos(fraction, 100_000_000);
            }
            while i < n && scale > 0
                invariant
                    9 <= i <= n == word.len(),
                    fraction == word@.skip(9),
                    scale <= 100_000_000,
                    nanosecond + fraction_nanos(word@.skip(i as int), scale as nat)
                        == fraction_nanos(fraction, 100_000_000),
                    fraction_nanos(fraction, 100_000_000) <= 1_000_000_000,
                decreases n - i,
            {
                let ghost rest = word@.skip(i as int);
                proof {
                    assert(rest.drop_first() =~= word@.skip(i + 1));
                    assert(rest[0] == word@[i as int]);
                }
                let digit = match crate::integer::to_digit(word[i], 10) {
                    Some(digit) => digit as u64,
                    None => 0,
                };
                proof {
                    assert(digit * scale <= 9 * scale) by (nonlinear_arith)
                        requires
                            digit <= 9,
                    ;
                }
                nanosecond = nanosecond + digit * scale;
                scale = scale / 10;
                i += 1;
            }
            proof {
                if scale > 0 {
                    assert(word@.skip(n as int) =~= Seq::<char>::empty());
                }
            }
        }
        Ok(
            Self(
                Time {
                    hour: hour as u8,
                    minute: minute as u8,
                    second: second as u8,
                    nanosecond: nanosecond as u32,
                },
            ),
        )
    }

    /// Renders the time.
    #[must_use]
    pub fn to_string(&self) -> (r: String)
        ensures
            r@ == self.0.text(),
    {
        let mut out = two_digit_string(self.0.hour);
        push_char(&mut out, ':');
        let minute = two_digit_string(self.0.minute);
        out.append(minute.as_str());
        push_char(&mut out, ':');
        let second = two_digit_string(self.0.second);
        out.append(second.as_str());
        proof {
            assert(out@ =~= two_digit_text(self.0.hour as nat) + seq![':'] + two_digit_text(
                self.0.minute as nat,
            ) + seq![':'] + two_digit_text(self.0.second as nat));
        }
        if self.0.nanosecond != 0 {
            push_char(&mut out, '.');
            let fraction = fraction_string(self.0.nanosecond);
            out.append(fraction.as_str());
        }
        out
    }
}

impl core::str::FromStr for LocalTime {
    type Err = Error;

    /// Reads a local time, as `parse` does.
    fn from_str(s: &str) -> (r: Result<Self, Error>)
        ensures
            is_local_time(s@) ==> r == Ok::<Self, Error>(LocalTime(time_of_text(s@))),
            !is_local_time(s@) ==> r == Err::<Self, Error>(Error::ExpectedLocalTime),
    {
        Self::parse(s)
    }
}

} // verus!
