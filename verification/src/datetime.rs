//! Calendar timestamps as plain values, and a verified parser for the
//! fixed-width `YYYY-MM-DDTHH:MM:SS` prefix of the RFC 3339 strings that
//! the chain reports as block time.

use vstd::prelude::*;

verus! {

/// A wall-clock timestamp broken into calendar fields.
///
/// `well_formed` pins the ranges, including the month lengths of the
/// proleptic Gregorian calendar.
#[derive(Clone, Copy, Debug, PartialEq, Eq, Structural)]
pub struct DateTime {
    pub year: u32,
    pub month: u32,
    pub day: u32,
    pub hour: u32,
    pub minute: u32,
    pub second: u32,
}

pub open spec fn is_leap_year(year: int) -> bool {
    (year % 4 == 0 && year % 100 != 0) || year % 400 == 0
}

pub open spec fn days_in_month(year: int, month: int) -> int {
    if month == 2 {
        if is_leap_year(year) {
            29
        } else {
            28
        }
    } else if month == 4 || month == 6 || month == 9 || month == 11 {
        30
    } else {
        31
    }
}

impl DateTime {
    pub open spec fn well_formed(self) -> bool {
        &&& 1 <= self.month <= 12
        &&& 1 <= self.day <= days_in_month(self.year as int, self.month as int)
        &&& self.hour < 24
        &&& self.minute < 60
        &&& self.second < 60
    }
}

/// The number of characters of a timestamp string that carry the
/// second-resolution fields: `YYYY-MM-DDTHH:MM:SS`.
pub const DATE_TIME_LEN: usize = 19;

pub open spec fn is_digit(c: char) -> bool {
    '0' <= c && c <= '9'
}

pub open spec fn digit_value(c: char) -> int {
    c as int - '0' as int
}

/// The numeric value of the digit run `s[from..to]`, most significant first.
pub open spec fn digits_value(s: Seq<char>, from: int, to: int) -> int
    decreases to - from,
{
    if from >= to {
        0
    } else {
        digits_value(s, from, to - 1) * 10 + digit_value(s[to - 1])
    }
}

pub open spec fn all_digits(s: Seq<char>, from: int, to: int) -> bool {
    forall|i: int| from <= i < to ==> is_digit(#[trigger] s[i])
}

/// Shape of a parsable timestamp prefix: four digit runs split by the
/// fixed punctuation `-`, `-`, `T`, `:`, `:`.
pub open spec fn timestamp_shaped(s: Seq<char>) -> bool {
    &&& s.len() >= DATE_TIME_LEN
    &&& all_digits(s, 0, 4)
    &&& s[4] == '-'
    &&& all_digits(s, 5, 7)
    &&& s[7] == '-'
    &&& all_digits(s, 8, 10)
    &&& s[10] == 'T'
    &&& all_digits(s, 11, 13)
    &&& s[13] == ':'
    &&& all_digits(s, 14, 16)
    &&& s[16] == ':'
    &&& all_digits(s, 17, 19)
}

/// The timestamp a shaped string denotes, field by field.
pub open spec fn timestamp_fields(s: Seq<char>) -> DateTime {
    DateTime {
        year: digits_value(s, 0, 4) as u32,
        month: digits_value(s, 5, 7) as u32,
        day: digits_value(s, 8, 10) as u32,
        hour: digits_value(s, 11, 13) as u32,
        minute: digits_value(s, 14, 16) as u32,
        second: digits_value(s, 17, 19) as u32,
    }
}

/// A string parses to a timestamp iff it is shaped like one and its
/// fields lie in calendar range.
pub open spec fn parses_to(s: Seq<char>, dt: DateTime) -> bool {
    &&& timestamp_shaped(s)
    &&& dt == timestamp_fields(s)
    &&& dt.well_formed()
}

pub open spec fn pow10(n: int) -> int
    decreases n,
{
    if n <= 0 {
        1
    } else {
        pow10(n - 1) * 10
    }
}

/// Reads the digit run `s[from..to]` of an ASCII-shaped region.
fn parse_digits(s: &str, from: usize, to: usize) -> (r: u32)
    requires
        from <= to <= s@.len(),
        to - from <= 4,
        all_digits(s@, from as int, to as int),
    ensures
        r == digits_value(s@, from as int, to as int),
{
    let mut acc: u32 = 0;
    let mut i: usize = from;
    while i < to
        invariant
            from <= i <= to <= s@.len(),
            to - from <= 4,
            all_digits(s@, from as int, to as int),
            acc == digits_value(s@, from as int, i as int),
            acc < pow10((i - from) as int),
        decreases to - i,
    {
        let c = s.get_char(i);
        proof {
            assert(is_digit(s@[i as int]));
            assert(pow10((i + 1 - from) as int) == pow10((i - from) as int) * 10);
            assert(pow10((i - from) as int) <= pow10(3)) by {
                lemma_pow10_le((i - from) as int, 3);
            }
            assert(pow10(3) == 1000) by {
                reveal_with_fuel(pow10, 4);
            }
        }
        acc = acc * 10 + (c as u32 - 48);
        i = i + 1;
    }
    acc
}

proof fn lemma_pow10_pos(n: int)
    ensures
        pow10(n) >= 1,
    decreases n,
{
    if n > 0 {
        lemma_pow10_pos(n - 1);
    }
}

proof fn lemma_pow10_le(m: int, n: int)
    requires
        m <= n,
    ensures
        pow10(m) <= pow10(n),
    decreases n - m,
{
    if m < n {
        lemma_pow10_le(m, n - 1);
        lemma_pow10_pos(n - 1);
    }
}

/// Checks that `s[from..to]` is all decimal digits.
fn check_digits(s: &str, from: usize, to: usize) -> (r: bool)
    requires
        from <= to <= s@.len(),
    ensures
        r == all_digits(s@, from as int, to as int),
{
    let mut i: usize = from;
    while i < to
        invariant
            from <= i <= to <= s@.len(),
            all_digits(s@, from as int, i as int),
        decreases to - i,
    {
        let c = s.get_char(i);
        if c < '0' || c > '9' {
            return false;
        }
        i = i + 1;
    }
    true
}

/// The number of days in `month` of `year`, for calendar validation.
pub fn days_in_month_exec(year: u32, month: u32) -> (r: u32)
    requires
        1 <= month <= 12,
    ensures
        r == days_in_month(year as int, month as int),
{
    if month == 2 {
        if (year % 4 == 0 && year % 100 != 0) || year % 400 == 0 {
            29
        } else {
            28
        }
    } else if month == 4 || month == 6 || month == 9 || month == 11 {
        30
    } else {
        31
    }
}

impl DateTime {
    /// Parses the `YYYY-MM-DDTHH:MM:SS` prefix of a block-time string.
    ///
    /// Returns `Some` exactly when the prefix is digit-and-punctuation
    /// shaped and the fields form a real calendar instant.
    pub fn parse(s: &str) -> (r: Option<DateTime>)
        ensures
            r is Some ==> parses_to(s@, r.unwrap()),
            r is None ==> !(exists|dt: DateTime| parses_to(s@, dt)),
    {
        if s.unicode_len() < DATE_TIME_LEN {
            return None;
        }
        let shaped = check_digits(s, 0, 4) && s.get_char(4) == '-' && check_digits(s, 5, 7)
            && s.get_char(7) == '-' && check_digits(s, 8, 10) && s.get_char(10) == 'T'
            && check_digits(s, 11, 13) && s.get_char(13) == ':' && check_digits(s, 14, 16)
            && s.get_char(16) == ':' && check_digits(s, 17, 19);
        if !shaped {
            return None;
        }
        let dt = DateTime {
            year: parse_digits(s, 0, 4),
            month: parse_digits(s, 5, 7),
            day: parse_digits(s, 8, 10),
            hour: parse_digits(s, 11, 13),
            minute: parse_digits(s, 14, 16),
            second: parse_digits(s, 17, 19),
        };
        if dt.month < 1 || dt.month > 12 {
            return None;
        }
        if dt.day < 1 || dt.day > days_in_month_exec(dt.year, dt.month) {
            return None;
        }
        if dt.hour >= 24 || dt.minute >= 60 || dt.second >= 60 {
            return None;
        }
        Some(dt)
    }
}

} // verus!
