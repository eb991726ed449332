//! Calendar dates of content records, as plain year/month/day values.
//!
//! Records carry a date in ISO `YYYY-MM-DD` form; rendered pages show it as
//! `7 Apr '23` (day without padding, month abbreviation, two-digit year).

use vstd::prelude::*;
use crate::text::{dec_of, lemma_concat_assoc, pad_digits, push_bytes, push_dec, push_pad};

verus! {

broadcast use lemma_concat_assoc;

/// A calendar date (proleptic Gregorian).
#[derive(PartialEq, Eq, Structural, PartialOrd, Ord, Clone, Copy, Debug)]
pub struct Date {
    pub year: u32,
    pub month: u8,
    pub day: u8,
}

/// Whether `year` is a leap year.
pub open spec fn is_leap_year(year: u32) -> bool {
    year % 4 == 0 && (year % 100 != 0 || year % 400 == 0)
}

/// How many days the month `month` of `year` has.
pub open spec fn days_in_month(year: u32, month: u8) -> u8 {
    if month == 2 {
        if is_leap_year(year) {
            29
        } else {
            28
        }
    } else if month == 4 || month == 6 || month == 9 || month == 11 {
        30
    } else {
        31
    }
}

/// A well-formed date: a month of the calendar and a day that its month has.
/// Years are limited to four digits, the form the records use.
pub open spec fn date_valid(d: Date) -> bool {
    &&& d.year <= 9999
    &&& 1 <= d.month <= 12
    &&& 1 <= d.day <= days_in_month(d.year, d.month)
}

impl Date {
    /// A well-formed date: a month of the calendar and a day its month has.
    pub open spec fn valid(self) -> bool {
        date_valid(self)
    }
}

/// Whether byte `b` is an ASCII digit.
pub open spec fn is_digit(b: u8) -> bool {
    ('0' as u8) <= b <= ('9' as u8)
}

/// The value of the ASCII digit `b`.
pub open spec fn digit_val(b: u8) -> u8 {
    (b - ('0' as u8)) as u8
}

/// Where the dash after the month stands: the month is one digit when a
/// dash follows position 5, else two.
pub open spec fn month_dash(s: Seq<u8>) -> int {
    if 6 < s.len() && s[6] == ('-' as u8) {
        6
    } else {
        7
    }
}

/// Whether `s` has the form year `-` month `-` day — a four-digit year and
/// a month and day of one or two digits each, padded or not — and names a
/// valid calendar date. (Years keep the records' four-digit form.)
pub open spec fn date_text_valid(s: Seq<u8>) -> bool {
    let d2 = month_dash(s);
    &&& 8 <= s.len() <= 10
    &&& (forall|i: int| 0 <= i < 4 ==> is_digit(#[trigger] s[i]))
    &&& s[4] == ('-' as u8)
    &&& is_digit(s[5])
    &&& (d2 == 7 ==> is_digit(s[6]) && s[7] == ('-' as u8))
    &&& (s.len() == d2 + 2 || s.len() == d2 + 3)
    &&& (forall|i: int| d2 < i < s.len() ==> is_digit(#[trigger] s[i]))
    &&& date_valid(date_of_text(s))
}

/// The date that a well-formed date text names.
pub open spec fn date_of_text(s: Seq<u8>) -> Date
    recommends
        8 <= s.len() <= 10,
{
    let d2 = month_dash(s);
    Date {
        year: ((digit_val(s[0]) as u32) * 1000 + (digit_val(s[1]) as u32) * 100 + (digit_val(
            s[2],
        ) as u32) * 10 + (digit_val(s[3]) as u32)) as u32,
        month: if d2 == 6 {
            digit_val(s[5])
        } else {
            (digit_val(s[5]) * 10 + digit_val(s[6])) as u8
        },
        day: if s.len() == d2 + 2 {
            digit_val(s[d2 + 1])
        } else {
            (digit_val(s[d2 + 1]) * 10 + digit_val(s[d2 + 2])) as u8
        },
    }
}

/// How many days the month `month` of `year` has.
pub fn days_in_month_exec(year: u32, month: u8) -> (r: u8)
    ensures
        r == days_in_month(year, month),
{
    if month == 2 {
        if year % 4 == 0 && (year % 100 != 0 || year % 400 == 0) {
            29
        } else {
            28
        }
    } else if month == 4 || month == 6 || month == 9 || month == 11 {
        30
    } else {
        31
    }
}

/// Whether byte `b` is an ASCII digit.
fn is_digit_exec(b: u8) -> (r: bool)
    ensures
        r == is_digit(b),
{
    ('0' as u8) <= b && b <= ('9' as u8)
}

/// Parse a date from its `YYYY-MM-DD` text (month and day may stand
/// unpadded, `2023-4-7`). `None` exactly on text that is not of that form
/// or names no calendar date.
pub fn parse_date(s: &[u8]) -> (r: Option<Date>)
    ensures
        match r {
            Some(d) => date_text_valid(s@) && d == date_of_text(s@),
            None => !date_text_valid(s@),
        },
{
    let n = s.len();
    if n < 8 || n > 10 {
        return None;
    }
    if !(is_digit_exec(s[0]) && is_digit_exec(s[1]) && is_digit_exec(s[2]) && is_digit_exec(
        s[3],
    )) {
        return None;
    }
    assert(forall|i: int| 0 <= i < 4 ==> is_digit(#[trigger] s@[i])) by {
        assert(is_digit(s@[0]) && is_digit(s@[1]) && is_digit(s@[2]) && is_digit(s@[3]));
    }
    if s[4] != ('-' as u8) {
        return None;
    }
    if !is_digit_exec(s[5]) {
        return None;
    }
    let d2: usize = if s[6] == ('-' as u8) {
        6
    } else {
        if !is_digit_exec(s[6]) {
            return None;
        }
        if s[7] != ('-' as u8) {
            return None;
        }
        7
    };
    assert(d2 == month_dash(s@));
    if !(n == d2 + 2 || n == d2 + 3) {
        return None;
    }
    if !is_digit_exec(s[d2 + 1]) {
        return None;
    }
    if n == d2 + 3 && !is_digit_exec(s[d2 + 2]) {
        return None;
    }
    assert(forall|i: int| d2 < i < s@.len() ==> is_digit(#[trigger] s@[i])) by {
        assert(is_digit(s@[d2 + 1]));
        if n == d2 + 3 {
            assert(is_digit(s@[d2 + 2]));
        }
    }
    let year: u32 = ((s[0] - ('0' as u8)) as u32) * 1000 + ((s[1] - ('0' as u8)) as u32) * 100 + ((
    s[2] - ('0' as u8)) as u32) * 10 + ((s[3] - ('0' as u8)) as u32);
    let month: u8 = if d2 == 6 {
        s[5] - ('0' as u8)
    } else {
        (s[5] - ('0' as u8)) * 10 + (s[6] - ('0' as u8))
    };
    let day: u8 = if n == d2 + 2 {
        s[d2 + 1] - ('0' as u8)
    } else {
        (s[d2 + 1] - ('0' as u8)) * 10 + (s[d2 + 2] - ('0' as u8))
    };
    let d = Date { year, month, day };
    assert(d == date_of_text(s@));
    if month < 1 || month > 12 {
        return None;
    }
    if day < 1 || day > days_in_month_exec(year, month) {
        return None;
    }
    Some(d)
}

/// The three-letter abbreviation of month `m`.
pub open spec fn month_abbr(m: u8) -> Seq<u8> {
    if m == 1 {
        seq![('J' as u8), ('a' as u8), ('n' as u8)]
    } else if m == 2 {
        seq![('F' as u8), ('e' as u8), ('b' as u8)]
    } else if m == 3 {
        seq![('M' as u8), ('a' as u8), ('r' as u8)]
    } else if m == 4 {
        seq![('A' as u8), ('p' as u8), ('r' as u8)]
    } else if m == 5 {
        seq![('M' as u8), ('a' as u8), ('y' as u8)]
    } else if m == 6 {
        seq![('J' as u8), ('u' as u8), ('n' as u8)]
    } else if m == 7 {
        seq![('J' as u8), ('u' as u8), ('l' as u8)]
    } else if m == 8 {
        seq![('A' as u8), ('u' as u8), ('g' as u8)]
    } else if m == 9 {
        seq![('S' as u8), ('e' as u8), ('p' as u8)]
    } else if m == 10 {
        seq![('O' as u8), ('c' as u8), ('t' as u8)]
    } else if m == 11 {
        seq![('N' as u8), ('o' as u8), ('v' as u8)]
    } else {
        seq![('D' as u8), ('e' as u8), ('c' as u8)]
    }
}

/// The rendered text of a date: the day without padding, a space, the month
/// abbreviation, a space, an apostrophe and the two-digit year.
pub open spec fn date_text(d: Date) -> Seq<u8> {
    dec_of(d.day as nat) + seq![(' ' as u8)] + month_abbr(d.month) + seq![
        (' ' as u8),
        ('\'' as u8),
    ] + pad_digits((d.year % 100) as nat, 2)
}

/// Append the three-letter abbreviation of month `m` to `out`.
fn push_month_abbr(out: &mut Vec<u8>, m: u8)
    ensures
        final(out)@ == old(out)@ + month_abbr(m),
{
    let abbr: Vec<u8> = if m == 1 {
        vec![('J' as u8), ('a' as u8), ('n' as u8)]
    } else if m == 2 {
        vec![('F' as u8), ('e' as u8), ('b' as u8)]
    } else if m == 3 {
        vec![('M' as u8), ('a' as u8), ('r' as u8)]
    } else if m == 4 {
        vec![('A' as u8), ('p' as u8), ('r' as u8)]
    } else if m == 5 {
        vec![('M' as u8), ('a' as u8), ('y' as u8)]
    } else if m == 6 {
        vec![('J' as u8), ('u' as u8), ('n' as u8)]
    } else if m == 7 {
        vec![('J' as u8), ('u' as u8), ('l' as u8)]
    } else if m == 8 {
        vec![('A' as u8), ('u' as u8), ('g' as u8)]
    } else if m == 9 {
        vec![('S' as u8), ('e' as u8), ('p' as u8)]
    } else if m == 10 {
        vec![('O' as u8), ('c' as u8), ('t' as u8)]
    } else if m == 11 {
        vec![('N' as u8), ('o' as u8), ('v' as u8)]
    } else {
        vec![('D' as u8), ('e' as u8), ('c' as u8)]
    };
    assert(abbr@ =~= month_abbr(m));
    push_bytes(out, abbr.as_slice());
}

/// Render a date as its page text, `7 Apr '23`.
pub fn format_date(d: &Date) -> (r: Vec<u8>)
    ensures
        r@ == date_text(*d),
{
    let mut out: Vec<u8> = Vec::new();
    push_dec(&mut out, d.day as u32);
    out.push(' ' as u8);
    push_month_abbr(&mut out, d.month);
    out.push(' ' as u8);
    out.push('\'' as u8);
    push_pad(&mut out, (d.year % 100) as u64, 2);
    assert(out@ =~= date_text(*d));
    out
}

} // verus!
