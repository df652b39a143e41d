//! Calendar dates of Unix timestamps, as shown in ban and book texts.
use vstd::prelude::*;
use crate::util::text::string_push;

verus! {

/// Whether `y` is a leap year of the Gregorian calendar.
pub open spec fn is_leap(y: int) -> bool {
    (y % 4 == 0 && y % 100 != 0) || y % 400 == 0
}

/// The number of days of year `y`.
pub open spec fn year_days(y: int) -> int {
    if is_leap(y) {
        366
    } else {
        365
    }
}

/// The number of days of month `m` (0 for January), in a leap year or not.
pub open spec fn month_days(m: int, leap: bool) -> int {
    if m == 1 {
        if leap {
            29
        } else {
            28
        }
    } else if m == 3 || m == 5 || m == 8 || m == 10 {
        30
    } else {
        31
    }
}

/// The year that day `rem` counted from the start of year `y` falls in,
/// and the day within that year.
pub open spec fn year_split(y: int, rem: int) -> (int, int)
    decreases rem,
{
    if rem < year_days(y) || rem < 0 {
        (y, rem)
    } else {
        year_split(y + 1, rem - year_days(y))
    }
}

/// The month (from `m` on) that day `rem` of the year falls in, and the
/// day within that month.
pub open spec fn month_split(m: int, rem: int, leap: bool) -> (int, int)
    decreases 12 - m,
{
    if m >= 12 || rem < month_days(m, leap) {
        (m, rem)
    } else {
        month_split(m + 1, rem - month_days(m, leap), leap)
    }
}

/// The days of the months from `m` to December.
pub open spec fn days_from(m: int, leap: bool) -> int
    decreases 12 - m,
{
    if m >= 12 {
        0
    } else {
        month_days(m, leap) + days_from(m + 1, leap)
    }
}

/// The year, month (0 for January) and day of the month (from 1) of day
/// `days` counted from 1 January 1970.
pub open spec fn civil_date(days: int) -> (int, int, int) {
    let (y, r) = year_split(1970, days);
    let (m, d) = month_split(0, r, is_leap(y));
    (y, m, d + 1)
}

/// The three-letter English name of month `m` (0 for January).
pub open spec fn month_name(m: int) -> Seq<char> {
    if m == 0 {
        seq!['J', 'a', 'n']
    } else if m == 1 {
        seq!['F', 'e', 'b']
    } else if m == 2 {
        seq!['M', 'a', 'r']
    } else if m == 3 {
        seq!['A', 'p', 'r']
    } else if m == 4 {
        seq!['M', 'a', 'y']
    } else if m == 5 {
        seq!['J', 'u', 'n']
    } else if m == 6 {
        seq!['J', 'u', 'l']
    } else if m == 7 {
        seq!['A', 'u', 'g']
    } else if m == 8 {
        seq!['S', 'e', 'p']
    } else if m == 9 {
        seq!['O', 'c', 't']
    } else if m == 10 {
        seq!['N', 'o', 'v']
    } else {
        seq!['D', 'e', 'c']
    }
}

/// The digit character of `d` (0 to 9).
pub open spec fn digit_char(d: int) -> char {
    (48 + d) as char
}

/// The decimal digits of `n`, most significant first.
pub open spec fn decimal_chars(n: nat) -> Seq<char>
    decreases n,
{
    if n < 10 {
        seq![digit_char(n as int)]
    } else {
        decimal_chars(n / 10).push(digit_char((n % 10) as int))
    }
}

/// The text of a date: the day in two digits, the month's name and the
/// year, separated by spaces ("05 Mar 2024").
pub open spec fn date_text(days: int) -> Seq<char> {
    let (y, m, d) = civil_date(days);
    seq![digit_char(d / 10), digit_char(d % 10), ' '] + month_name(m) + seq![' '] + decimal_chars(
        y as nat,
    )
}

proof fn lemma_month_split_bound(m: int, rem: int, leap: bool)
    requires
        0 <= m <= 12,
        0 <= rem < days_from(m, leap),
    ensures
        month_split(m, rem, leap).0 < 12,
        0 <= month_split(m, rem, leap).1 < month_days(month_split(m, rem, leap).0, leap),
    decreases 12 - m,
{
    if m < 12 && rem >= month_days(m, leap) {
        lemma_month_split_bound(m + 1, rem - month_days(m, leap), leap);
    }
}

proof fn lemma_year_length(leap: bool)
    ensures
        days_from(0, leap) == if leap { 366int } else { 365int },
{
    reveal_with_fuel(days_from, 13);
}

pub(crate) fn push_decimal_chars(s: &mut String, n: u64)
    ensures
        final(s)@ == old(s)@ + decimal_chars(n as nat),
    decreases n,
{
    if n < 10 {
        let c = char_of_digit(n as u8);
        string_push(s, c);
        assert(old(s)@ + decimal_chars(n as nat) =~= old(s)@.push(c));
    } else {
        push_decimal_chars(s, n / 10);
        let c = char_of_digit((n % 10) as u8);
        string_push(s, c);
        assert(old(s)@ + decimal_chars(n as nat) =~= (old(s)@ + decimal_chars((n / 10) as nat)).push(c));
    }
}

fn char_of_digit(d: u8) -> (c: char)
    requires
        d < 10,
    ensures
        c == digit_char(d as int),
{
    match d {
        0 => '0',
        1 => '1',
        2 => '2',
        3 => '3',
        4 => '4',
        5 => '5',
        6 => '6',
        7 => '7',
        8 => '8',
        _ => '9',
    }
}

fn push_month_name(s: &mut String, m: usize)
    requires
        m < 12,
    ensures
        final(s)@ == old(s)@ + month_name(m as int),
{
    let (a, b, c): (char, char, char) = match m {
        0 => ('J', 'a', 'n'),
        1 => ('F', 'e', 'b'),
        2 => ('M', 'a', 'r'),
        3 => ('A', 'p', 'r'),
        4 => ('M', 'a', 'y'),
        5 => ('J', 'u', 'n'),
        6 => ('J', 'u', 'l'),
        7 => ('A', 'u', 'g'),
        8 => ('S', 'e', 'p'),
        9 => ('O', 'c', 't'),
        10 => ('N', 'o', 'v'),
        _ => ('D', 'e', 'c'),
    };
    string_push(s, a);
    string_push(s, b);
    string_push(s, c);
    assert(final(s)@ =~= old(s)@ + month_name(m as int)) by {
        assert(s@ =~= old(s)@ + seq![a, b, c]);
    }
}

/// The calendar date of Unix time `timestamp` (see `date_text`).
pub fn format_date_short(timestamp: u32) -> (text: String)
    ensures
        text@ == date_text((timestamp / 86400) as int),
{
    let days: i64 = (timestamp / 86400) as i64;
    let mut y: i64 = 1970;
    let mut remaining: i64 = days;
    loop
        invariant
            1970 <= y,
            y - 1970 <= days - remaining,
            0 <= remaining <= days,
            days <= 49711,
            year_split(1970, days as int) == year_split(y as int, remaining as int),
        ensures
            1970 <= y <= 1970 + 49711,
            0 <= remaining,
            remaining < year_days(y as int),
            year_split(1970, days as int) == year_split(y as int, remaining as int),
        decreases remaining,
    {
        let leap = (y % 4 == 0 && y % 100 != 0) || y % 400 == 0;
        let days_in_year: i64 = if leap { 366 } else { 365 };
        if remaining < days_in_year {
            break;
        }
        remaining = remaining - days_in_year;
        y = y + 1;
    }
    let leap = (y % 4 == 0 && y % 100 != 0) || y % 400 == 0;
    proof {
        lemma_year_length(leap);
        assert(year_split(y as int, remaining as int) == (y as int, remaining as int));
        lemma_month_split_bound(0, remaining as int, leap);
    }
    let mut m: usize = 0;
    loop
        invariant
            m <= 12,
            0 <= remaining,
            month_split(0, year_split(1970, days as int).1, leap) == month_split(m as int, remaining as int, leap),
            leap == is_leap(y as int),
            month_split(m as int, remaining as int, leap).0 < 12,
            0 <= month_split(m as int, remaining as int, leap).1 < month_days(month_split(m as int, remaining as int, leap).0, leap),
        ensures
            m < 12,
            month_split(0, year_split(1970, days as int).1, leap) == (m as int, remaining as int),
            0 <= remaining < month_days(m as int, leap),
            leap == is_leap(y as int),
        decreases 12 - m,
    {
        let md: i64 = if m == 1 {
            if leap {
                29
            } else {
                28
            }
        } else if m == 3 || m == 5 || m == 8 || m == 10 {
            30
        } else {
            31
        };
        if m >= 12 || remaining < md {
            break;
        }
        remaining = remaining - md;
        m = m + 1;
    }
    let day = remaining + 1;
    let mut text = String::new();
    string_push(&mut text, char_of_digit((day / 10) as u8));
    string_push(&mut text, char_of_digit((day % 10) as u8));
    string_push(&mut text, ' ');
    push_month_name(&mut text, m);
    string_push(&mut text, ' ');
    push_decimal_chars(&mut text, y as u64);
    text
}

} // verus!
