use vstd::prelude::*;
use crate::text::chars_of;

verus! {

// ---------------------------------------------------------------------------
// Calendar
// ---------------------------------------------------------------------------

/// Gregorian leap years.
pub open spec fn is_leap(year: int) -> bool {
    (year % 4 == 0 && year % 100 != 0) || year % 400 == 0
}

/// The number of days of `month` (1 to 12) in `year`; 0 for any other month.
pub open spec fn days_in_month(year: int, month: int) -> int {
    if month == 1 || month == 3 || month == 5 || month == 7 || month == 8 || month == 10 || month
        == 12 {
        31
    } else if month == 4 || month == 6 || month == 9 || month == 11 {
        30
    } else if month == 2 {
        if is_leap(year) {
            29
        } else {
            28
        }
    } else {
        0
    }
}

/// Whether `year` is a leap year.
pub fn is_leap_year(year: u32) -> (r: bool)
    ensures
        r == is_leap(year as int),
{
    (year % 4 == 0 && year % 100 != 0) || year % 400 == 0
}

/// The number of days of `month` in `year`, 0 where `month` is no month.
pub fn month_length(year: u32, month: u32) -> (r: u32)
    ensures
        r == days_in_month(year as int, month as int),
{
    if month == 1 || month == 3 || month == 5 || month == 7 || month == 8 || month == 10 || month
        == 12 {
        31
    } else if month == 4 || month == 6 || month == 9 || month == 11 {
        30
    } else if month == 2 {
        if is_leap_year(year) {
            29
        } else {
            28
        }
    } else {
        0
    }
}

// ---------------------------------------------------------------------------
// Dates written as YYYY-MM-DD
// ---------------------------------------------------------------------------

/// `0` to `9`.
pub open spec fn is_ascii_digit(c: char) -> bool {
    48 <= (c as int) <= 57
}

/// The value of a digit character.
pub open spec fn digit_value(c: char) -> int {
    (c as int) - 48
}

/// Ten characters: four digits, `-`, two digits, `-`, two digits.
pub open spec fn has_date_shape(s: Seq<char>) -> bool {
    &&& s.len() == 10
    &&& s[4] == '-'
    &&& s[7] == '-'
    &&& forall|i: int| 0 <= i < 10 && i != 4 && i != 7 ==> is_ascii_digit(#[trigger] s[i])
}

/// The year written in the first four characters.
pub open spec fn year_of(s: Seq<char>) -> int {
    digit_value(s[0]) * 1000 + digit_value(s[1]) * 100 + digit_value(s[2]) * 10 + digit_value(s[3])
}

/// The month written in characters 5 and 6.
pub open spec fn month_of(s: Seq<char>) -> int {
    digit_value(s[5]) * 10 + digit_value(s[6])
}

/// The day written in characters 8 and 9.
pub open spec fn day_of(s: Seq<char>) -> int {
    digit_value(s[8]) * 10 + digit_value(s[9])
}

/// `s` names a day of the calendar as `YYYY-MM-DD`, with a year from 1 on.
pub open spec fn is_valid_date_text(s: Seq<char>) -> bool {
    &&& has_date_shape(s)
    &&& year_of(s) > 0
    &&& 1 <= month_of(s) <= 12
    &&& 1 <= day_of(s) <= days_in_month(year_of(s), month_of(s))
}

fn ascii_digit(c: char) -> (r: bool)
    ensures
        r == is_ascii_digit(c),
{
    '0' <= c && c <= '9'
}

fn digit_at(s: &Vec<char>, i: usize) -> (r: u32)
    requires
        i < s@.len(),
        is_ascii_digit(s@[i as int]),
    ensures
        r == digit_value(s@[i as int]),
        r <= 9,
{
    (s[i] as u32) - 48
}

/// Whether `value` is a due date of the form `YYYY-MM-DD` that names a day
/// of the calendar, with a year from 1 on.
pub fn is_valid_due_date(value: &str) -> (r: bool)
    ensures
        r == is_valid_date_text(value@),
{
    let s = chars_of(value);
    if s.len() != 10 || s[4] != '-' || s[7] != '-' {
        return false;
    }
    let mut i: usize = 0;
    while i < 10
        invariant
            s@ == value@,
            s@.len() == 10,
            i <= 10,
            forall|k: int| 0 <= k < i && k != 4 && k != 7 ==> is_ascii_digit(#[trigger] s@[k]),
        decreases 10 - i,
    {
        if i != 4 && i != 7 && !ascii_digit(s[i]) {
            assert(!has_date_shape(s@));
            return false;
        }
        i += 1;
    }
    assert(has_date_shape(s@));
    let year = digit_at(&s, 0) * 1000 + digit_at(&s, 1) * 100 + digit_at(&s, 2) * 10 + digit_at(
        &s,
        3,
    );
    if year == 0 {
        return false;
    }
    let month = digit_at(&s, 5) * 10 + digit_at(&s, 6);
    let day = digit_at(&s, 8) * 10 + digit_at(&s, 9);
    let max_day = month_length(year, month);
    if max_day == 0 {
        return false;
    }
    1 <= day && day <= max_day
}

/// The Gregorian calendar, stated month by month: of a well-formed date text
/// with a year from 1 on, day 31 is valid in January, March, May, July,
/// August, October and December only; day 30 in every month but February;
/// day 29 in every month but February, and in February of leap years (every
/// fourth year, but not centuries unless divisible by 400); days 1 to 28 in
/// every month; and no other day and no month outside 1 to 12.
pub proof fn lemma_calendar(s: Seq<char>)
    requires
        has_date_shape(s),
        year_of(s) > 0,
    ensures
        ({
            let y = year_of(s);
            let m = month_of(s);
            let d = day_of(s);
            &&& d == 31 ==> (is_valid_date_text(s) <==> (m == 1 || m == 3 || m == 5 || m == 7 || m
                == 8 || m == 10 || m == 12))
            &&& d == 30 ==> (is_valid_date_text(s) <==> (1 <= m <= 12 && m != 2))
            &&& d == 29 ==> (is_valid_date_text(s) <==> (1 <= m <= 12 && (m != 2 || ((y % 4 == 0
                && y % 100 != 0) || y % 400 == 0))))
            &&& 1 <= d <= 28 ==> (is_valid_date_text(s) <==> 1 <= m <= 12)
            &&& (d < 1 || d > 31) ==> !is_valid_date_text(s)
        }),
{
}

} // verus!
