//! The calendar model: dates, weekdays, the leap-year rule, and day counts.
//!
//! Every weekday algorithm in this crate is proved against one oracle: the
//! `rata_die` day count, which numbers 0001-01-01 of the proleptic Gregorian
//! calendar as day 1. That day was a Monday, so the remainder of the day
//! number mod 7 gives the weekday, with remainder 0 meaning Sunday.

use vstd::arithmetic::div_mod::{
    lemma_div_nonincreasing, lemma_fundamental_div_mod, lemma_fundamental_div_mod_converse_div,
    lemma_fundamental_div_mod_converse_mod, lemma_mod_division_less_than_divisor,
};
use vstd::prelude::*;

verus! {

/// The Gregorian leap-year rule: divisible by 4 and either not by 100 or by 400.
pub open spec fn is_leap_spec(y: int) -> bool {
    (y % 4 == 0 && y % 100 != 0) || y % 400 == 0
}

/// Length of month `m` of year `y`.
pub open spec fn days_in_month_spec(y: int, m: int) -> int {
    if m == 2 {
        if is_leap_spec(y) {
            29
        } else {
            28
        }
    } else if m == 4 || m == 6 || m == 9 || m == 11 {
        30
    } else {
        31
    }
}

/// Days in the months strictly before month `m`, in a common year.
pub open spec fn days_before_month(m: int) -> int {
    if m <= 1 {
        0
    } else if m == 2 {
        31
    } else if m == 3 {
        59
    } else if m == 4 {
        90
    } else if m == 5 {
        120
    } else if m == 6 {
        151
    } else if m == 7 {
        181
    } else if m == 8 {
        212
    } else if m == 9 {
        243
    } else if m == 10 {
        273
    } else if m == 11 {
        304
    } else {
        334
    }
}

/// One-based ordinal of a day within its year.
pub open spec fn day_of_year(y: int, m: int, d: int) -> int {
    days_before_month(m) + d + if m > 2 && is_leap_spec(y) {
        1int
    } else {
        0int
    }
}

/// Days in the years strictly before year `y`: 365 per year plus one per leap year.
pub open spec fn days_before_year(y: int) -> int {
    365 * (y - 1) + (y - 1) / 4 - (y - 1) / 100 + (y - 1) / 400
}

/// Day number of a date, with 0001-01-01 as day 1 (the "rata die" count).
pub open spec fn rata_die(y: int, m: int, d: int) -> int {
    days_before_year(y) + day_of_year(y, m, d)
}

/// A day of the week.
#[derive(Clone, Copy, Debug, PartialEq, Eq, Structural)]
pub enum Weekday {
    Monday,
    Tuesday,
    Wednesday,
    Thursday,
    Friday,
    Saturday,
    Sunday,
}

/// The weekday whose Monday-based index is `i`.
pub open spec fn weekday_from_monday0(i: int) -> Weekday {
    if i == 0 {
        Weekday::Monday
    } else if i == 1 {
        Weekday::Tuesday
    } else if i == 2 {
        Weekday::Wednesday
    } else if i == 3 {
        Weekday::Thursday
    } else if i == 4 {
        Weekday::Friday
    } else if i == 5 {
        Weekday::Saturday
    } else {
        Weekday::Sunday
    }
}

/// The weekday whose Sunday-based index is `i`.
pub open spec fn weekday_from_sunday0(i: int) -> Weekday {
    if i == 0 {
        Weekday::Sunday
    } else if i == 1 {
        Weekday::Monday
    } else if i == 2 {
        Weekday::Tuesday
    } else if i == 3 {
        Weekday::Wednesday
    } else if i == 4 {
        Weekday::Thursday
    } else if i == 5 {
        Weekday::Friday
    } else {
        Weekday::Saturday
    }
}

impl Weekday {
    /// Index of the weekday counting Monday as 0, ..., Sunday as 6.
    pub open spec fn monday0(self) -> int {
        match self {
            Weekday::Monday => 0,
            Weekday::Tuesday => 1,
            Weekday::Wednesday => 2,
            Weekday::Thursday => 3,
            Weekday::Friday => 4,
            Weekday::Saturday => 5,
            Weekday::Sunday => 6,
        }
    }

    /// The weekday with Monday-based index `i`: 0 is Monday, ..., 6 is Sunday.
    pub fn from_monday0_index(i: u32) -> (r: Weekday)
        requires
            i < 7,
        ensures
            r == weekday_from_monday0(i as int),
    {
        if i == 0 {
            Weekday::Monday
        } else if i == 1 {
            Weekday::Tuesday
        } else if i == 2 {
            Weekday::Wednesday
        } else if i == 3 {
            Weekday::Thursday
        } else if i == 4 {
            Weekday::Friday
        } else if i == 5 {
            Weekday::Saturday
        } else {
            Weekday::Sunday
        }
    }

    /// The weekday with Sunday-based index `i`: 0 is Sunday, ..., 6 is Saturday.
    /// Several algorithms produce their answer in this zero-point; converting
    /// here is the "predecessor shift" applied in one place.
    pub fn from_sunday0_index(i: u32) -> (r: Weekday)
        requires
            i < 7,
        ensures
            r == weekday_from_sunday0(i as int),
    {
        if i == 0 {
            Weekday::Sunday
        } else if i == 1 {
            Weekday::Monday
        } else if i == 2 {
            Weekday::Tuesday
        } else if i == 3 {
            Weekday::Wednesday
        } else if i == 4 {
            Weekday::Thursday
        } else if i == 5 {
            Weekday::Friday
        } else {
            Weekday::Saturday
        }
    }

    /// The previous day of the week.
    pub fn pred(self) -> (r: Weekday)
        ensures
            r.monday0() == (self.monday0() + 6) % 7,
    {
        match self {
            Weekday::Monday => Weekday::Sunday,
            Weekday::Tuesday => Weekday::Monday,
            Weekday::Wednesday => Weekday::Tuesday,
            Weekday::Thursday => Weekday::Wednesday,
            Weekday::Friday => Weekday::Thursday,
            Weekday::Saturday => Weekday::Friday,
            Weekday::Sunday => Weekday::Saturday,
        }
    }

    /// The three-letter English name of the weekday.
    pub open spec fn name_seq(self) -> Seq<char> {
        match self {
            Weekday::Monday => "Mon"@,
            Weekday::Tuesday => "Tue"@,
            Weekday::Wednesday => "Wed"@,
            Weekday::Thursday => "Thu"@,
            Weekday::Friday => "Fri"@,
            Weekday::Saturday => "Sat"@,
            Weekday::Sunday => "Sun"@,
        }
    }

    /// The three-letter English name of the weekday.
    pub fn name(self) -> (r: &'static str)
        ensures
            r@ == self.name_seq(),
    {
        match self {
            Weekday::Monday => "Mon",
            Weekday::Tuesday => "Tue",
            Weekday::Wednesday => "Wed",
            Weekday::Thursday => "Thu",
            Weekday::Friday => "Fri",
            Weekday::Saturday => "Sat",
            Weekday::Sunday => "Sun",
        }
    }

    /// Days since Monday: 0 for Monday through 6 for Sunday.
    pub fn num_days_from_monday(self) -> (r: u32)
        ensures
            r == self.monday0(),
    {
        match self {
            Weekday::Monday => 0,
            Weekday::Tuesday => 1,
            Weekday::Wednesday => 2,
            Weekday::Thursday => 3,
            Weekday::Friday => 4,
            Weekday::Saturday => 5,
            Weekday::Sunday => 6,
        }
    }
}

/// The real-world weekday of a date: its day number reduced mod 7, with
/// remainder 1 for Monday (day 1 of the calendar) and hence 0 for Sunday.
pub open spec fn canonical_weekday_of(y: int, m: int, d: int) -> Weekday {
    weekday_from_sunday0(rata_die(y, m, d) % 7)
}

/// A date of the proleptic Gregorian calendar, year 1 or later.
#[derive(Clone, Copy, Debug, PartialEq, Eq, Structural)]
pub struct CalendarDate {
    pub year: u32,
    pub month: u32,
    pub day: u32,
}

impl CalendarDate {
    /// The triple denotes an existing day of the calendar.
    pub open spec fn valid(self) -> bool {
        &&& 1 <= self.year
        &&& 1 <= self.month <= 12
        &&& 1 <= self.day <= days_in_month_spec(self.year as int, self.month as int)
    }

    /// Day number of this date, with 0001-01-01 as day 1.
    pub open spec fn day_number(self) -> int {
        rata_die(self.year as int, self.month as int, self.day as int)
    }

    /// The real-world weekday of this date.
    pub open spec fn canonical_weekday(self) -> Weekday {
        canonical_weekday_of(self.year as int, self.month as int, self.day as int)
    }

    /// The date (year, month, day), or `None` where the triple names no
    /// existing day (month 13, February 30, and the like).
    pub fn from_ymd_opt(year: u32, month: u32, day: u32) -> (r: Option<CalendarDate>)
        ensures
            r == if (CalendarDate { year, month, day }).valid() {
                Some(CalendarDate { year, month, day })
            } else {
                None::<CalendarDate>
            },
    {
        if 1 <= year && 1 <= month && month <= 12 && 1 <= day && day <= days_in_month(year, month) {
            Some(CalendarDate { year, month, day })
        } else {
            None
        }
    }
}

/// Number of leap years in the half-open range `[a, b)`.
pub open spec fn leap_count(a: int, b: int) -> int
    decreases b - a,
{
    if b <= a {
        0
    } else {
        leap_count(a, b - 1) + if is_leap_spec(b - 1) {
            1int
        } else {
            0int
        }
    }
}

/// A multiple of 100 is a multiple of 4.
proof fn lemma_mod_100_implies_mod_4(y: int)
    requires
        y % 100 == 0,
    ensures
        y % 4 == 0,
{
    lemma_fundamental_div_mod(y, 100);
    lemma_fundamental_div_mod_converse_mod(y, 4, 25 * (y / 100), 0);
}

/// A multiple of 400 is a multiple of 100.
proof fn lemma_mod_400_implies_mod_100(y: int)
    requires
        y % 400 == 0,
    ensures
        y % 100 == 0,
{
    lemma_fundamental_div_mod(y, 400);
    lemma_fundamental_div_mod_converse_mod(y, 100, 4 * (y / 400), 0);
}

/// Moving the dividend up by one moves the quotient up exactly at multiples
/// of the divisor.
proof fn lemma_div_succ(n: int, d: int)
    requires
        0 < d,
    ensures
        n / d == (n - 1) / d + if n % d == 0 {
            1int
        } else {
            0int
        },
{
    lemma_fundamental_div_mod(n - 1, d);
    lemma_mod_division_less_than_divisor(n - 1, d);
    let q: int = (n - 1) / d;
    let r: int = (n - 1) % d;
    assert(n - 1 == d * q + r);
    assert(d * q == q * d) by (nonlinear_arith);
    assert((q + 1) * d == q * d + d) by (nonlinear_arith);
    if r == d - 1 {
        assert(n == (q + 1) * d + 0);
        lemma_fundamental_div_mod_converse_div(n, d, q + 1, 0);
        lemma_fundamental_div_mod_converse_mod(n, d, q + 1, 0);
    } else {
        assert(n == q * d + (r + 1));
        lemma_fundamental_div_mod_converse_div(n, d, q, r + 1);
        lemma_fundamental_div_mod_converse_mod(n, d, q, r + 1);
    }
}

/// Stepping the year count by one adds the length of the year that is passed.
pub proof fn lemma_days_before_year_succ(y: int)
    ensures
        days_before_year(y + 1) == days_before_year(y) + if is_leap_spec(y) {
            366int
        } else {
            365int
        },
{
    lemma_div_succ(y, 4);
    lemma_div_succ(y, 100);
    lemma_div_succ(y, 400);
    if y % 400 == 0 {
        lemma_mod_400_implies_mod_100(y);
    }
    if y % 100 == 0 {
        lemma_mod_100_implies_mod_4(y);
    }
}

/// The day count between two New Year's days: 365 days per year plus one per
/// leap year passed.
pub proof fn lemma_days_before_year_span(a: int, b: int)
    requires
        a <= b,
    ensures
        days_before_year(b) == days_before_year(a) + 365 * (b - a) + leap_count(a, b),
    decreases b - a,
{
    if a < b {
        lemma_days_before_year_span(a, b - 1);
        lemma_days_before_year_succ(b - 1);
    }
}

/// A span that starts at a leap year and contains no further leap year
/// contains exactly one.
pub proof fn lemma_leap_count_single(a: int, b: int)
    requires
        is_leap_spec(a),
        a < b,
        forall|k: int| a < k < b ==> !is_leap_spec(k),
    ensures
        leap_count(a, b) == 1,
    decreases b - a,
{
    if b > a + 1 {
        lemma_leap_count_single(a, b - 1);
    } else {
        assert(leap_count(a, a) == 0);
    }
}

/// Leap years are multiples of four.
pub proof fn lemma_leap_is_div4(y: int)
    requires
        is_leap_spec(y),
    ensures
        y % 4 == 0,
{
    if y % 400 == 0 {
        lemma_mod_400_implies_mod_100(y);
        lemma_mod_100_implies_mod_4(y);
    }
}

/// A year that is no multiple of four is no leap year.
pub proof fn lemma_not_leap_if_not_div4(y: int)
    requires
        y % 4 != 0,
    ensures
        !is_leap_spec(y),
{
    if is_leap_spec(y) {
        lemma_leap_is_div4(y);
    }
}

/// February 29 exists exactly in leap years.
pub proof fn lemma_leap_iff_feb_29(y: int)
    requires
        1853 <= y <= 9999,
    ensures
        is_leap_spec(y) <==> (CalendarDate { year: y as u32, month: 2, day: 29 }).valid(),
{
}

/// A count of leap years is never negative.
pub proof fn lemma_leap_count_nonneg(a: int, b: int)
    ensures
        leap_count(a, b) >= 0,
    decreases b - a,
{
    if b > a {
        lemma_leap_count_nonneg(a, b - 1);
    }
}

/// Days in the years strictly before year `y`.
pub fn days_before_year_count(y: u32) -> (r: u32)
    requires
        1 <= y <= 99999,
    ensures
        r == days_before_year(y as int),
{
    proof {
        lemma_div_nonincreasing(y as int - 1, 100);
    }
    365 * (y - 1) + (y - 1) / 4 + (y - 1) / 400 - (y - 1) / 100
}

/// Days in the months strictly before month `m`, in a common year.
pub fn days_before_month_count(m: u32) -> (r: u32)
    requires
        1 <= m <= 12,
    ensures
        r == days_before_month(m as int),
{
    match m {
        1 => 0,
        2 => 31,
        3 => 59,
        4 => 90,
        5 => 120,
        6 => 151,
        7 => 181,
        8 => 212,
        9 => 243,
        10 => 273,
        11 => 304,
        _ => 334,
    }
}

impl CalendarDate {
    /// Day number of this date, with 0001-01-01 as day 1.
    pub fn num_days_from_ce(self) -> (r: u32)
        requires
            self.valid(),
            self.year <= 99999,
        ensures
            r == self.day_number(),
    {
        let base: u32 = days_before_year_count(self.year);
        let before: u32 = days_before_month_count(self.month);
        let adj: u32 = if self.month > 2 && is_leap_year(self.year) {
            1
        } else {
            0
        };
        base + before + self.day + adj
    }
}

/// Length of year `y` in days.
pub fn year_length_of(y: u32) -> (r: u32)
    ensures
        r == 365 + if is_leap_spec(y as int) {
            1int
        } else {
            0int
        },
{
    if is_leap_year(y) {
        366
    } else {
        365
    }
}

/// Whether year `y` is a leap year.
pub fn is_leap_year(y: u32) -> (r: bool)
    ensures
        r == is_leap_spec(y as int),
{
    (y % 4 == 0 && y % 100 != 0) || (y % 400 == 0)
}

/// Length of month `m` of year `y`.
pub fn days_in_month(y: u32, m: u32) -> (r: u32)
    requires
        1 <= m <= 12,
    ensures
        r == days_in_month_spec(y as int, m as int),
{
    if m == 2 {
        if is_leap_year(y) {
            29
        } else {
            28
        }
    } else if m == 4 || m == 6 || m == 9 || m == 11 {
        30
    } else {
        31
    }
}

} // verus!
