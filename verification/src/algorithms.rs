//! The independent weekday algorithms: Tomohiko Sakamoto's formula, Zeller's
//! congruence, and Conway's doomsday rule. Each is proved to return the
//! canonical weekday of its date by exhibiting its sum as the date's day
//! number plus a multiple of seven.

use crate::date::{
    is_leap_spec, is_leap_year, lemma_days_before_year_succ, rata_die, weekday_from_monday0,
    weekday_from_sunday0, CalendarDate, Weekday,
};
use vstd::arithmetic::div_mod::{
    lemma_add_mod_noop, lemma_add_mod_noop_right, lemma_div_nonincreasing,
    lemma_fundamental_div_mod, lemma_fundamental_div_mod_converse_div,
    lemma_fundamental_div_mod_converse_mod, lemma_mod_division_less_than_divisor,
    lemma_mod_multiples_vanish,
};
use vstd::prelude::*;

verus! {

/// Sakamoto's fixed per-month offsets.
spec fn sakamoto_offset(m: int) -> int {
    if m == 1 {
        0
    } else if m == 2 {
        3
    } else if m == 3 {
        2
    } else if m == 4 {
        5
    } else if m == 5 {
        0
    } else if m == 6 {
        3
    } else if m == 7 {
        5
    } else if m == 8 {
        1
    } else if m == 9 {
        4
    } else if m == 10 {
        6
    } else if m == 11 {
        2
    } else {
        4
    }
}

/// The sum Sakamoto's algorithm reduces mod 7; its remainder is the weekday
/// with Sunday as 0.
spec fn sakamoto_sum(y: int, m: int, d: int) -> int {
    let yy = if m < 3 {
        y - 1
    } else {
        y
    };
    yy + yy / 4 - yy / 100 + yy / 400 + sakamoto_offset(m) + d
}

/// Sakamoto's sum differs from the day number by a multiple of seven.
proof fn lemma_sakamoto_congruence(y: int, m: int, d: int)
    requires
        1 <= m <= 12,
    ensures
        sakamoto_sum(y, m, d) % 7 == rata_die(y, m, d) % 7,
{
    if m >= 3 {
        lemma_days_before_year_succ(y);
        let c: int = if m == 3 {
            44
        } else if m == 4 {
            40
        } else if m == 5 {
            35
        } else if m == 6 {
            31
        } else if m == 7 {
            27
        } else if m == 8 {
            22
        } else if m == 9 {
            18
        } else if m == 10 {
            14
        } else if m == 11 {
            9
        } else {
            5
        };
        assert(sakamoto_sum(y, m, d) == rata_die(y, m, d) + 7 * (c - 52 * y));
        lemma_mod_multiples_vanish(c - 52 * y, rata_die(y, m, d), 7);
    } else {
        lemma_days_before_year_succ(y - 1);
        let c: int = if m == 1 {
            0
        } else {
            -4
        };
        assert(sakamoto_sum(y, m, d) == rata_die(y, m, d) + 7 * (c - 52 * (y - 1)));
        lemma_mod_multiples_vanish(c - 52 * (y - 1), rata_die(y, m, d), 7);
    }
}

/// Sakamoto's per-month offset.
fn sakamoto_month_offset(m: u32) -> (r: u32)
    requires
        1 <= m <= 12,
    ensures
        r == sakamoto_offset(m as int),
{
    match m {
        1 => 0,
        2 => 3,
        3 => 2,
        4 => 5,
        5 => 0,
        6 => 3,
        7 => 5,
        8 => 1,
        9 => 4,
        10 => 6,
        11 => 2,
        _ => 4,
    }
}

/// Tomohiko Sakamoto's algorithm: shift January and February into the
/// previous year, add the fixed month offset, and reduce mod 7.
pub fn tomohiko_sakamoto(dt: CalendarDate) -> (r: Weekday)
    requires
        dt.valid(),
        dt.year <= 99999,
    ensures
        r == dt.canonical_weekday(),
{
    let y: u32 = if dt.month < 3 {
        dt.year - 1
    } else {
        dt.year
    };
    proof {
        lemma_div_nonincreasing(y as int, 4);
        lemma_div_nonincreasing(y as int, 100);
        lemma_div_nonincreasing(y as int, 400);
    }
    let t: u32 = sakamoto_month_offset(dt.month);
    let sum: u32 = y + y / 4 + y / 400 + t + dt.day - y / 100;
    proof {
        lemma_sakamoto_congruence(dt.year as int, dt.month as int, dt.day as int);
        assert(sum == sakamoto_sum(dt.year as int, dt.month as int, dt.day as int));
        lemma_mod_division_less_than_divisor(rata_die(dt.year as int, dt.month as int, dt.day as int), 7);
    }
    Weekday::from_sunday0_index(sum % 7)
}

/// The sum Zeller's congruence reduces mod 7. The `- 2` term already turns
/// Zeller's own Saturday-based zero point into a Monday-based one.
spec fn zeller_sum(y: int, m: int, d: int) -> int {
    let yy = if m < 3 {
        y - 1
    } else {
        y
    };
    let mm = if m < 3 {
        m + 12
    } else {
        m
    };
    d - 2 + 13 * (mm + 1) / 5 + yy + yy / 4 - yy / 100 + yy / 400
}

/// Zeller's sum differs from the day number plus six by a multiple of seven,
/// so its remainder is the weekday with Monday as 0.
proof fn lemma_zeller_congruence(y: int, m: int, d: int)
    requires
        1 <= m <= 12,
    ensures
        zeller_sum(y, m, d) % 7 == (rata_die(y, m, d) + 6) % 7,
{
    if m >= 3 {
        lemma_days_before_year_succ(y);
        let c: int = if m == 3 {
            44
        } else if m == 4 {
            40
        } else if m == 5 {
            36
        } else if m == 6 {
            32
        } else if m == 7 {
            28
        } else if m == 8 {
            24
        } else if m == 9 {
            20
        } else if m == 10 {
            16
        } else if m == 11 {
            12
        } else {
            8
        };
        assert(zeller_sum(y, m, d) == rata_die(y, m, d) + 6 + 7 * (c - 52 * y));
        lemma_mod_multiples_vanish(c - 52 * y, rata_die(y, m, d) + 6, 7);
    } else {
        lemma_days_before_year_succ(y - 1);
        let c: int = if m == 1 {
            4
        } else {
            0
        };
        assert(zeller_sum(y, m, d) == rata_die(y, m, d) + 6 + 7 * (c - 52 * (y - 1)));
        lemma_mod_multiples_vanish(c - 52 * (y - 1), rata_die(y, m, d) + 6, 7);
    }
}

/// A Monday-based index shifted by six names the same weekday as the
/// unshifted Sunday-based index.
proof fn lemma_monday0_of_shifted(r: int)
    ensures
        weekday_from_monday0((r + 6) % 7) == weekday_from_sunday0(r % 7),
{
    lemma_add_mod_noop(r, 6, 7);
    lemma_mod_division_less_than_divisor(r, 7);
}

/// Zeller's congruence: January and February count as months 13 and 14 of
/// the previous year; `13 * (month + 1) / 5` supplies the month's offset.
pub fn zeller(dt: CalendarDate) -> (r: Weekday)
    requires
        dt.valid(),
        dt.year <= 99999,
    ensures
        r == dt.canonical_weekday(),
{
    let mut year: u32 = dt.year;
    let mut month: u32 = dt.month;
    if dt.month < 3 {
        month += 12;
        year -= 1;
    }
    proof {
        lemma_div_nonincreasing(year as int, 4);
        lemma_div_nonincreasing(year as int, 100);
        lemma_div_nonincreasing(year as int, 400);
    }
    let sum: u32 = dt.day + 13 * (month + 1) / 5 + year + year / 4 + year / 400 - 2 - year / 100;
    let idx: u32 = sum % 7;
    proof {
        let rd = rata_die(dt.year as int, dt.month as int, dt.day as int);
        lemma_zeller_congruence(dt.year as int, dt.month as int, dt.day as int);
        assert(sum == zeller_sum(dt.year as int, dt.month as int, dt.day as int));
        lemma_mod_division_less_than_divisor(rd + 6, 7);
        lemma_monday0_of_shifted(rd);
    }
    Weekday::from_monday0_index(idx)
}

/// Doomsday-rule anchor day of a year's century, as a Sunday-based index.
/// Only the centuries 1800 through 2199 have one here.
pub open spec fn anchor_day_spec(y: int) -> int {
    if 1800 <= y <= 1899 {
        5
    } else if 1900 <= y <= 1999 {
        3
    } else if 2000 <= y <= 2099 {
        2
    } else {
        0
    }
}

/// The day of month `m` that falls on the year's doomsday, in a common year.
pub open spec fn doomsday_common_spec(m: int) -> int {
    if m == 1 {
        3
    } else if m == 2 {
        28
    } else if m == 3 {
        7
    } else if m == 4 {
        4
    } else if m == 5 {
        9
    } else if m == 6 {
        6
    } else if m == 7 {
        11
    } else if m == 8 {
        8
    } else if m == 9 {
        5
    } else if m == 10 {
        10
    } else if m == 11 {
        7
    } else {
        12
    }
}

/// The day of month `m` that falls on the year's doomsday, in a leap year.
/// Only January and February differ from the common-year table.
pub open spec fn doomsday_leap_spec(m: int) -> int {
    if m == 1 {
        4
    } else if m == 2 {
        29
    } else {
        doomsday_common_spec(m)
    }
}

/// The day of month `m` of year `y` that falls on the year's doomsday.
pub open spec fn doomsday_of_month(y: int, m: int) -> int {
    if is_leap_spec(y) {
        doomsday_leap_spec(m)
    } else {
        doomsday_common_spec(m)
    }
}

/// The sum whose remainder mod 7 is the year's doomsday, Sunday-based.
spec fn dooms_sum(y: int) -> int {
    let y2 = y % 100;
    y2 / 12 + (y2 - 12 * (y2 / 12)) + (y2 - 12 * (y2 / 12)) / 4 + anchor_day_spec(y)
}

/// The doomsday sum lands on the day number of each month's doomsday date,
/// mod 7.
#[verifier::rlimit(50)]
proof fn lemma_doomsday_anchor(y: int, m: int)
    requires
        1800 <= y <= 2199,
        1 <= m <= 12,
    ensures
        dooms_sum(y) % 7 == rata_die(y, m, doomsday_of_month(y, m)) % 7,
{
    let c = y / 100;
    let y2 = y % 100;
    lemma_fundamental_div_mod(y, 100);
    lemma_mod_division_less_than_divisor(y, 100);
    assert(18 <= c <= 21);
    let q = y2 / 12;
    let r = y2 % 12;
    lemma_fundamental_div_mod(y2, 12);
    lemma_mod_division_less_than_divisor(y2, 12);
    let u = y2 / 4;
    let v = y2 % 4;
    lemma_fundamental_div_mod(y2, 4);
    lemma_mod_division_less_than_divisor(y2, 4);
    let w = r / 4;
    lemma_fundamental_div_mod(r, 4);
    lemma_mod_division_less_than_divisor(r, 4);
    // y / 4 == 25 * c + u
    assert(y == 4 * (25 * c + u) + v);
    lemma_fundamental_div_mod_converse_div(y, 4, 25 * c + u, v);
    // y / 400 == c / 4
    lemma_fundamental_div_mod(c, 4);
    lemma_mod_division_less_than_divisor(c, 4);
    assert(y == 400 * (c / 4) + (100 * (c % 4) + y2));
    lemma_fundamental_div_mod_converse_div(y, 400, c / 4, 100 * (c % 4) + y2);
    // u == 3 * q + w
    assert(y2 == 4 * (3 * q + w) + (r % 4));
    lemma_fundamental_div_mod_converse_div(y2, 4, 3 * q + w, r % 4);
    // the year-count identity turns the day count into the division terms above
    lemma_days_before_year_succ(y);
    let ac: int = if c == 18 {
        13
    } else if c == 19 {
        14
    } else if c == 20 {
        15
    } else {
        16
    };
    assert(anchor_day_spec(y) == 5 * c + c / 4 + 2 - 7 * ac);
    let bb: int = if m == 1 {
        52
    } else if m == 2 {
        44
    } else if m == 3 {
        43
    } else if m == 4 {
        39
    } else if m == 5 {
        34
    } else if m == 6 {
        30
    } else if m == 7 {
        25
    } else if m == 8 {
        21
    } else if m == 9 {
        17
    } else if m == 10 {
        12
    } else if m == 11 {
        8
    } else {
        3
    };
    let rd = rata_die(y, m, doomsday_of_month(y, m));
    assert(dooms_sum(y) == rd + 7 * (bb - 626 * q - 52 * r - 5217 * c - ac));
    lemma_mod_multiples_vanish(bb - 626 * q - 52 * r - 5217 * c - ac, rd, 7);
}

/// Anchor day of the year's century: the Sunday-based weekday index shared
/// by every doomsday of that century. Defined for 1800 through 2199 only.
pub fn anchor_day(year: u32) -> (r: u32)
    requires
        1800 <= year <= 2199,
    ensures
        r == anchor_day_spec(year as int),
{
    if year <= 1899 {
        5
    } else if year <= 1999 {
        3
    } else if year <= 2099 {
        2
    } else {
        0
    }
}

/// Doomsday of the month in a common year.
pub fn doomsday_month_common(m: u32) -> (r: u32)
    requires
        1 <= m <= 12,
    ensures
        r == doomsday_common_spec(m as int),
        r <= 28,
{
    match m {
        1 => 3,
        2 => 28,
        3 => 7,
        4 => 4,
        5 => 9,
        6 => 6,
        7 => 11,
        8 => 8,
        9 => 5,
        10 => 10,
        11 => 7,
        _ => 12,
    }
}

/// Doomsday of the month in a leap year.
pub fn doomsday_month_leap(m: u32) -> (r: u32)
    requires
        1 <= m <= 12,
    ensures
        r == doomsday_leap_spec(m as int),
        r <= 29,
{
    match m {
        1 => 4,
        2 => 29,
        3 => 7,
        4 => 4,
        5 => 9,
        6 => 6,
        7 => 11,
        8 => 8,
        9 => 5,
        10 => 10,
        11 => 7,
        _ => 12,
    }
}

/// Conway's doomsday rule: derive the year's doomsday from the two-digit
/// year and the century's anchor day, then step from the month's doomsday
/// date to the target day.
pub fn conway_doomsday(dt: CalendarDate) -> (r: Weekday)
    requires
        dt.valid(),
        1800 <= dt.year <= 2199,
    ensures
        r == dt.canonical_weekday(),
{
    let two_digit: u32 = dt.year % 100;
    let step1: u32 = two_digit / 12;
    proof {
        lemma_fundamental_div_mod(two_digit as int, 12);
        lemma_mod_division_less_than_divisor(two_digit as int, 12);
    }
    let step2: u32 = two_digit - 12 * step1;
    let step3: u32 = step2 / 4;
    let step4: u32 = anchor_day(dt.year);
    let step5: u32 = step1 + step2 + step3 + step4;
    let step6: u32 = step5 % 7;
    let step7: u32 = if is_leap_year(dt.year) {
        doomsday_month_leap(dt.month)
    } else {
        doomsday_month_common(dt.month)
    };
    let step8: u32 = step6 + 35 + dt.day - step7;
    let idx: u32 = step8 % 7;
    proof {
        let y = dt.year as int;
        let m = dt.month as int;
        let d = dt.day as int;
        let t = doomsday_of_month(y, m);
        let rd_t = rata_die(y, m, t);
        let rd_d = rata_die(y, m, d);
        lemma_doomsday_anchor(y, m);
        assert(step5 == dooms_sum(y));
        assert(step6 == rd_t % 7);
        lemma_add_mod_noop_right(35 + d - t, rd_t, 7);
        assert((step6 + 35 + d - t) % 7 == (rd_t + 35 + d - t) % 7);
        assert(rd_t + d - t == rd_d);
        lemma_mod_multiples_vanish(5, rd_d, 7);
        lemma_mod_division_less_than_divisor(rd_d, 7);
    }
    Weekday::from_sunday0_index(idx)
}

} // verus!
