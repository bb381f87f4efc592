//! The random quiz question: a date drawn from a bounded year range, by its
//! day-count offset from the range's first January 1st.

use crate::date::{
    day_of_year, days_before_month, days_before_year, days_before_year_count, days_in_month,
    days_in_month_spec, is_leap_spec, lemma_days_before_year_span, lemma_days_before_year_succ,
    lemma_leap_count_nonneg, rata_die, year_length_of, CalendarDate, Weekday,
};
use crate::devi::{devi_tips, devi_weekday, shakuntala_devi, tips_view, Tips};
use rand::Rng;
use vstd::prelude::*;

verus! {

/// Relies on rand's `thread_rng` and `Rng::gen_range`: the sample lies in
/// the half-open range it is drawn from. The call panics only on an empty
/// range, which the precondition rules out.
#[verifier::external_body]
fn sample_range(lo: u32, hi: u32) -> (r: u32)
    requires
        lo < hi,
    ensures
        lo <= r < hi,
{
    rand::thread_rng().gen_range(lo..hi)
}

/// The date whose day number is `n`, sought from year `lo` through `hi`.
fn date_from_day_number(n: u32, lo: u32, hi: u32) -> (r: CalendarDate)
    requires
        1 <= lo <= hi <= 99999,
        days_before_year(lo as int) < n as int <= days_before_year(hi as int + 1),
    ensures
        r.valid(),
        r.day_number() == n,
        lo <= r.year <= hi,
{
    let mut y: u32 = lo;
    let mut rem: u32 = n - days_before_year_count(lo);
    let mut len: u32 = year_length_of(y);
    while len < rem
        invariant
            lo <= y <= hi,
            hi <= 99999,
            1 <= rem,
            n as int == days_before_year(y as int) + rem,
            n as int <= days_before_year(hi as int + 1),
            len == 365 + if is_leap_spec(y as int) {
                1int
            } else {
                0int
            },
        decreases hi - y,
    {
        proof {
            lemma_days_before_year_succ(y as int);
            if y == hi {
                assert(false);
            }
        }
        rem = rem - len;
        y = y + 1;
        len = year_length_of(y);
    }
    proof {
        lemma_days_before_year_succ(y as int);
    }
    let mut m: u32 = 1;
    let mut dim: u32 = days_in_month(y, 1);
    while dim < rem
        invariant
            1 <= m <= 12,
            1 <= rem,
            day_of_year(y as int, m as int, rem as int) <= 365 + if is_leap_spec(y as int) {
                1int
            } else {
                0int
            },
            n as int == days_before_year(y as int) + day_of_year(y as int, m as int, rem as int),
            dim == days_in_month_spec(y as int, m as int),
        decreases 12 - m,
    {
        proof {
            if m == 12 {
                assert(false);
            }
        }
        rem = rem - dim;
        m = m + 1;
        dim = days_in_month(y, m);
    }
    CalendarDate { year: y, month: m, day: rem }
}

/// A quiz date drawn from `[from_year, to_year)`: its day number is drawn
/// uniformly from the day range spanned by the two years' January 1sts,
/// counted from the 7th of the first January. The result never falls before
/// January 8 of the first year nor after January 6 of the closing year.
pub fn random_date(from_year: u32, to_year: u32) -> (r: CalendarDate)
    requires
        1 <= from_year < to_year <= 9999,
    ensures
        r.valid(),
        from_year <= r.year <= to_year,
        rata_die(from_year as int, 1, 7) < r.day_number() <= rata_die(to_year as int, 1, 6),
        r.year == to_year ==> r.month == 1 && r.day <= 6,
{
    let start: u32 = days_before_year_count(from_year) + 1;
    let end: u32 = days_before_year_count(to_year) + 1;
    proof {
        lemma_days_before_year_span(from_year as int, to_year as int);
        lemma_leap_count_nonneg(from_year as int, to_year as int);
        lemma_days_before_year_succ(to_year as int);
    }
    let days: u32 = sample_range(1, end - start);
    let target: u32 = start + 6 + days;
    let r = date_from_day_number(target, from_year, to_year);
    proof {
        if r.year == to_year {
            assert(day_of_year(r.year as int, r.month as int, r.day as int) <= 6);
            if r.month >= 2 {
                assert(days_before_month(r.month as int) >= 31);
            }
        }
    }
    r
}

/// A quiz question: a random date of the range, the weekday the Shakuntala
/// Devi method computes for it — which is the calendar's weekday — and the
/// method's explanation steps.
pub fn random_date_with_tips(from_year: u32, to_year: u32) -> (r: (CalendarDate, Weekday, Tips))
    requires
        1584 <= from_year < to_year <= 2204,
    ensures
        r.0.valid(),
        from_year <= r.0.year <= to_year,
        rata_die(from_year as int, 1, 7) < r.0.day_number() <= rata_die(to_year as int, 1, 6),
        r.0.year == to_year ==> r.0.month == 1 && r.0.day <= 6,
        r.1 == r.0.canonical_weekday(),
        r.1 == devi_weekday(r.0),
        tips_view(r.2) == devi_tips(r.0),
{
    let date = random_date(from_year, to_year);
    let answer = shakuntala_devi(date);
    (date, answer.0, answer.1)
}

} // verus!
