//! The Shakuntala Devi method: a mental-calculation rule that combines the
//! day, a fixed per-month offset, and a per-leap-year table value, and that
//! explains its own intermediate steps so a quiz can hand them out as hints.

use crate::date::{
    days_before_month, days_before_year, is_leap_spec, is_leap_year, lemma_days_before_year_span,
    lemma_leap_count_single, lemma_leap_is_div4, weekday_from_sunday0, CalendarDate, Weekday,
};
use crate::text::{dec_seq, label_num, u32_to_dec};
use crate::year_table::{lemma_entry_of_leap_year, year_table_entry, YearTable};
use vstd::arithmetic::div_mod::{
    lemma_add_mod_noop, lemma_fundamental_div_mod, lemma_fundamental_div_mod_converse_mod,
    lemma_mod_division_less_than_divisor, lemma_mod_multiples_vanish,
};
use vstd::prelude::*;
use vstd::string::StringExecFns;

verus! {

/// The fixed per-month offset of the method, for months 1 through 12.
pub open spec fn month_table_spec(m: int) -> int {
    if m == 1 {
        0
    } else if m == 2 {
        3
    } else if m == 3 {
        3
    } else if m == 4 {
        6
    } else if m == 5 {
        1
    } else if m == 6 {
        4
    } else if m == 7 {
        6
    } else if m == 8 {
        2
    } else if m == 9 {
        5
    } else if m == 10 {
        0
    } else if m == 11 {
        3
    } else {
        5
    }
}

/// The per-month offset of month `m`.
pub fn month_table_entry(m: u32) -> (r: u32)
    requires
        1 <= m <= 12,
    ensures
        r == month_table_spec(m as int),
{
    match m {
        1 => 0,
        2 => 3,
        3 => 3,
        4 => 6,
        5 => 1,
        6 => 4,
        7 => 6,
        8 => 2,
        9 => 5,
        10 => 0,
        11 => 3,
        _ => 5,
    }
}

/// The ordered explanation steps of one computation, consumed by the quiz
/// front-ends as progressive hints, first in first out.
#[derive(Clone, Debug)]
pub struct Tips(pub Vec<String>);

/// The strings a `Tips` holds, as character sequences.
pub open spec fn tips_view(t: Tips) -> Seq<Seq<char>> {
    t.0@.map_values(|s: String| s@)
}

/// The tip lines joined into one block of text, each line closed by a
/// newline.
pub open spec fn joined_lines(ts: Seq<Seq<char>>) -> Seq<char>
    decreases ts.len(),
{
    if ts.len() == 0 {
        Seq::empty()
    } else {
        joined_lines(ts.drop_last()) + ts.last() + "\n"@
    }
}

impl Tips {
    /// All steps as one block of text, one line per step.
    pub fn to_text(&self) -> (s: String)
        ensures
            s@ == joined_lines(tips_view(*self)),
    {
        let mut s: String = String::new();
        let mut i: usize = 0;
        while i < self.0.len()
            invariant
                i <= self.0@.len(),
                s@ == joined_lines(tips_view(*self).take(i as int)),
            decreases self.0@.len() - i,
        {
            s.append(self.0[i].as_str());
            s.append("\n");
            proof {
                let views = tips_view(*self);
                assert(views.take(i as int + 1).drop_last() =~= views.take(i as int));
                assert(views.take(i as int + 1).last() == views[i as int]);
            }
            i = i + 1;
        }
        proof {
            assert(tips_view(*self).take(self.0@.len() as int) =~= tips_view(*self));
        }
        s
    }
}

/// Pushing a string onto the tip list pushes its view.
proof fn lemma_tips_push(v: Seq<String>, s: String)
    ensures
        v.push(s).map_values(|x: String| x@) == v.map_values(|x: String| x@).push(s@),
{
    assert(v.push(s).map_values(|x: String| x@) =~= v.map_values(|x: String| x@).push(s@));
}

/// Concatenating tip lists concatenates their views.
proof fn lemma_tips_concat(a: Seq<String>, b: Seq<String>)
    ensures
        (a + b).map_values(|x: String| x@) == a.map_values(|x: String| x@) + b.map_values(
            |x: String| x@,
        ),
{
    assert((a + b).map_values(|x: String| x@) =~= a.map_values(|x: String| x@) + b.map_values(
        |x: String| x@,
    ));
}

/// The nearest leap year strictly before `y`, defined from 1585 on.
pub open spec fn prev_leap(y: int) -> int
    decreases y,
    when y >= 1585
    via prev_leap_decreases
{
    if is_leap_spec(y - 1) {
        y - 1
    } else {
        prev_leap(y - 1)
    }
}

#[via_fn]
proof fn prev_leap_decreases(y: int) {
    // the recursion stops at 1584, itself a leap year
    assert(is_leap_spec(1584));
}

/// What `prev_leap` names: the unique leap year below `y` with none above
/// it below `y`. It never lies below 1584, the first year of the table.
pub proof fn lemma_prev_leap(y: int)
    requires
        1585 <= y,
    ensures
        1584 <= prev_leap(y) < y,
        is_leap_spec(prev_leap(y)),
        forall|k: int| prev_leap(y) < k < y ==> !is_leap_spec(k),
    decreases y,
{
    if !is_leap_spec(y - 1) {
        assert(is_leap_spec(1584));
        lemma_prev_leap(y - 1);
    }
}

// The explanation strings, one spec function per phrasing.

/// "(day D + month table entry E) mod 7 = R"
pub open spec fn tip_step1(day: int, entry: int, r1: int) -> Seq<char> {
    "(day "@ + dec_seq(day) + " + month table entry "@ + dec_seq(entry) + ") mod 7 = "@ + dec_seq(
        r1,
    )
}

/// The tip of a leap year found directly in the table.
pub open spec fn tip_leap_direct(v: int) -> Seq<char> {
    "leap year and direct year table entry "@ + dec_seq(v)
}

/// The tip of a table year that is no leap year.
pub open spec fn tip_not_leap_direct(v: int) -> Seq<char> {
    "not a leap year but direct year table entry "@ + dec_seq(v)
}

/// The nearest leap year, after a table year that is no leap year.
pub open spec fn tip_nearest(l: int) -> Seq<char> {
    "nearest leap year "@ + dec_seq(l)
}

/// The table entry of that nearest leap year.
pub open spec fn tip_nearest_entry(v: int) -> Seq<char> {
    "nearest leap year table entry "@ + dec_seq(v)
}

/// The nearest leap year, for a year with no table entry at all.
pub open spec fn tip_no_entry_nearest(l: int) -> Seq<char> {
    "no direct year table entry, nearest leap year "@ + dec_seq(l)
}

/// The table entry of that nearest leap year.
pub open spec fn tip_no_entry_nearest_entry(v: int) -> Seq<char> {
    "no direct year table entry, nearest leap year table entry "@ + dec_seq(v)
}

/// Resolve the year of the method's second step: the table value itself for
/// a leap year that sits in the table, and the nearest earlier leap year
/// otherwise. With `tracing`, the steps taken come back as tips.
pub fn shakuntala_devi_nearest_leap_year(table: &YearTable, year: u32, tracing: bool) -> (res: (
    u32,
    Tips,
))
    requires
        table.wf(),
        1584 <= year <= 2204,
    ensures
        ({
            let e = year_table_entry(year as int);
            if e is Some && is_leap_spec(year as int) {
                &&& res.0 == e.unwrap()
                &&& tips_view(res.1) == if tracing {
                    seq![tip_leap_direct(e.unwrap())]
                } else {
                    Seq::<Seq<char>>::empty()
                }
            } else {
                let l = prev_leap(year as int);
                let le = year_table_entry(l);
                &&& res.0 == l
                &&& le is Some
                &&& tips_view(res.1) == if !tracing {
                    Seq::<Seq<char>>::empty()
                } else if e is Some {
                    seq![
                        tip_not_leap_direct(e.unwrap()),
                        tip_nearest(l),
                        tip_nearest_entry(le.unwrap()),
                    ]
                } else {
                    seq![tip_no_entry_nearest(l), tip_no_entry_nearest_entry(le.unwrap())]
                }
            }
        }),
{
    let mut tips: Vec<String> = Vec::new();
    let entry = table.get(year);
    let leap = is_leap_year(year);
    if entry.is_some() && leap {
        let v: u8 = entry.unwrap();
        if tracing {
            let tip = label_num("leap year and direct year table entry ", v as u32);
            proof {
                lemma_tips_push(tips@, tip);
            }
            tips.push(tip);
            proof {
                assert(tips@.map_values(|x: String| x@) =~= seq![
                    tip_leap_direct(year_table_entry(year as int).unwrap()),
                ]);
            }
        } else {
            proof {
                assert(tips@.map_values(|x: String| x@) =~= Seq::<Seq<char>>::empty());
            }
        }
        (v as u32, Tips(tips))
    } else {
        proof {
            if year == 1584 {
                assert(year_table_entry(1584) is Some);
                assert(is_leap_spec(1584));
            }
        }
        let ghost witness: int = {
            let m4 = ((year - 1) as int / 4) * 4;
            if is_leap_spec(m4) {
                m4
            } else {
                m4 - 4
            }
        };
        proof {
            let yi = year as int;
            lemma_fundamental_div_mod(yi - 1, 4);
            lemma_mod_division_less_than_divisor(yi - 1, 4);
            let q = (yi - 1) / 4;
            let m4 = q * 4;
            lemma_fundamental_div_mod_converse_mod(m4, 4, q, 0);
            assert(yi - 5 <= m4 <= yi - 1);
            if !is_leap_spec(m4) {
                assert(m4 % 100 == 0);
                lemma_fundamental_div_mod(m4, 100);
                lemma_fundamental_div_mod_converse_mod(m4 - 4, 4, q - 1, 0);
                lemma_fundamental_div_mod_converse_mod(m4 - 4, 100, m4 / 100 - 1, 96);
                assert(is_leap_spec(m4 - 4));
            }
            assert(is_leap_spec(witness) && year as int - 9 <= witness < year as int);
        }
        let mut nearest: u32 = year - 1;
        while !is_leap_year(nearest)
            invariant
                1584 <= year <= 2204,
                witness <= nearest < year,
                is_leap_spec(witness),
                year as int - 9 <= witness,
                forall|k: int| nearest < k < year ==> !is_leap_spec(k),
            decreases nearest,
        {
            proof {
                assert(nearest != witness);
            }
            nearest = nearest - 1;
        }
        proof {
            let yi = year as int;
            let ni = nearest as int;
            lemma_prev_leap(yi);
            if ni < prev_leap(yi) {
                assert(!is_leap_spec(prev_leap(yi)));
            }
            if ni > prev_leap(yi) {
                assert(!is_leap_spec(ni));
            }
            assert(ni == prev_leap(yi));
            // the nearest leap year has a table entry
            assert(1584 <= ni);
            lemma_leap_is_div4(ni);
            if ni >= 2200 {
                assert(ni == 2200);
                assert(!is_leap_spec(2200));
            }
            assert(year_table_entry(ni) is Some);
        }
        if tracing {
            if entry.is_some() {
                let v: u8 = entry.unwrap();
                let tip1 = label_num("not a leap year but direct year table entry ", v as u32);
                proof {
                    lemma_tips_push(tips@, tip1);
                }
                tips.push(tip1);
                let tip2 = label_num("nearest leap year ", nearest);
                proof {
                    lemma_tips_push(tips@, tip2);
                }
                tips.push(tip2);
                let vl: u8 = table.get(nearest).unwrap();
                let tip3 = label_num("nearest leap year table entry ", vl as u32);
                proof {
                    lemma_tips_push(tips@, tip3);
                }
                tips.push(tip3);
                proof {
                    assert(tips@.map_values(|x: String| x@) =~= seq![
                        tip_not_leap_direct(year_table_entry(year as int).unwrap()),
                        tip_nearest(nearest as int),
                        tip_nearest_entry(year_table_entry(nearest as int).unwrap()),
                    ]);
                }
            } else {
                let tip1 = label_num("no direct year table entry, nearest leap year ", nearest);
                proof {
                    lemma_tips_push(tips@, tip1);
                }
                tips.push(tip1);
                let vl: u8 = table.get(nearest).unwrap();
                let tip2 = label_num(
                    "no direct year table entry, nearest leap year table entry ",
                    vl as u32,
                );
                proof {
                    lemma_tips_push(tips@, tip2);
                }
                tips.push(tip2);
                proof {
                    assert(tips@.map_values(|x: String| x@) =~= seq![
                        tip_no_entry_nearest(nearest as int),
                        tip_no_entry_nearest_entry(year_table_entry(nearest as int).unwrap()),
                    ]);
                }
            }
        } else {
            proof {
                assert(tips@.map_values(|x: String| x@) =~= Seq::<Seq<char>>::empty());
            }
        }
        (nearest, Tips(tips))
    }
}

/// The first step of the method: day plus month offset, mod 7.
pub open spec fn devi_step1(dt: CalendarDate) -> int {
    (dt.day as int % 7 + month_table_spec(dt.month as int)) % 7
}

/// The method's running total before the final reduction mod 7: the first
/// step plus the year's table value, corrected by one backwards for January
/// and February of a table leap year, or reached through the nearest
/// earlier leap year where the year has no usable entry of its own.
pub open spec fn devi_total(dt: CalendarDate) -> int {
    let y = dt.year as int;
    let s1 = devi_step1(dt);
    let e = year_table_entry(y);
    if e is Some && is_leap_spec(y) {
        if dt.month > 2 {
            s1 + e.unwrap()
        } else {
            s1 + e.unwrap() - 1
        }
    } else {
        let l = prev_leap(y);
        s1 + year_table_entry(l).unwrap() + y - l
    }
}

/// The method's answer: the total as a Sunday-based weekday index.
pub open spec fn devi_weekday(dt: CalendarDate) -> Weekday {
    weekday_from_sunday0(devi_total(dt) % 7)
}

/// The explanation steps of the whole computation, in order.
pub open spec fn devi_tips(dt: CalendarDate) -> Seq<Seq<char>> {
    let y = dt.year as int;
    let first = tip_step1(dt.day as int % 7, month_table_spec(dt.month as int), devi_step1(dt));
    let e = year_table_entry(y);
    if e is Some && is_leap_spec(y) {
        seq![first, tip_leap_direct(e.unwrap())]
    } else {
        let l = prev_leap(y);
        let le = year_table_entry(l);
        if e is Some {
            seq![
                first,
                tip_not_leap_direct(e.unwrap()),
                tip_nearest(l),
                tip_nearest_entry(le.unwrap()),
            ]
        } else {
            seq![first, tip_no_entry_nearest(l), tip_no_entry_nearest_entry(le.unwrap())]
        }
    }
}

/// Build the explanation string of the method's first step.
fn build_step1_tip(day: u32, entry: u32, r1: u32) -> (s: String)
    ensures
        s@ == tip_step1(day as int, entry as int, r1 as int),
{
    let mut s: String = "(day ".to_owned();
    let n1: String = u32_to_dec(day);
    s.append(n1.as_str());
    s.append(" + month table entry ");
    let n2: String = u32_to_dec(entry);
    s.append(n2.as_str());
    s.append(") mod 7 = ");
    let n3: String = u32_to_dec(r1);
    s.append(n3.as_str());
    proof {
        assert(s@ =~= tip_step1(day as int, entry as int, r1 as int));
    }
    s
}

/// Over the supported range the method's total is congruent mod 7 to the
/// date's day number — except from March 2204 on, where the method misses
/// the leap day of 2204, the first leap year beyond its table.
pub proof fn lemma_devi_total_congruence(dt: CalendarDate)
    requires
        dt.valid(),
        1584 <= dt.year <= 2204,
        dt.year <= 2203 || dt.month <= 2,
    ensures
        devi_total(dt) % 7 == dt.day_number() % 7,
{
    let y = dt.year as int;
    let m = dt.month as int;
    let d = dt.day as int;
    let t2 = month_table_spec(m);
    let g: int = if m == 1 {
        0
    } else if m == 2 {
        4
    } else if m == 3 {
        8
    } else if m == 4 {
        12
    } else if m == 5 {
        17
    } else if m == 6 {
        21
    } else if m == 7 {
        25
    } else if m == 8 {
        30
    } else if m == 9 {
        34
    } else if m == 10 {
        39
    } else if m == 11 {
        43
    } else {
        47
    };
    lemma_fundamental_div_mod(d + t2, 7);
    lemma_mod_division_less_than_divisor(d + t2, 7);
    let qa = (d + t2) / 7;
    lemma_add_mod_noop(d, t2, 7);
    assert(devi_step1(dt) == (d + t2) % 7);
    let s1 = devi_step1(dt);
    assert(s1 == d + t2 - 7 * qa);
    let e = year_table_entry(y);
    if e is Some && is_leap_spec(y) {
        lemma_entry_of_leap_year(y);
        lemma_fundamental_div_mod(days_before_year(y) + 1, 7);
        lemma_mod_division_less_than_divisor(days_before_year(y) + 1, 7);
        let qb = (days_before_year(y) + 1) / 7;
        assert(e.unwrap() == days_before_year(y) + 1 - 7 * qb);
        assert(devi_total(dt) == dt.day_number() + 7 * (0 - qa - qb - g));
        lemma_mod_multiples_vanish(0 - qa - qb - g, dt.day_number(), 7);
    } else {
        assert(year_table_entry(1584) is Some && is_leap_spec(1584));
        assert(y >= 1585);
        lemma_prev_leap(y);
        let l = prev_leap(y);
        lemma_leap_is_div4(l);
        if l >= 2200 {
            assert(l == 2200);
            assert(!is_leap_spec(2200));
        }
        assert(year_table_entry(l) is Some);
        lemma_entry_of_leap_year(l);
        let vl = year_table_entry(l).unwrap();
        lemma_fundamental_div_mod(days_before_year(l) + 1, 7);
        let qb = (days_before_year(l) + 1) / 7;
        assert(vl == days_before_year(l) + 1 - 7 * qb);
        lemma_days_before_year_span(l, y);
        lemma_leap_count_single(l, y);
        assert(days_before_year(y) == days_before_year(l) + 365 * (y - l) + 1);
        if is_leap_spec(y) {
            lemma_leap_is_div4(y);
            assert(y >= 2200);
            assert(!is_leap_spec(2200));
            assert(y == 2204 && m <= 2);
        }
        assert(dt.day_number() == days_before_year(y) + days_before_month(m) + d);
        assert(devi_total(dt) == dt.day_number() + 7 * (0 - qa - qb - g - 52 * (y - l)));
        lemma_mod_multiples_vanish(0 - qa - qb - g - 52 * (y - l), dt.day_number(), 7);
    }
}

/// Two computations on the same date give the same answer and the same
/// explanation steps: the contract of `shakuntala_devi` pins both as
/// functions of the date alone, so nothing hidden can move them between
/// calls.
pub proof fn lemma_shakuntala_devi_idempotent(
    dt: CalendarDate,
    first: (Weekday, Tips),
    second: (Weekday, Tips),
)
    requires
        first.0 == devi_weekday(dt),
        tips_view(first.1) == devi_tips(dt),
        second.0 == devi_weekday(dt),
        tips_view(second.1) == devi_tips(dt),
    ensures
        first.0 == second.0,
        tips_view(first.1) == tips_view(second.1),
{
}

/// The Shakuntala Devi method: the weekday of `dt`, with the ordered
/// explanation steps of how it was derived. The answer matches the calendar
/// on every supported date up to February 2204; from March 2204 on the
/// method itself misses the leap day of 2204.
#[verifier::rlimit(80)]
pub fn shakuntala_devi(dt: CalendarDate) -> (res: (Weekday, Tips))
    requires
        dt.valid(),
        1584 <= dt.year <= 2204,
    ensures
        res.0 == devi_weekday(dt),
        tips_view(res.1) == devi_tips(dt),
        dt.year <= 2203 || dt.month <= 2 ==> res.0 == dt.canonical_weekday(),
{
    let table = YearTable::new();
    let day_m7: u32 = dt.day % 7;
    let t2: u32 = month_table_entry(dt.month);
    let result1: u32 = (day_m7 + t2) % 7;
    let tip: String = build_step1_tip(day_m7, t2, result1);
    let mut tips: Vec<String> = Vec::new();
    proof {
        lemma_tips_push(tips@, tip);
    }
    tips.push(tip);
    let nl = shakuntala_devi_nearest_leap_year(&table, dt.year, true);
    let result2: u32 = nl.0;
    let mut trace: Tips = nl.1;
    proof {
        lemma_tips_concat(tips@, trace.0@);
    }
    tips.append(&mut trace.0);
    proof {
        assert(tips@.map_values(|x: String| x@) =~= devi_tips(dt));
    }
    let result3: u32 = if table.get(dt.year).is_some() && is_leap_year(dt.year) {
        if dt.month > 2 {
            (result1 + result2) % 7
        } else {
            proof {
                lemma_mod_multiples_vanish(1, devi_total(dt), 7);
            }
            (result1 + result2 + 6) % 7
        }
    } else {
        proof {
            assert(year_table_entry(1584) is Some && is_leap_spec(1584));
            lemma_prev_leap(dt.year as int);
        }
        let vl: u8 = table.get(result2).unwrap();
        (result1 + vl as u32 + (dt.year - result2)) % 7
    };
    proof {
        assert(result3 == devi_total(dt) % 7);
        if dt.year <= 2203 || dt.month <= 2 {
            lemma_devi_total_congruence(dt);
            lemma_mod_division_less_than_divisor(dt.day_number(), 7);
        }
        lemma_mod_division_less_than_divisor(devi_total(dt), 7);
    }
    (Weekday::from_sunday0_index(result3), Tips(tips))
}

} // verus!
