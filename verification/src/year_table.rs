//! The year table of the Shakuntala Devi method: every fourth year from 1584
//! through 2196 is mapped to a small remainder, assigned cyclically from the
//! base sequence [0, 5, 3, 1, 6, 4, 2] and shifted by a per-century offset.
//! The table entry of a leap year is exactly the day count of that year's
//! January 1st plus one, reduced mod 7, which is what the method builds on.

use crate::date::{
    days_before_year, is_leap_spec, lemma_days_before_year_span, lemma_leap_count_single,
    lemma_leap_is_div4, lemma_not_leap_if_not_div4,
};
use vstd::arithmetic::div_mod::{
    lemma_add_mod_noop, lemma_add_mod_noop_right, lemma_fundamental_div_mod,
    lemma_fundamental_div_mod_converse_div, lemma_fundamental_div_mod_converse_mod,
    lemma_mod_division_less_than_divisor, lemma_mod_multiples_vanish,
};
use vstd::prelude::*;

verus! {

/// Number of entries: one per fourth year from 1584 through 2196.
pub const YEAR_TABLE_LEN: u32 = 154;

/// The base sequence the table cycles through.
pub open spec fn t3_base(j: int) -> int {
    if j == 0 {
        0
    } else if j == 1 {
        5
    } else if j == 2 {
        3
    } else if j == 3 {
        1
    } else if j == 4 {
        6
    } else if j == 5 {
        4
    } else {
        2
    }
}

/// First year of the century band that contains `y`. The first band is the
/// tail of the 1500s, starting at 1584.
pub open spec fn band_start(y: int) -> int {
    if y < 1600 {
        1584
    } else {
        100 * (y / 100)
    }
}

/// Fixed offset that `y`'s century band contributes to each of its entries.
pub open spec fn band_offset(y: int) -> int {
    if y < 1600 {
        0
    } else if y < 1700 {
        6
    } else if y < 1800 {
        4
    } else if y < 1900 {
        2
    } else if y < 2000 {
        0
    } else if y < 2100 {
        6
    } else {
        4
    }
}

/// The table value of year `y`: defined for the multiples of 4 from 1584
/// through 2196, absent otherwise.
pub open spec fn year_table_entry(y: int) -> Option<int> {
    if 1584 <= y < 2200 && y % 4 == 0 {
        Some((band_offset(y) + t3_base(((y - band_start(y)) / 4) % 7)) % 7)
    } else {
        None
    }
}

/// One element of the base sequence.
fn t3_base_at(j: u32) -> (r: u32)
    requires
        j < 7,
    ensures
        r == t3_base(j as int),
{
    match j {
        0 => 0,
        1 => 5,
        2 => 3,
        3 => 1,
        4 => 6,
        5 => 4,
        _ => 2,
    }
}

/// The precomputed year table, one byte per fourth year from 1584 through
/// 2196. Built once and read only afterwards.
pub struct YearTable {
    entries: Vec<u8>,
}

impl YearTable {
    /// Every entry agrees with `year_table_entry`.
    pub closed spec fn wf(self) -> bool {
        &&& self.entries@.len() == YEAR_TABLE_LEN
        &&& forall|i: int|
            0 <= i < YEAR_TABLE_LEN ==> year_table_entry(1584 + 4 * i) == Some(
                #[trigger] self.entries@[i] as int,
            )
    }

    /// Build the table: walk each century band in steps of four years and
    /// assign the cycled base sequence plus the band's offset, mod 7.
    pub fn new() -> (r: YearTable)
        ensures
            r.wf(),
    {
        let mut entries: Vec<u8> = Vec::new();
        let mut i: u32 = 0;
        while i < YEAR_TABLE_LEN
            invariant
                i <= YEAR_TABLE_LEN,
                entries@.len() == i,
                forall|j: int|
                    0 <= j < i ==> year_table_entry(1584 + 4 * j) == Some(
                        #[trigger] entries@[j] as int,
                    ),
            decreases YEAR_TABLE_LEN - i,
        {
            let year: u32 = 1584 + 4 * i;
            proof {
                lemma_fundamental_div_mod_converse_mod(year as int, 4, 396 + i as int, 0);
                lemma_fundamental_div_mod(year as int, 100);
                lemma_mod_division_less_than_divisor(year as int, 100);
            }
            let start: u32 = if year < 1600 {
                1584
            } else {
                (year / 100) * 100
            };
            let off: u32 = if year < 1600 {
                0
            } else if year < 1700 {
                6
            } else if year < 1800 {
                4
            } else if year < 1900 {
                2
            } else if year < 2000 {
                0
            } else if year < 2100 {
                6
            } else {
                4
            };
            let idx: u32 = (year - start) / 4;
            let val: u32 = (off + t3_base_at(idx % 7)) % 7;
            entries.push(val as u8);
            i += 1;
        }
        YearTable { entries }
    }

    /// The table value of `year`, or `None` for a year outside the table:
    /// one before 1584 or after 2196, or no multiple of four.
    pub fn get(&self, year: u32) -> (r: Option<u8>)
        requires
            self.wf(),
        ensures
            r == match year_table_entry(year as int) {
                Some(v) => Some(v as u8),
                None => None::<u8>,
            },
            year_table_entry(year as int) is Some ==> 0 <= year_table_entry(year as int).unwrap()
                < 7,
    {
        if year < 1584 || year >= 2200 || year % 4 != 0 {
            None
        } else {
            proof {
                lemma_fundamental_div_mod(year as int, 4);
                lemma_fundamental_div_mod_converse_mod(
                    year as int - 1584,
                    4,
                    year as int / 4 - 396,
                    0,
                );
                lemma_fundamental_div_mod_converse_div(
                    year as int - 1584,
                    4,
                    year as int / 4 - 396,
                    0,
                );
            }
            let i: u32 = (year - 1584) / 4;
            let v: u8 = self.entries[i as usize];
            proof {
                assert(year_table_entry(1584 + 4 * (i as int)) == Some(v as int));
                assert(1584 + 4 * (i as int) == year as int);
                lemma_mod_division_less_than_divisor(
                    band_offset(year as int) + t3_base(
                        ((year as int - band_start(year as int)) / 4) % 7,
                    ),
                    7,
                );
            }
            Some(v)
        }
    }
}

/// Table values are remainders mod 7.
pub proof fn lemma_entry_value_bound(y: int)
    ensures
        year_table_entry(y) is Some ==> 0 <= year_table_entry(y).unwrap() < 7,
{
    if year_table_entry(y) is Some {
        lemma_mod_division_less_than_divisor(
            band_offset(y) + t3_base(((y - band_start(y)) / 4) % 7),
            7,
        );
    }
}

/// Within one band, stepping four years forward advances the entry by five
/// mod 7, just as the day count advances by 1461 days, which is 5 mod 7.
proof fn lemma_entry_step(y: int)
    requires
        1584 <= y - 4,
        y < 2200,
        y % 4 == 0,
        is_leap_spec(y - 4),
        band_start(y - 4) == band_start(y),
        band_offset(y - 4) == band_offset(y),
        year_table_entry(y - 4) == Some((days_before_year(y - 4) + 1) % 7),
    ensures
        year_table_entry(y) == Some((days_before_year(y) + 1) % 7),
{
    lemma_fundamental_div_mod(y, 4);
    let a = y / 4;
    assert forall|k: int| y - 4 < k < y implies !is_leap_spec(k) by {
        lemma_fundamental_div_mod_converse_mod(k, 4, a - 1, k - (y - 4));
        lemma_not_leap_if_not_div4(k);
    }
    lemma_days_before_year_span(y - 4, y);
    lemma_leap_count_single(y - 4, y);
    assert(days_before_year(y) == days_before_year(y - 4) + 1461);
    let s = band_start(y);
    let b: int = if y < 1600 {
        396
    } else {
        25 * (y / 100)
    };
    if y >= 1600 {
        lemma_fundamental_div_mod(y, 100);
    }
    assert(s == 4 * b);
    lemma_fundamental_div_mod_converse_div(y - 4 - s, 4, a - 1 - b, 0);
    lemma_fundamental_div_mod_converse_div(y - s, 4, a - b, 0);
    let i0 = a - 1 - b;
    let j0 = i0 % 7;
    lemma_mod_division_less_than_divisor(i0, 7);
    lemma_add_mod_noop(i0, 1, 7);
    assert((i0 + 1) % 7 == (j0 + 1) % 7);
    assert(t3_base((j0 + 1) % 7) == (t3_base(j0) + 5) % 7);
    let off = band_offset(y);
    let x0 = off + t3_base(j0);
    assert(year_table_entry(y - 4) == Some(x0 % 7));
    lemma_add_mod_noop_right(off, t3_base(j0) + 5, 7);
    assert(year_table_entry(y) == Some((x0 + 5) % 7));
    let z = days_before_year(y - 4) + 1;
    assert(x0 % 7 == z % 7);
    lemma_add_mod_noop(x0, 5, 7);
    lemma_add_mod_noop(z, 5, 7);
    assert((x0 + 5) % 7 == (z + 5) % 7);
    lemma_mod_multiples_vanish(208, z + 5, 7);
    assert(days_before_year(y) + 1 == 7 * 208 + (z + 5));
}

/// The table entry of a leap year is the day count of the years before it,
/// plus one, reduced mod 7. This is the invariant the Shakuntala Devi
/// method rests on.
pub proof fn lemma_entry_of_leap_year(y: int)
    requires
        1584 <= y < 2200,
        is_leap_spec(y),
    ensures
        year_table_entry(y) == Some((days_before_year(y) + 1) % 7),
    decreases y,
{
    lemma_leap_is_div4(y);
    lemma_fundamental_div_mod(y, 4);
    let a = y / 4;
    if y == 1584 || y == 1600 || y == 1704 || y == 1804 || y == 1904 || y == 2000 || y == 2104 {
        // first leap year of each band: direct computation
        assert(year_table_entry(1584) == Some((days_before_year(1584) + 1) % 7));
        assert(year_table_entry(1600) == Some((days_before_year(1600) + 1) % 7));
        assert(year_table_entry(1704) == Some((days_before_year(1704) + 1) % 7));
        assert(year_table_entry(1804) == Some((days_before_year(1804) + 1) % 7));
        assert(year_table_entry(1904) == Some((days_before_year(1904) + 1) % 7));
        assert(year_table_entry(2000) == Some((days_before_year(2000) + 1) % 7));
        assert(year_table_entry(2104) == Some((days_before_year(2104) + 1) % 7));
    } else {
        lemma_fundamental_div_mod_converse_mod(y - 4, 4, a - 1, 0);
        // the previous table year is a leap year too
        if (y - 4) % 100 == 0 {
            lemma_fundamental_div_mod(y - 4, 100);
            let q = (y - 4) / 100;
            assert(16 <= q <= 21);
            assert(y - 4 == 1600 || y - 4 == 1700 || y - 4 == 1800 || y - 4 == 1900 || y - 4
                == 2000 || y - 4 == 2100);
            // the non-leap century starts head their bands, and those bands'
            // first leap years are handled above
            assert(y - 4 == 1600 || y - 4 == 2000);
            assert(is_leap_spec(y - 4));
        }
        // y itself is no century year, so its band reaches four years back
        if y >= 1600 {
            lemma_fundamental_div_mod(y, 100);
            lemma_mod_division_less_than_divisor(y, 100);
            let c = y / 100;
            let r = y % 100;
            if r == 0 {
                assert(16 <= c <= 21);
                assert(y == 1700 || y == 1800 || y == 1900 || y == 2100);
                assert(!is_leap_spec(y));
            }
            lemma_fundamental_div_mod_converse_mod(r, 4, a - 25 * c, 0);
            lemma_fundamental_div_mod(r, 4);
            assert(r >= 4);
            lemma_fundamental_div_mod_converse_div(y - 4, 100, c, r - 4);
            assert(band_start(y - 4) == band_start(y));
            assert(band_offset(y - 4) == band_offset(y));
        }
        assert(is_leap_spec(y - 4));
        lemma_entry_of_leap_year(y - 4);
        lemma_entry_step(y);
    }
}

/// Every leap year from 1853 up to the table's last band has an entry: a
/// leap year is a multiple of four, and none lies beyond 2196 below 2204.
pub proof fn lemma_leap_year_has_entry(y: int)
    requires
        1853 <= y < 2204,
        is_leap_spec(y),
    ensures
        year_table_entry(y) is Some,
{
    lemma_leap_is_div4(y);
    if y >= 2200 {
        assert(y == 2200);
        assert(!is_leap_spec(2200));
    }
}

} // verus!
