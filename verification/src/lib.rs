//! Day-of-week computation by several historical mental-calculation methods:
//! Zeller's congruence, Tomohiko Sakamoto's algorithm, Conway's doomsday rule,
//! and the Shakuntala Devi method, the last of which also explains its own
//! intermediate steps so that a quiz front-end can hand them out as hints.

use vstd::prelude::*;

pub mod algorithms;
pub mod date;
pub mod devi;
pub mod random;
pub mod text;
pub mod trainer;
pub mod year_table;

verus! {

/// Smallest year the quiz front-ends offer on their range sliders.
pub const MIN_YEAR: u32 = 1583;

/// Largest year the quiz front-ends offer on their range sliders.
pub const MAX_YEAR: u32 = 2204;

/// Default lower bound of the year range a quiz question is drawn from.
pub const DEFAULT_FIRST_YEAR: u32 = 1932;

/// Default upper bound of the year range a quiz question is drawn from.
pub const DEFAULT_LAST_YEAR: u32 = 2032;

} // verus!

pub use algorithms::{anchor_day, conway_doomsday, tomohiko_sakamoto, zeller};
pub use date::{is_leap_year, CalendarDate, Weekday};
pub use devi::{month_table_entry, shakuntala_devi, shakuntala_devi_nearest_leap_year, Tips};
pub use random::{random_date, random_date_with_tips};
pub use trainer::{menu_button_style, Button, Message, Screen, ShakuntalaDeviTrainer};
pub use year_table::YearTable;
