//! The quiz state machine behind the trainer's front-end: which screen is
//! shown, the question being asked, which answers were already tried, and
//! the hint line of each screen. A shell around it only renders this state,
//! measures the elapsed time, and feeds events back in; every decision is
//! made and verified here.

use crate::date::{is_leap_spec, CalendarDate, Weekday};
use crate::devi::{
    devi_tips, month_table_entry, month_table_spec, prev_leap, shakuntala_devi_nearest_leap_year,
    tips_view, Tips,
};
use crate::random::random_date_with_tips;
use crate::text::{dec_seq, label_num, u32_to_dec, u64_to_dec};
use crate::year_table::{lemma_entry_value_bound, year_table_entry, YearTable};
use vstd::pervasive::VecAdditionalExecFns;
use vstd::prelude::*;
use vstd::string::StringExecFns;

verus! {

/// Which screen the trainer shows.
#[derive(Clone, Copy, Debug, PartialEq, Eq, Structural)]
pub enum Screen {
    Game,
    Solution,
    TrainingMonthTable,
    TrainingYearTable,
}

impl Default for Screen {
    /// The trainer opens on the game screen.
    fn default() -> (r: Screen)
        ensures
            r == Screen::Game,
    {
        Screen::Game
    }
}

/// The visual role of a button on the trainer's screens.
#[derive(Clone, Copy, Debug, PartialEq, Eq, Structural)]
pub enum Button {
    Days,
    Start,
    MenuActive,
    MenuInactive,
}

impl Default for Button {
    /// The everyday role: an answer button.
    fn default() -> (r: Button)
        ensures
            r == Button::Days,
    {
        Button::Days
    }
}

/// The role the menu gives the button of a screen: highlighted for the
/// screen currently shown, quiet for the others.
pub fn menu_button_style(current: Screen, target: Screen) -> (b: Button)
    ensures
        b == if current == target {
            Button::MenuActive
        } else {
            Button::MenuInactive
        },
{
    if current == target {
        Button::MenuActive
    } else {
        Button::MenuInactive
    }
}

/// An event from the front-end.
#[derive(Clone, Debug, PartialEq, Eq, Structural)]
pub enum Message {
    GuessDay(Weekday),
    GuessMonthTable(i32),
    GuessYearTable(i32),
    Reset,
    FirstYear(u32),
    LastYear(u32),
    GameMode,
    TrainingMonthTableMode,
    TrainingYearTableMode,
    SolutionMode,
}

/// The slot of each screen in the hint list.
pub open spec fn screen_index(s: Screen) -> int {
    match s {
        Screen::Game => 0,
        Screen::Solution => 1,
        Screen::TrainingMonthTable => 2,
        Screen::TrainingYearTable => 3,
    }
}

/// The slot of each screen in the hint list.
pub fn screen_slot(s: Screen) -> (i: usize)
    ensures
        i == screen_index(s),
{
    match s {
        Screen::Game => 0,
        Screen::Solution => 1,
        Screen::TrainingMonthTable => 2,
        Screen::TrainingYearTable => 3,
    }
}

/// How many entries of `s` are set.
pub open spec fn count_true(s: Seq<bool>) -> int
    decreases s.len(),
{
    if s.len() == 0 {
        0
    } else {
        count_true(s.drop_last()) + if s.last() {
            1int
        } else {
            0int
        }
    }
}

/// No more entries can be set than there are.
proof fn lemma_count_true_le(s: Seq<bool>)
    ensures
        0 <= count_true(s) <= s.len(),
    decreases s.len(),
{
    if s.len() > 0 {
        lemma_count_true_le(s.drop_last());
    }
}

/// A set entry makes the count positive.
proof fn lemma_count_true_pos(s: Seq<bool>, i: int)
    requires
        0 <= i < s.len(),
        s[i],
    ensures
        count_true(s) >= 1,
    decreases s.len(),
{
    lemma_count_true_le(s.drop_last());
    if i < s.len() - 1 {
        lemma_count_true_pos(s.drop_last(), i);
    }
}

/// Count the set entries.
fn count_flags(v: &Vec<bool>) -> (n: usize)
    ensures
        n == count_true(v@),
{
    let mut n: usize = 0;
    let mut i: usize = 0;
    while i < v.len()
        invariant
            i <= v@.len(),
            n <= i,
            n == count_true(v@.take(i as int)),
        decreases v@.len() - i,
    {
        proof {
            assert(v@.take(i as int + 1).drop_last() =~= v@.take(i as int));
        }
        if v[i] {
            n = n + 1;
        }
        i = i + 1;
    }
    proof {
        assert(v@.take(v@.len() as int) =~= v@);
    }
    n
}

/// A row of `n` identical flags.
fn make_flags(n: usize, val: bool) -> (v: Vec<bool>)
    ensures
        v@.len() == n,
        forall|i: int| 0 <= i < n ==> v@[i] == val,
{
    let mut v: Vec<bool> = Vec::new();
    let mut i: usize = 0;
    while i < n
        invariant
            i <= n,
            v@.len() == i,
            forall|j: int| 0 <= j < i ==> v@[j] == val,
        decreases n - i,
    {
        v.push(val);
        i = i + 1;
    }
    v
}

/// Every entry of `s` equals `v`, and there are `n` of them.
pub open spec fn all_set(s: Seq<bool>, n: int, v: bool) -> bool {
    s.len() == n && forall|i: int| 0 <= i < n ==> s[i] == v
}

// The hint lines, one spec function per phrasing.

/// The opening hint of the game screen.
pub open spec fn hint_guess_day() -> Seq<char> {
    "Guess the day!"@
}

/// The opening hint of the two training screens.
pub open spec fn hint_which_entry() -> Seq<char> {
    "Which entry is the good one ?"@
}

/// The hint after the right weekday was found.
pub open spec fn hint_congratulation(w: Weekday, tries: int, secs: int) -> Seq<char> {
    "Congratulation ! You found "@ + w.name_seq() + " after "@ + dec_seq(tries) + " guess in "@
        + dec_seq(secs) + "s"@
}

/// A handed-out explanation step, quoted.
pub open spec fn hint_tip(t: Seq<char>) -> Seq<char> {
    "tips: \""@ + t + "\""@
}

/// The hint once every explanation step was used up.
pub open spec fn hint_no_more_tips() -> Seq<char> {
    "Sorry, no more tips"@
}

/// The hint after a right table answer.
pub open spec fn hint_right_answer(g: int) -> Seq<char> {
    "Congratulation ! "@ + dec_seq(g) + " is the right answer"@
}

/// The hint after a wrong month-table answer.
pub open spec fn hint_try_again() -> Seq<char> {
    "Try again"@
}

/// The hint after a wrong year-table answer, for a year read directly from
/// the table.
pub open spec fn hint_try_again_direct() -> Seq<char> {
    "Try again, this is a direct year table entry"@
}

/// The hint after a wrong year-table answer, naming the nearest leap year.
pub open spec fn hint_try_again_nearest(l: int) -> Seq<char> {
    "Try again. Tips: no direct year table entry, nearest leap year "@ + dec_seq(l)
}

/// Build the congratulation line of the game screen.
fn build_congratulation(w: Weekday, tries: u32, secs: u64) -> (s: String)
    ensures
        s@ == hint_congratulation(w, tries as int, secs as int),
{
    let mut s: String = "Congratulation ! You found ".to_owned();
    s.append(w.name());
    s.append(" after ");
    let n1: String = u32_to_dec(tries);
    s.append(n1.as_str());
    s.append(" guess in ");
    let n2: String = u64_to_dec(secs);
    s.append(n2.as_str());
    s.append("s");
    proof {
        assert(s@ =~= hint_congratulation(w, tries as int, secs as int));
    }
    s
}

/// Build the quoted form of one explanation step.
fn build_tip_hint(tip: &String) -> (s: String)
    ensures
        s@ == hint_tip(tip@),
{
    let mut s: String = "tips: \"".to_owned();
    s.append(tip.as_str());
    s.append("\"");
    proof {
        assert(s@ =~= hint_tip(tip@));
    }
    s
}

/// Build the congratulation line of the training screens.
fn build_right_answer(g: u32) -> (s: String)
    ensures
        s@ == hint_right_answer(g as int),
{
    let mut s: String = "Congratulation ! ".to_owned();
    let n: String = u32_to_dec(g);
    s.append(n.as_str());
    s.append(" is the right answer");
    proof {
        assert(s@ =~= hint_right_answer(g as int));
    }
    s
}

/// The four opening hint lines, one per screen.
fn default_hint_lines() -> (h: Vec<String>)
    ensures
        default_hints(h@),
{
    let mut h: Vec<String> = Vec::new();
    h.push("Guess the day!".to_owned());
    h.push("".to_owned());
    h.push("Which entry is the good one ?".to_owned());
    h.push("Which entry is the good one ?".to_owned());
    h
}

/// The hint lines all show their screen's opening text.
pub open spec fn default_hints(h: Seq<String>) -> bool {
    &&& h.len() == 4
    &&& h[0]@ == hint_guess_day()
    &&& h[1]@ == ""@
    &&& h[2]@ == hint_which_entry()
    &&& h[3]@ == hint_which_entry()
}

/// Only the hint of slot `k` changed, to `text`.
pub open spec fn hints_updated(pre: Seq<String>, post: Seq<String>, k: int, text: Seq<char>) -> bool {
    &&& post.len() == 4
    &&& post[k]@ == text
    &&& forall|j: int| 0 <= j < 4 && j != k ==> post[j] == pre[j]
}

/// The answer the year-table training screen expects the user to pick: the
/// year's own table value where the year reads directly from the table, and
/// otherwise the nearest earlier leap year's value — while the resolver
/// hands back that year itself, which is how the two cases are told apart.
pub open spec fn versatile_answer(y: int) -> int {
    let e = year_table_entry(y);
    if e is Some && is_leap_spec(y) {
        e.unwrap()
    } else {
        prev_leap(y)
    }
}

/// The whole state of the trainer.
pub struct ShakuntalaDeviTrainer {
    pub screen: Screen,
    pub first_year: u32,
    pub last_year: u32,
    pub random_date: CalendarDate,
    pub week_day: Weekday,
    pub game_answers: Vec<bool>,
    pub month_table_answers: Vec<bool>,
    pub year_table_answers: Vec<bool>,
    pub tips: Tips,
    pub hints: Vec<String>,
    pub table: YearTable,
}

impl ShakuntalaDeviTrainer {
    /// The state is consistent: the year range lies within the supported
    /// years, the question lies within the range, the stored answer and
    /// explanation steps are the ones the Shakuntala Devi method gives for
    /// the question — and that answer is the calendar's weekday.
    pub open spec fn wf(self) -> bool {
        &&& self.table.wf()
        &&& 1584 <= self.first_year < self.last_year <= 2204
        &&& self.random_date.valid()
        &&& 1584 <= self.random_date.year <= 2204
        &&& (self.random_date.year == 2204 ==> self.random_date.month <= 2)
        &&& self.week_day == self.random_date.canonical_weekday()
        &&& tips_view(self.tips) == devi_tips(self.random_date)
        &&& self.game_answers@.len() == 7
        &&& self.month_table_answers@.len() == 7
        &&& self.year_table_answers@.len() == 13
        &&& self.hints@.len() == 4
    }

    /// A fresh trainer: default year range, a question drawn from it, no
    /// answers tried yet, every screen showing its opening hint.
    pub fn new() -> (r: ShakuntalaDeviTrainer)
        ensures
            r.wf(),
            r.screen == Screen::Game,
            r.first_year == crate::DEFAULT_FIRST_YEAR,
            r.last_year == crate::DEFAULT_LAST_YEAR,
            all_set(r.game_answers@, 7, false),
            all_set(r.month_table_answers@, 7, false),
            all_set(r.year_table_answers@, 13, false),
            default_hints(r.hints@),
    {
        let question = random_date_with_tips(crate::DEFAULT_FIRST_YEAR, crate::DEFAULT_LAST_YEAR);
        ShakuntalaDeviTrainer {
            screen: Screen::Game,
            first_year: crate::DEFAULT_FIRST_YEAR,
            last_year: crate::DEFAULT_LAST_YEAR,
            random_date: question.0,
            week_day: question.1,
            game_answers: make_flags(7, false),
            month_table_answers: make_flags(7, false),
            year_table_answers: make_flags(13, false),
            tips: question.2,
            hints: default_hint_lines(),
            table: YearTable::new(),
        }
    }
}

/// Nothing about the question changed: date, answer, explanation, table.
pub open spec fn same_question(pre: ShakuntalaDeviTrainer, post: ShakuntalaDeviTrainer) -> bool {
    &&& post.random_date == pre.random_date
    &&& post.week_day == pre.week_day
    &&& post.tips == pre.tips
    &&& post.table == pre.table
}

/// The slider range is unchanged.
pub open spec fn same_range(pre: ShakuntalaDeviTrainer, post: ShakuntalaDeviTrainer) -> bool {
    &&& post.first_year == pre.first_year
    &&& post.last_year == pre.last_year
}

/// All three answer rows are unchanged.
pub open spec fn same_answers(pre: ShakuntalaDeviTrainer, post: ShakuntalaDeviTrainer) -> bool {
    &&& post.game_answers@ == pre.game_answers@
    &&& post.month_table_answers@ == pre.month_table_answers@
    &&& post.year_table_answers@ == pre.year_table_answers@
}

/// A bare change of screen.
pub open spec fn mode_change(
    pre: ShakuntalaDeviTrainer,
    post: ShakuntalaDeviTrainer,
    s: Screen,
) -> bool {
    &&& post.screen == s
    &&& same_range(pre, post)
    &&& same_question(pre, post)
    &&& same_answers(pre, post)
    &&& post.hints@ == pre.hints@
}

/// What each event does to the state.
pub open spec fn update_spec(
    pre: ShakuntalaDeviTrainer,
    post: ShakuntalaDeviTrainer,
    message: Message,
    elapsed_secs: u64,
) -> bool {
    match message {
        Message::GuessDay(guess) => {
            let k = screen_index(pre.screen);
            let marked = pre.game_answers@.update(guess.monday0(), true);
            let tries = count_true(marked);
            &&& post.screen == pre.screen
            &&& same_range(pre, post)
            &&& same_question(pre, post)
            &&& post.month_table_answers@ == pre.month_table_answers@
            &&& post.year_table_answers@ == pre.year_table_answers@
            &&& if guess == pre.week_day {
                &&& all_set(post.game_answers@, 7, true)
                &&& hints_updated(
                    pre.hints@,
                    post.hints@,
                    k,
                    hint_congratulation(guess, tries, elapsed_secs as int),
                )
            } else {
                &&& post.game_answers@ == marked
                &&& hints_updated(
                    pre.hints@,
                    post.hints@,
                    k,
                    if tries - 1 < tips_view(pre.tips).len() {
                        hint_tip(tips_view(pre.tips)[tries - 1])
                    } else {
                        hint_no_more_tips()
                    },
                )
            }
        },
        Message::GuessMonthTable(g) => {
            let k = screen_index(pre.screen);
            let marked = pre.month_table_answers@.update(g as int, true);
            &&& post.screen == pre.screen
            &&& same_range(pre, post)
            &&& same_question(pre, post)
            &&& post.game_answers@ == pre.game_answers@
            &&& post.year_table_answers@ == pre.year_table_answers@
            &&& if month_table_spec(pre.random_date.month as int) == g {
                &&& all_set(post.month_table_answers@, 7, true)
                &&& hints_updated(pre.hints@, post.hints@, k, hint_right_answer(g as int))
            } else {
                &&& post.month_table_answers@ == marked
                &&& hints_updated(pre.hints@, post.hints@, k, hint_try_again())
            }
        },
        Message::GuessYearTable(g) => {
            let k = screen_index(pre.screen);
            let marked = pre.year_table_answers@.update(g as int, true);
            let v = versatile_answer(pre.random_date.year as int);
            let answer = if v > 12 {
                year_table_entry(v).unwrap()
            } else {
                v
            };
            &&& post.screen == pre.screen
            &&& same_range(pre, post)
            &&& same_question(pre, post)
            &&& post.game_answers@ == pre.game_answers@
            &&& post.month_table_answers@ == pre.month_table_answers@
            &&& if answer == g {
                &&& all_set(post.year_table_answers@, 13, true)
                &&& hints_updated(pre.hints@, post.hints@, k, hint_right_answer(g as int))
            } else {
                &&& post.year_table_answers@ == marked
                &&& hints_updated(
                    pre.hints@,
                    post.hints@,
                    k,
                    if v > 12 {
                        hint_try_again_nearest(v)
                    } else {
                        hint_try_again_direct()
                    },
                )
            }
        },
        Message::Reset => {
            &&& post.screen == pre.screen
            &&& same_range(pre, post)
            &&& post.table == pre.table
            &&& post.random_date.valid()
            &&& pre.first_year <= post.random_date.year <= pre.last_year
            &&& post.week_day == post.random_date.canonical_weekday()
            &&& tips_view(post.tips) == devi_tips(post.random_date)
            &&& all_set(post.game_answers@, 7, false)
            &&& all_set(post.month_table_answers@, 7, false)
            &&& all_set(post.year_table_answers@, 13, false)
            &&& default_hints(post.hints@)
        },
        Message::FirstYear(y) => {
            &&& post.first_year == if y < pre.last_year {
                y
            } else {
                pre.first_year
            }
            &&& post.last_year == pre.last_year
            &&& post.screen == pre.screen
            &&& same_question(pre, post)
            &&& same_answers(pre, post)
            &&& post.hints@ == pre.hints@
        },
        Message::LastYear(y) => {
            &&& post.last_year == if y > pre.first_year {
                y
            } else {
                pre.last_year
            }
            &&& post.first_year == pre.first_year
            &&& post.screen == pre.screen
            &&& same_question(pre, post)
            &&& same_answers(pre, post)
            &&& post.hints@ == pre.hints@
        },
        Message::GameMode => mode_change(pre, post, Screen::Game),
        Message::TrainingMonthTableMode => mode_change(pre, post, Screen::TrainingMonthTable),
        Message::TrainingYearTableMode => mode_change(pre, post, Screen::TrainingYearTable),
        Message::SolutionMode => mode_change(pre, post, Screen::Solution),
    }
}

impl ShakuntalaDeviTrainer {
    /// Apply one event to the state. `elapsed_secs` is the time the shell
    /// has measured since the question was posed; it only flows into the
    /// congratulation line.
    pub fn update(&mut self, message: Message, elapsed_secs: u64)
        requires
            old(self).wf(),
            message matches Message::GuessMonthTable(g) ==> 0 <= g < 7,
            message matches Message::GuessYearTable(g) ==> 0 <= g < 13,
            message matches Message::FirstYear(y) ==> 1584 <= y,
            message matches Message::LastYear(y) ==> y <= 2204,
        ensures
            final(self).wf(),
            update_spec(*old(self), *final(self), message, elapsed_secs),
    {
        match message {
            Message::GuessDay(guess) => {
                let idx: usize = guess.num_days_from_monday() as usize;
                self.game_answers.set(idx, true);
                let tries: usize = count_flags(&self.game_answers);
                proof {
                    lemma_count_true_pos(self.game_answers@, idx as int);
                    lemma_count_true_le(self.game_answers@);
                }
                let k: usize = screen_slot(self.screen);
                if guess == self.week_day {
                    self.game_answers = make_flags(7, true);
                    let line = build_congratulation(guess, tries as u32, elapsed_secs);
                    self.hints.set(k, line);
                } else {
                    let t: usize = tries - 1;
                    let line = if t < self.tips.0.len() {
                        build_tip_hint(&self.tips.0[t])
                    } else {
                        "Sorry, no more tips".to_owned()
                    };
                    self.hints.set(k, line);
                }
            },
            Message::GuessMonthTable(g) => {
                self.month_table_answers.set(g as usize, true);
                let k: usize = screen_slot(self.screen);
                if month_table_entry(self.random_date.month) == g as u32 {
                    self.month_table_answers = make_flags(7, true);
                    let line = build_right_answer(g as u32);
                    self.hints.set(k, line);
                } else {
                    self.hints.set(k, "Try again".to_owned());
                }
            },
            Message::GuessYearTable(g) => {
                self.year_table_answers.set(g as usize, true);
                let k: usize = screen_slot(self.screen);
                let resolved = shakuntala_devi_nearest_leap_year(
                    &self.table,
                    self.random_date.year,
                    false,
                );
                let versatile: u32 = resolved.0;
                proof {
                    lemma_entry_value_bound(self.random_date.year as int);
                }
                let answer: u32 = if versatile > 12 {
                    self.table.get(versatile).unwrap() as u32
                } else {
                    versatile
                };
                if answer == g as u32 {
                    self.year_table_answers = make_flags(13, true);
                    let line = build_right_answer(g as u32);
                    self.hints.set(k, line);
                } else {
                    let line = if versatile > 12 {
                        label_num(
                            "Try again. Tips: no direct year table entry, nearest leap year ",
                            versatile,
                        )
                    } else {
                        "Try again, this is a direct year table entry".to_owned()
                    };
                    self.hints.set(k, line);
                }
            },
            Message::Reset => {
                let question = random_date_with_tips(self.first_year, self.last_year);
                self.random_date = question.0;
                self.week_day = question.1;
                self.tips = question.2;
                self.hints = default_hint_lines();
                self.game_answers = make_flags(7, false);
                self.month_table_answers = make_flags(7, false);
                self.year_table_answers = make_flags(13, false);
            },
            Message::FirstYear(y) => {
                if y < self.last_year {
                    self.first_year = y;
                }
            },
            Message::LastYear(y) => {
                if y > self.first_year {
                    self.last_year = y;
                }
            },
            Message::GameMode => {
                self.screen = Screen::Game;
            },
            Message::TrainingMonthTableMode => {
                self.screen = Screen::TrainingMonthTable;
            },
            Message::TrainingYearTableMode => {
                self.screen = Screen::TrainingYearTable;
            },
            Message::SolutionMode => {
                self.screen = Screen::Solution;
            },
        }
    }
}

} // verus!
