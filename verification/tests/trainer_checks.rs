//! The quiz state machine: a fresh trainer, guesses right and wrong on each
//! screen, hint consumption, and the year-range sliders.

use shakuntala_devi_trainer::{
    month_table_entry, Button, Message, Screen, ShakuntalaDeviTrainer,
};

#[test]
fn fresh_trainer_opens_the_game() {
    let t = ShakuntalaDeviTrainer::new();
    assert_eq!(t.screen, Screen::Game);
    assert_eq!(t.first_year, 1932);
    assert_eq!(t.last_year, 2032);
    assert!(t.game_answers.iter().all(|b| !*b));
    assert_eq!(t.hints[0].as_str(), "Guess the day!");
    assert_eq!(t.hints[1].as_str(), "");
    assert_eq!(t.hints[2].as_str(), "Which entry is the good one ?");
    assert_eq!(t.hints[3].as_str(), "Which entry is the good one ?");
    assert!(1932 <= t.random_date.year && t.random_date.year <= 2032);
}

#[test]
fn right_guess_congratulates_with_the_elapsed_time() {
    let mut t = ShakuntalaDeviTrainer::new();
    let answer = t.week_day;
    t.update(Message::GuessDay(answer), 12);
    let expected = format!(
        "Congratulation ! You found {} after 1 guess in 12s",
        answer.name()
    );
    assert_eq!(t.hints[0].as_str(), expected.as_str());
    assert!(t.game_answers.iter().all(|b| *b));
}

#[test]
fn wrong_guess_hands_out_the_first_tip() {
    let mut t = ShakuntalaDeviTrainer::new();
    let wrong = t.week_day.pred();
    let first_tip = t.tips.0[0].clone();
    t.update(Message::GuessDay(wrong), 3);
    let expected = format!("tips: \"{}\"", first_tip);
    assert_eq!(t.hints[0].as_str(), expected.as_str());
    let marked = wrong.num_days_from_monday() as usize;
    for i in 0..7 {
        assert_eq!(t.game_answers[i], i == marked);
    }
}

#[test]
fn wrong_guesses_run_out_of_tips() {
    let mut t = ShakuntalaDeviTrainer::new();
    let mut wrong = t.week_day.pred();
    let tip_count = t.tips.0.len();
    for _ in 0..6 {
        t.update(Message::GuessDay(wrong), 1);
        wrong = wrong.pred();
        if wrong == t.week_day {
            wrong = wrong.pred();
        }
    }
    if tip_count < 6 {
        assert_eq!(t.hints[0].as_str(), "Sorry, no more tips");
    }
}

#[test]
fn month_table_guesses_answer_both_ways() {
    let mut t = ShakuntalaDeviTrainer::new();
    t.update(Message::TrainingMonthTableMode, 0);
    assert_eq!(t.screen, Screen::TrainingMonthTable);
    let right = month_table_entry(t.random_date.month) as i32;
    let wrong = if right == 0 { 1 } else { right - 1 };
    t.update(Message::GuessMonthTable(wrong), 0);
    assert_eq!(t.hints[2].as_str(), "Try again");
    t.update(Message::GuessMonthTable(right), 0);
    let expected = format!("Congratulation ! {} is the right answer", right);
    assert_eq!(t.hints[2].as_str(), expected.as_str());
    assert!(t.month_table_answers.iter().all(|b| *b));
}

#[test]
fn year_sliders_keep_their_order() {
    let mut t = ShakuntalaDeviTrainer::new();
    t.update(Message::FirstYear(2050), 0);
    assert_eq!(t.first_year, 1932);
    t.update(Message::FirstYear(1960), 0);
    assert_eq!(t.first_year, 1960);
    t.update(Message::LastYear(1950), 0);
    assert_eq!(t.last_year, 2032);
    t.update(Message::LastYear(2204), 0);
    assert_eq!(t.last_year, 2204);
    t.update(Message::Reset, 0);
    assert!(1960 <= t.random_date.year && t.random_date.year <= 2204);
    assert_eq!(t.hints[0].as_str(), "Guess the day!");
    assert!(t.game_answers.iter().all(|b| !*b));
}

#[test]
fn screens_switch_and_light_their_menu_button() {
    let mut t = ShakuntalaDeviTrainer::new();
    t.update(Message::SolutionMode, 0);
    assert_eq!(t.screen, Screen::Solution);
    assert_eq!(
        shakuntala_devi_trainer::trainer::menu_button_style(t.screen, Screen::Solution),
        Button::MenuActive
    );
    assert_eq!(
        shakuntala_devi_trainer::trainer::menu_button_style(t.screen, Screen::Game),
        Button::MenuInactive
    );
    t.update(Message::TrainingYearTableMode, 0);
    assert_eq!(t.screen, Screen::TrainingYearTable);
    t.update(Message::GameMode, 0);
    assert_eq!(t.screen, Screen::Game);
}

#[test]
fn year_table_guess_marks_and_answers() {
    let mut t = ShakuntalaDeviTrainer::new();
    t.update(Message::TrainingYearTableMode, 0);
    t.update(Message::GuessYearTable(7), 0);
    let hint = t.hints[3].clone();
    assert!(
        hint.as_str() == "Try again, this is a direct year table entry"
            || hint.starts_with("Try again. Tips: no direct year table entry, nearest leap year")
            || hint.as_str() == "Congratulation ! 7 is the right answer"
    );
    assert!(t.year_table_answers[7]);
}
