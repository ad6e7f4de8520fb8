use chrono::{Datelike, NaiveDate};
use keeper_todo::classify::{classify, slot_all_done, treatment, Treatment};
use keeper_todo::date::{Date, Moment};
use keeper_todo::task::Task;

fn date(year: i32, month: u32, day: u32) -> Date {
    let naive = NaiveDate::from_ymd_opt(year, month, day).unwrap();
    Date::from_days(naive.num_days_from_ce()).unwrap()
}

fn at(day: Date, hour: u32, minute: u32, second: u32, nano: u32) -> Moment {
    Moment::new(day, hour * 3600 + minute * 60 + second, nano)
}

#[test]
fn one_second_before_the_slot_ends_is_not_past_due() {
    let day = date(2024, 3, 10);
    for hour in 0..24u32 {
        let now = at(day, hour, 59, 58, 0);
        assert!(!classify(day, hour as usize, &now).past_due);
        let almost = at(day, hour, 59, 58, 999_999_999);
        assert!(!classify(day, hour as usize, &almost).past_due);
    }
}

#[test]
fn the_closing_instant_itself_is_not_past_due() {
    let day = date(2024, 3, 10);
    for hour in 0..24u32 {
        let now = at(day, hour, 59, 59, 0);
        assert!(!classify(day, hour as usize, &now).past_due);
    }
}

#[test]
fn a_microsecond_after_the_slot_ends_is_past_due() {
    let day = date(2024, 3, 10);
    for hour in 0..24u32 {
        let now = at(day, hour, 59, 59, 1_000);
        assert!(classify(day, hour as usize, &now).past_due);
        let one_nano = at(day, hour, 59, 59, 1);
        assert!(classify(day, hour as usize, &one_nano).past_due);
    }
}

#[test]
fn the_next_hour_is_past_due_and_the_hour_before_is_not() {
    let day = date(2024, 3, 10);
    assert!(classify(day, 10, &at(day, 11, 0, 0, 0)).past_due);
    assert!(!classify(day, 10, &at(day, 10, 0, 0, 0)).past_due);
    assert!(!classify(day, 10, &at(day, 9, 59, 59, 999_999_999)).past_due);
    assert!(classify(day, 0, &at(day, 23, 59, 59, 0)).past_due);
    assert!(!classify(day, 23, &at(day, 23, 59, 59, 0)).past_due);
}

#[test]
fn other_days_decide_by_the_date_alone() {
    let day = date(2024, 3, 10);
    let before = date(2024, 3, 9);
    let after = date(2024, 3, 11);
    assert!(classify(day, 23, &at(after, 0, 0, 0, 0)).past_due);
    assert!(!classify(day, 0, &at(before, 23, 59, 59, 999_999_999)).past_due);
    let year_later = date(2025, 3, 10);
    assert!(classify(day, 23, &at(year_later, 0, 0, 0, 0)).past_due);
}

#[test]
fn hours_beyond_the_day_never_end_on_that_day() {
    let day = date(2024, 3, 10);
    let late = Moment::new(day, u32::MAX, 999_999_999);
    assert!(!classify(day, usize::MAX, &late).past_due);
    assert!(!classify(day, 1_193_047, &late).past_due);
    assert!(classify(day, 23, &late).past_due);
}

#[test]
fn treatment_has_four_combinations() {
    assert_eq!(treatment(true, true), Treatment::Done);
    assert_eq!(treatment(true, false), Treatment::Done);
    assert_eq!(treatment(false, true), Treatment::Overdue);
    assert_eq!(treatment(false, false), Treatment::Pending);
}

#[test]
fn slot_is_all_done_when_every_task_is() {
    let empty: Vec<Task> = Vec::new();
    assert!(slot_all_done(&empty));
    let done = vec![
        Task::with_state("a".to_string(), true),
        Task::with_state("b".to_string(), true),
    ];
    assert!(slot_all_done(&done));
    let mixed = vec![
        Task::with_state("a".to_string(), true),
        Task::with_state("b".to_string(), false),
        Task::with_state("c".to_string(), true),
    ];
    assert!(!slot_all_done(&mixed));
    let last = vec![
        Task::with_state("a".to_string(), true),
        Task::with_state("b".to_string(), false),
    ];
    assert!(!slot_all_done(&last));
}

#[test]
fn moment_keeps_its_parts() {
    let day = date(2024, 3, 10);
    let now = Moment::new(day, 4321, 77);
    assert_eq!(now.date().days(), day.days());
    assert_eq!(now.second(), 4321);
    assert_eq!(now.nano(), 77);
}
