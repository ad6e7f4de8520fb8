use chrono::{Datelike, NaiveDate};
use keeper_todo::cli::{help, CliError, Command, Field, HourForm, ShowSet, Verb};
use keeper_todo::number::{find_dot, parse_number};
use keeper_todo::usage::{current_version, VERSION_LEN, YELLOW};
use keeper_todo::date::{Date, DateError};

fn date(year: i32, month: u32, day: u32) -> Date {
    let naive = NaiveDate::from_ymd_opt(year, month, day).unwrap();
    Date::from_days(naive.num_days_from_ce()).unwrap()
}

fn parse(words: &[&str]) -> Result<Command, CliError> {
    let mut args = vec!["keeper-todo".to_string()];
    args.extend(words.iter().map(|w| w.to_string()));
    Command::parse(&args, date(2024, 1, 5))
}

fn days_of(found: Date) -> i32 {
    found.days()
}

#[test]
fn numbers_are_plain_decimal() {
    assert_eq!(parse_number("0"), Some(0));
    assert_eq!(parse_number("9"), Some(9));
    assert_eq!(parse_number("23"), Some(23));
    assert_eq!(parse_number("007"), Some(7));
    assert_eq!(parse_number("+5"), Some(5));
    assert_eq!(parse_number("+0012"), Some(12));
    assert_eq!(parse_number(&usize::MAX.to_string()), Some(usize::MAX));
}

#[test]
fn other_texts_are_no_numbers() {
    for text in ["", "+", "-", "-5", "++5", "5+", " 5", "5 ", "1.5", "0x10", "five", "1_000", "٣"] {
        assert_eq!(parse_number(text), None, "{text:?}");
    }
    let too_big = format!("{}0", usize::MAX);
    assert_eq!(parse_number(&too_big), None);
    let one_more = (usize::MAX as u128 + 1).to_string();
    assert_eq!(parse_number(&one_more), None);
    assert_eq!(parse_number("99999999999999999999999999999999999999x"), None);
}

#[test]
fn numbers_agree_with_the_standard_parser() {
    for text in ["0", "+", "", "12", "+12", "-0", "00", "18446744073709551615", "18446744073709551616", "1a"] {
        assert_eq!(parse_number(text), text.parse::<usize>().ok(), "{text:?}");
    }
}

#[test]
fn first_full_stop_is_found() {
    assert_eq!(find_dot("9.1"), Some(1));
    assert_eq!(find_dot("12.3.4"), Some(2));
    assert_eq!(find_dot(".5"), Some(0));
    assert_eq!(find_dot("5."), Some(1));
    assert_eq!(find_dot("95"), None);
    assert_eq!(find_dot(""), None);
    assert_eq!(find_dot("é.1"), Some(1));
}

#[test]
fn add_takes_date_hour_and_description() {
    match parse(&["add", "today", "9", "buy milk"]) {
        Ok(Command::Add { date: found, hour, desc }) => {
            assert_eq!(days_of(found), days_of(date(2024, 1, 5)));
            assert_eq!(hour, 9);
            assert_eq!(desc, "buy milk");
        }
        other => panic!("unexpected: {other:?}"),
    }
    match parse(&["add", "07-03-2025", "23", "x", "ignored"]) {
        Ok(Command::Add { date: found, hour, desc }) => {
            assert_eq!(days_of(found), days_of(date(2025, 3, 7)));
            assert_eq!(hour, 23);
            assert_eq!(desc, "x");
        }
        other => panic!("unexpected: {other:?}"),
    }
}

#[test]
fn add_reports_what_is_missing_or_wrong_in_order() {
    assert!(matches!(parse(&["add"]), Err(CliError::Missing(Verb::Add, Field::Date))));
    assert!(matches!(
        parse(&["add", "someday", "99", "x"]),
        Err(CliError::BadDate(DateError::Unparsable(_)))
    ));
    assert!(matches!(parse(&["add", "today"]), Err(CliError::Missing(Verb::Add, Field::Hour))));
    assert!(matches!(
        parse(&["add", "today", "nine", "x"]),
        Err(CliError::BadHour(HourForm::Plain))
    ));
    assert!(matches!(parse(&["add", "today", "24", "x"]), Err(CliError::HourOutOfRange(24))));
    assert!(matches!(parse(&["add", "today", "24"]), Err(CliError::HourOutOfRange(24))));
    assert!(matches!(parse(&["add", "today", "9"]), Err(CliError::Missing(Verb::Add, Field::Desc))));
}

#[test]
fn mark_takes_date_and_id() {
    match parse(&["mark", "tomorrow", "9.2"]) {
        Ok(Command::Mark { date: found, hour, index }) => {
            assert_eq!(days_of(found), days_of(date(2024, 1, 6)));
            assert_eq!((hour, index), (9, 2));
        }
        other => panic!("unexpected: {other:?}"),
    }
    match parse(&["mark", "yesterday", "17"]) {
        Ok(Command::Mark { date: found, hour, index }) => {
            assert_eq!(days_of(found), days_of(date(2024, 1, 4)));
            assert_eq!((hour, index), (17, 0));
        }
        other => panic!("unexpected: {other:?}"),
    }
}

#[test]
fn mark_reports_what_is_missing_or_wrong_in_order() {
    assert!(matches!(parse(&["mark"]), Err(CliError::Missing(Verb::Mark, Field::Date))));
    assert!(matches!(parse(&["mark", "x"]), Err(CliError::BadDate(_))));
    assert!(matches!(parse(&["mark", "today"]), Err(CliError::Missing(Verb::Mark, Field::Id))));
    assert!(matches!(parse(&["mark", "today", "a.b"]), Err(CliError::BadHour(HourForm::Dotted))));
    assert!(matches!(parse(&["mark", "today", ".1"]), Err(CliError::BadHour(HourForm::Dotted))));
    assert!(matches!(parse(&["mark", "today", "99.b"]), Err(CliError::BadIndex)));
    assert!(matches!(parse(&["mark", "today", "9."]), Err(CliError::BadIndex)));
    assert!(matches!(parse(&["mark", "today", "9.1.2"]), Err(CliError::BadIndex)));
    assert!(matches!(parse(&["mark", "today", "99.1"]), Err(CliError::HourOutOfRange(99))));
    assert!(matches!(parse(&["mark", "today", "nine"]), Err(CliError::BadHour(HourForm::Bare))));
    assert!(matches!(parse(&["mark", "today", "24"]), Err(CliError::HourOutOfRange(24))));
}

#[test]
fn change_takes_date_id_and_new_hour() {
    match parse(&["change", "today", "9.1", "14"]) {
        Ok(Command::Change { date: found, old_hour, index, new_hour }) => {
            assert_eq!(days_of(found), days_of(date(2024, 1, 5)));
            assert_eq!((old_hour, index, new_hour), (9, 1, 14));
        }
        other => panic!("unexpected: {other:?}"),
    }
    match parse(&["change", "today", "9", "0"]) {
        Ok(Command::Change { old_hour, index, new_hour, .. }) => {
            assert_eq!((old_hour, index, new_hour), (9, 0, 0));
        }
        other => panic!("unexpected: {other:?}"),
    }
}

#[test]
fn change_reports_what_is_missing_or_wrong_in_order() {
    assert!(matches!(parse(&["change"]), Err(CliError::Missing(Verb::Change, Field::Date))));
    assert!(matches!(parse(&["change", "x"]), Err(CliError::BadDate(_))));
    assert!(matches!(parse(&["change", "today"]), Err(CliError::Missing(Verb::Change, Field::Id))));
    assert!(matches!(parse(&["change", "today", "x", "y"]), Err(CliError::BadHour(HourForm::Bare))));
    assert!(matches!(parse(&["change", "today", "30.1", "y"]), Err(CliError::HourOutOfRange(30))));
    assert!(matches!(
        parse(&["change", "today", "9.1"]),
        Err(CliError::Missing(Verb::Change, Field::NewHour))
    ));
    assert!(matches!(parse(&["change", "today", "9.1", "y"]), Err(CliError::BadNewHour)));
    assert!(matches!(
        parse(&["change", "today", "9.1", "24"]),
        Err(CliError::NewHourOutOfRange(24))
    ));
}

#[test]
fn show_takes_a_count_a_date_or_nothing() {
    match parse(&["show"]) {
        Ok(Command::Show { set: ShowSet::Date(found) }) => {
            assert_eq!(days_of(found), days_of(date(2024, 1, 5)))
        }
        other => panic!("unexpected: {other:?}"),
    }
    assert!(matches!(parse(&["show", "3"]), Ok(Command::Show { set: ShowSet::Days(3) })));
    assert!(matches!(parse(&["show", "0"]), Ok(Command::Show { set: ShowSet::Days(0) })));
    match parse(&["show", "tomorrow"]) {
        Ok(Command::Show { set: ShowSet::Date(found) }) => {
            assert_eq!(days_of(found), days_of(date(2024, 1, 6)))
        }
        other => panic!("unexpected: {other:?}"),
    }
    match parse(&["show", "01-02-2003"]) {
        Ok(Command::Show { set: ShowSet::Date(found) }) => {
            assert_eq!(days_of(found), days_of(date(2003, 2, 1)))
        }
        other => panic!("unexpected: {other:?}"),
    }
    assert!(matches!(
        parse(&["show", "never"]),
        Err(CliError::BadDate(DateError::Unparsable(_)))
    ));
}

#[test]
fn render_takes_a_count_or_a_date() {
    assert!(matches!(parse(&["render"]), Err(CliError::Missing(Verb::Render, Field::Selection))));
    assert!(matches!(parse(&["render", "7", "out.png"]), Ok(Command::Render { set: ShowSet::Days(7) })));
    match parse(&["render", "today"]) {
        Ok(Command::Render { set: ShowSet::Date(found) }) => {
            assert_eq!(days_of(found), days_of(date(2024, 1, 5)))
        }
        other => panic!("unexpected: {other:?}"),
    }
    assert!(matches!(parse(&["render", "-1"]), Err(CliError::BadDate(_))));
}

#[test]
fn anything_else_asks_for_the_usage() {
    assert!(matches!(parse(&[]), Err(CliError::Usage)));
    assert!(matches!(parse(&["help"]), Err(CliError::Usage)));
    assert!(matches!(parse(&["Add", "today", "9", "x"]), Err(CliError::Usage)));
    assert!(matches!(parse(&[""]), Err(CliError::Usage)));
    let no_program: Vec<String> = Vec::new();
    assert!(matches!(Command::parse(&no_program, date(2024, 1, 5)), Err(CliError::Usage)));
}

#[test]
fn version_is_the_first_six_characters() {
    assert_eq!(VERSION_LEN, 6);
    assert_eq!(current_version("0123456789abcdef"), "012345");
    assert_eq!(current_version("abcdef"), "abcdef");
    assert_eq!(current_version("a1b2c3d4\n"), "a1b2c3");
}

#[test]
fn usage_lists_every_command() {
    let yellow = "\x1b[0;33m";
    let green = "\x1b[0;32m";
    let reset = "\x1b[0m";
    assert_eq!(YELLOW, yellow);
    let expected = format!(
        "\
keeper-todo (a1b2c3) Felix Prasanna 2024
{yellow}help{reset}:
    keeper-todo help
{yellow}add{reset}:
    keeper-todo add {green}date{reset} hour desc
{yellow}mark{reset}:
    keeper-todo mark {green}date{reset} hour.index
    keeper-todo mark {green}date{reset} hour
{yellow}change{reset}:
    keeper-todo change {green}date{reset} hour.index new-hour
    keeper-todo change {green}date{reset} hour new-hour
{yellow}show{reset}:
    keeper-todo show {green}date{reset}
    keeper-todo show {green}count{reset}
    keeper-todo show
{yellow}render{reset}:
    keeper-todo render {green}date{reset} path
    keeper-todo render {green}count{reset} path

{yellow}terms{reset}:
    date = {green}(dd-mm-yy|today|tomorrow|yesterday){reset}"
    );
    assert_eq!(help("a1b2c3"), expected);
}
