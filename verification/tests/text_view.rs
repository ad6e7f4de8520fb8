use chrono::{Datelike, NaiveDate};
use keeper_todo::date::{Date, Moment};
use keeper_todo::keeper::Keeper;
use keeper_todo::schedule::Schedule;
use keeper_todo::selection::ShowSet;
use keeper_todo::text::{push_decimal, ColorStyle, KeeperDisplay, BLUE, GREEN, RED, RESET};

fn date(year: i32, month: u32, day: u32) -> Date {
    let naive = NaiveDate::from_ymd_opt(year, month, day).unwrap();
    Date::from_days(naive.num_days_from_ce()).unwrap()
}

fn at(day: Date, hour: u32, minute: u32, second: u32) -> Moment {
    Moment::new(day, hour * 3600 + minute * 60 + second, 0)
}

fn plain(keeper: &Keeper, set: ShowSet, now: Moment) -> String {
    KeeperDisplay::new(keeper, set, ColorStyle::NoColor, now).to_text()
}

#[test]
fn colour_codes_are_the_ansi_ones() {
    assert_eq!(RESET, "\x1b[0m");
    assert_eq!(RED, "\x1b[0;31m");
    assert_eq!(GREEN, "\x1b[0;32m");
    assert_eq!(BLUE, "\x1b[0;34m");
}

#[test]
fn show_pending_task_before_the_hour_ends() {
    let today = date(2024, 1, 5);
    let now = at(today, 8, 0, 0);
    let mut keeper = Keeper::new();
    keeper.add(today, "buy milk", 9);
    assert_eq!(plain(&keeper, ShowSet::Date(today), now), "05 Jan 2024\n[9] (buy milk)\n");
    let shown = keeper.show(ShowSet::Date(today), now);
    assert_eq!(
        shown,
        "05 Jan 2024\n\x1b[0;34m[9]\x1b[0m \x1b[0m(\x1b[0mbuy milk\x1b[0m)\x1b[0m\n"
    );
    assert!(shown.contains(&format!("{BLUE}[9]{RESET} {RESET}({RESET}buy milk{RESET}){RESET}")));
}

#[test]
fn show_marked_task_in_the_done_colour() {
    let today = date(2024, 1, 5);
    let now = at(today, 8, 0, 0);
    let mut keeper = Keeper::new();
    keeper.add(today, "buy milk", 9);
    keeper.mark(today, 9, 0);
    let shown = keeper.show(ShowSet::Date(today), now);
    assert_eq!(
        shown,
        format!("05 Jan 2024\n{GREEN}[9]{RESET} {GREEN}({RESET}buy milk{GREEN}){RESET}\n")
    );
    let late = at(today, 23, 0, 0);
    assert_eq!(keeper.show(ShowSet::Date(today), late), shown);
    keeper.order();
    assert_eq!(keeper.show(ShowSet::Date(today), now), shown);
}

#[test]
fn show_overdue_task_in_the_overdue_colour() {
    let today = date(2024, 1, 5);
    let mut keeper = Keeper::new();
    keeper.add(today, "buy milk", 9);
    let shown = keeper.show(ShowSet::Date(today), at(today, 10, 0, 0));
    assert_eq!(
        shown,
        format!("05 Jan 2024\n{RED}[9]{RESET} {RED}({RESET}buy milk{RED}){RESET}\n")
    );
    let on_the_dot = Moment::new(today, 9 * 3600 + 59 * 60 + 59, 0);
    assert_eq!(
        keeper.show(ShowSet::Date(today), on_the_dot),
        format!("05 Jan 2024\n{BLUE}[9]{RESET} {RESET}({RESET}buy milk{RESET}){RESET}\n")
    );
    let just_after = Moment::new(today, 9 * 3600 + 59 * 60 + 59, 1_000);
    assert_eq!(keeper.show(ShowSet::Date(today), just_after), shown);
}

#[test]
fn mixed_slot_colours_each_task_by_its_own_state() {
    let today = date(2024, 1, 5);
    let mut keeper = Keeper::new();
    keeper.add(today, "a", 9);
    keeper.add(today, "b", 9);
    keeper.mark(today, 9, 0);
    assert_eq!(
        keeper.show(ShowSet::Date(today), at(today, 8, 0, 0)),
        format!(
            "05 Jan 2024\n{BLUE}[9]{RESET} {GREEN}({RESET}a{GREEN}){RESET} {RESET}({RESET}b{RESET}){RESET}\n"
        )
    );
    assert_eq!(
        keeper.show(ShowSet::Date(today), at(today, 12, 0, 0)),
        format!(
            "05 Jan 2024\n{RED}[9]{RESET} {GREEN}({RESET}a{GREEN}){RESET} {RED}({RESET}b{RED}){RESET}\n"
        )
    );
}

#[test]
fn day_without_schedule_shows_the_placeholder() {
    let today = date(2024, 1, 5);
    let keeper = Keeper::new();
    assert_eq!(plain(&keeper, ShowSet::Date(today), at(today, 8, 0, 0)), "05 Jan 2024\nEmpty\n");
    assert_eq!(
        keeper.show(ShowSet::Date(today), at(today, 8, 0, 0)),
        "05 Jan 2024\nEmpty\n"
    );
}

#[test]
fn slots_come_by_ascending_hour() {
    let today = date(2024, 1, 5);
    let mut keeper = Keeper::new();
    keeper.add(today, "late", 17);
    keeper.add(today, "early", 3);
    keeper.add(today, "noon", 12);
    keeper.add(today, "also noon", 12);
    assert_eq!(
        plain(&keeper, ShowSet::Date(today), at(today, 0, 0, 0)),
        "05 Jan 2024\n[3] (early)\n[12] (noon) (also noon)\n[17] (late)\n"
    );
}

#[test]
fn empty_slot_shows_its_hour_alone_in_the_done_colour() {
    let today = date(2024, 1, 5);
    let mut keeper = Keeper::new();
    let mut schedule = Schedule::new();
    schedule.set_slot(9, Vec::new());
    keeper.set_day(today, schedule);
    assert_eq!(plain(&keeper, ShowSet::Date(today), at(today, 0, 0, 0)), "05 Jan 2024\n[9]\n");
    assert_eq!(
        keeper.show(ShowSet::Date(today), at(today, 23, 0, 0)),
        format!("05 Jan 2024\n{GREEN}[9]{RESET}\n")
    );
}

#[test]
fn zero_days_show_nothing() {
    let today = date(2024, 1, 5);
    let mut keeper = Keeper::new();
    keeper.add(today, "buy milk", 9);
    assert_eq!(plain(&keeper, ShowSet::Days(0), at(today, 8, 0, 0)), "");
    assert_eq!(keeper.show(ShowSet::Days(0), at(today, 8, 0, 0)), "");
}

#[test]
fn one_day_is_the_same_as_today_s_date() {
    let today = date(2024, 1, 5);
    let now = at(today, 8, 0, 0);
    let mut keeper = Keeper::new();
    keeper.add(today, "buy milk", 9);
    keeper.add(date(2024, 1, 6), "tomorrow's", 9);
    assert_eq!(
        plain(&keeper, ShowSet::Days(1), now),
        plain(&keeper, ShowSet::Date(today), now)
    );
    assert_eq!(keeper.show(ShowSet::Days(1), now), keeper.show(ShowSet::Date(today), now));
    let empty = Keeper::new();
    assert_eq!(plain(&empty, ShowSet::Days(1), now), "05 Jan 2024\nEmpty\n");
}

#[test]
fn several_days_are_parted_by_one_blank_line() {
    let today = date(2024, 2, 28);
    let now = at(today, 8, 0, 0);
    let mut keeper = Keeper::new();
    keeper.add(today, "a", 9);
    keeper.add(date(2024, 3, 1), "b", 7);
    assert_eq!(
        plain(&keeper, ShowSet::Days(3), now),
        "28 Feb 2024\n[9] (a)\n\n29 Feb 2024\nEmpty\n\n01 Mar 2024\n[7] (b)\n"
    );
}

#[test]
fn lateness_in_a_range_goes_by_each_day_s_own_date() {
    let today = date(2024, 2, 28);
    let now = at(today, 12, 0, 0);
    let mut keeper = Keeper::new();
    keeper.add(today, "a", 9);
    keeper.add(date(2024, 2, 29), "b", 9);
    assert_eq!(
        keeper.show(ShowSet::Days(2), now),
        format!(
            "28 Feb 2024\n{RED}[9]{RESET} {RED}({RESET}a{RED}){RESET}\n\n29 Feb 2024\n{BLUE}[9]{RESET} {RESET}({RESET}b{RESET}){RESET}\n"
        )
    );
    assert_eq!(
        keeper.show(ShowSet::Date(today), at(date(2024, 2, 27), 23, 0, 0)),
        format!("28 Feb 2024\n{BLUE}[9]{RESET} {RESET}({RESET}a{RESET}){RESET}\n")
    );
}

#[test]
fn days_stop_where_the_calendar_ends() {
    let last = Date::from_days(NaiveDate::MAX.num_days_from_ce()).unwrap();
    let before = last.pred().unwrap();
    let keeper = Keeper::new();
    let text = plain(&keeper, ShowSet::Days(5), at(before, 0, 0, 0));
    assert_eq!(text.lines().count(), 5);
    assert_eq!(text, format!("{}\nEmpty\n\n{}\nEmpty\n", before.label(), last.label()));
}

#[test]
fn decimal_has_no_leading_zeros() {
    for (n, text) in [
        (0usize, "0"),
        (7, "7"),
        (9, "9"),
        (10, "10"),
        (23, "23"),
        (100, "100"),
        (4096, "4096"),
        (1_000_000_007, "1000000007"),
    ] {
        let mut out = String::from("x");
        push_decimal(&mut out, n);
        assert_eq!(out, format!("x{text}"));
    }
    let mut out = String::new();
    push_decimal(&mut out, usize::MAX);
    assert_eq!(out, usize::MAX.to_string());
}

#[test]
fn fmt_day_appends_to_what_is_there() {
    let today = date(2024, 1, 5);
    let mut keeper = Keeper::new();
    keeper.add(today, "buy milk", 9);
    let display = KeeperDisplay::new(&keeper, ShowSet::Days(0), ColorStyle::NoColor, at(today, 0, 0, 0));
    let mut out = String::from("> ");
    display.fmt_day(&mut out, today);
    assert_eq!(out, "> 05 Jan 2024\n[9] (buy milk)\n");
}

#[test]
fn colour_changes_no_line() {
    let today = date(2024, 2, 28);
    let now = at(today, 12, 0, 0);
    let mut keeper = Keeper::new();
    keeper.add(today, "a", 9);
    keeper.add(today, "two\nlines", 9);
    keeper.add(date(2024, 3, 1), "b", 7);
    keeper.mark(today, 9, 0);
    for set in [ShowSet::Days(0), ShowSet::Days(1), ShowSet::Days(4), ShowSet::Date(today)] {
        let coloured = keeper.show(set, now);
        let uncoloured = plain(&keeper, set, now);
        assert_eq!(coloured.lines().count(), uncoloured.lines().count());
        let mut stripped = coloured.clone();
        for code in [RED, GREEN, BLUE, RESET] {
            stripped = stripped.replace(code, "");
        }
        assert_eq!(stripped, uncoloured);
    }
    assert_eq!(plain(&keeper, ShowSet::Days(4), now).lines().count(), 12);
}
