//! Calendar dates and clock readings.
//!
//! A date is held as its day number in the proleptic Gregorian calendar
//! (1 January of year 1 is day 1), so that dates order and step as integers.
//! The calendar is the one of `chrono`, which also writes and reads dates.

use chrono::{Datelike, NaiveDate};
use vstd::prelude::*;
use vstd::string::*;

verus! {

/// The day number of the first date that `chrono` holds, 1 January of the
/// year -262143. The calendar repeats after 400 years, which have 146097
/// days. The year is -656 * 400 + 257, the first 257 years of a cycle have
/// 93868 days, and the year 0, with which a cycle starts, starts 365 days
/// before day 1: -656 * 146097 + 93868 - 365.
pub const FIRST_DAY: i32 = -95_746_129;

/// The day number of the last date that `chrono` holds, 31 December of the
/// year 262142. The year is 655 * 400 + 142, and the first 143 years of a
/// cycle have 52230 days: 655 * 146097 + 52230 - 1 - 365.
pub const LAST_DAY: i32 = 95_745_399;

/// Whether a day number names a date of the calendar.
pub open spec fn is_date(days: int) -> bool {
    FIRST_DAY <= days <= LAST_DAY
}

/// What `chrono` writes for the date numbered `days` under the pattern
/// `%d %b %Y`, for example `05 Jan 2024`.
pub uninterp spec fn date_label(days: int) -> Seq<char>;

/// Calls `chrono::NaiveDate::from_num_days_from_ce_opt` and, where that gives
/// a date, `NaiveDate::format` with the pattern `%d %b %Y`.
///
/// Trusted, of `from_num_days_from_ce_opt`: it gives a date exactly for the
/// day numbers of the years from -262143 to 262142, which are those from
/// [`FIRST_DAY`] to [`LAST_DAY`]. Trusted, of `format`: what it writes is a
/// function of the date alone, named [`date_label`]; nothing is claimed
/// about what the text is.
#[verifier::external_body]
fn chrono_label(days: i32) -> (label: Option<String>)
    ensures
        label is Some <==> is_date(days as int),
        label matches Some(text) ==> text@ == date_label(days as int),
{
    match NaiveDate::from_num_days_from_ce_opt(days) {
        Some(date) => Some(date.format("%d %b %Y").to_string()),
        None => None,
    }
}

/// A calendar date.
#[derive(Clone, Copy, Debug, PartialEq, Eq, Structural)]
pub struct Date {
    days: i32,
}

impl View for Date {
    type V = int;

    closed spec fn view(&self) -> int {
        self.days as int
    }
}

impl Date {
    #[verifier::type_invariant]
    spec fn can_be_written(self) -> bool {
        is_date(self.days as int)
    }

    /// The date with the given day number, if there is one.
    pub fn from_days(days: i32) -> (date: Option<Date>)
        ensures
            match date {
                Some(d) => d@ == days && is_date(days as int),
                None => !is_date(days as int),
            },
    {
        if FIRST_DAY <= days && days <= LAST_DAY {
            Some(Date { days })
        } else {
            None
        }
    }

    /// The day number of this date.
    pub fn days(&self) -> (days: i32)
        ensures
            days == self@,
            is_date(self@),
    {
        proof {
            use_type_invariant(self);
        }
        self.days
    }

    /// The date written out as day, abbreviated month and year.
    pub fn label(&self) -> (text: String)
        ensures
            text@ == date_label(self@),
    {
        proof {
            use_type_invariant(self);
        }
        match chrono_label(self.days) {
            Some(text) => text,
            None => unreached(),
        }
    }

    /// The day after this one, unless the calendar ends here.
    pub fn succ(&self) -> (next: Option<Date>)
        ensures
            match next {
                Some(d) => d@ == self@ + 1 && is_date(self@ + 1),
                None => !is_date(self@ + 1),
            },
    {
        if self.days == i32::MAX {
            None
        } else {
            Date::from_days(self.days + 1)
        }
    }

    /// The day before this one, unless the calendar starts here.
    pub fn pred(&self) -> (prev: Option<Date>)
        ensures
            match prev {
                Some(d) => d@ == self@ - 1 && is_date(self@ - 1),
                None => !is_date(self@ - 1),
            },
    {
        if self.days == i32::MIN {
            None
        } else {
            Date::from_days(self.days - 1)
        }
    }
}

/// The mathematical content of a [`Moment`]: a day number, the seconds since
/// that day's local midnight, and the nanoseconds into that second.
pub struct MomentView {
    pub day: int,
    pub second: int,
    pub nano: int,
}

/// A reading of the local clock.
#[derive(Clone, Copy, Debug, PartialEq, Eq, Structural)]
pub struct Moment {
    date: Date,
    second: u32,
    nano: u32,
}

impl View for Moment {
    type V = MomentView;

    closed spec fn view(&self) -> MomentView {
        MomentView { day: self.date@, second: self.second as int, nano: self.nano as int }
    }
}

impl Moment {
    /// The instant `nano` nanoseconds after the `second`-th second of `date`.
    pub fn new(date: Date, second: u32, nano: u32) -> (moment: Moment)
        ensures
            moment@ == (MomentView { day: date@, second: second as int, nano: nano as int }),
    {
        Moment { date, second, nano }
    }

    /// The calendar date of this reading.
    pub fn date(&self) -> (date: Date)
        ensures
            date@ == self@.day,
            is_date(date@),
    {
        proof {
            use_type_invariant(&self.date);
        }
        self.date
    }

    /// Seconds since local midnight.
    pub fn second(&self) -> (second: u32)
        ensures
            second == self@.second,
    {
        self.second
    }

    /// Nanoseconds into the current second.
    pub fn nano(&self) -> (nano: u32)
        ensures
            nano == self@.nano,
    {
        self.nano
    }
}

/// What `chrono` reads from a text under the pattern `%d-%m-%Y` (for example
/// `05-01-2024`): the day number of the date, or why the text is none.
pub uninterp spec fn parsed_day(text: Seq<char>) -> Result<int, Seq<char>>;

/// Calls `chrono::NaiveDate::parse_from_str` with the pattern `%d-%m-%Y`,
/// and then `Datelike::num_days_from_ce` on the date or `to_string` on the
/// error.
///
/// Trusted: the result is a function of the text alone, named
/// [`parsed_day`], and a date that is read is a date of the calendar.
/// Nothing is claimed about which texts are dates.
#[verifier::external_body]
fn chrono_parse(text: &str) -> (parsed: Result<i32, String>)
    ensures
        match parsed {
            Ok(days) => parsed_day(text@) matches Ok(day) && day == days && is_date(day),
            Err(reason) => parsed_day(text@) matches Err(why) && why == reason@,
        },
{
    match NaiveDate::parse_from_str(text, "%d-%m-%Y") {
        Ok(date) => Ok(date.num_days_from_ce()),
        Err(error) => Err(error.to_string()),
    }
}

/// Why a text names no date.
#[derive(Debug)]
pub enum DateError {
    /// The text is neither a keyword nor a day, month and year; with the
    /// reason that the date parser gave.
    Unparsable(String),
    /// The day after the last date of the calendar, or the day before its
    /// first.
    OutOfRange,
}

/// The mathematical content of a [`DateError`].
pub enum DateErrorView {
    Unparsable(Seq<char>),
    OutOfRange,
}

impl View for DateError {
    type V = DateErrorView;

    open spec fn view(&self) -> DateErrorView {
        match *self {
            DateError::Unparsable(reason) => DateErrorView::Unparsable(reason@),
            DateError::OutOfRange => DateErrorView::OutOfRange,
        }
    }
}

/// The date that a text names on the day `today`: one of the keywords
/// `today`, `tomorrow` and `yesterday`, or else a day, month and year.
pub open spec fn date_of(text: Seq<char>, today: int) -> Result<int, DateErrorView> {
    if text == "today"@ {
        Ok(today)
    } else if text == "tomorrow"@ {
        if is_date(today + 1) {
            Ok(today + 1)
        } else {
            Err(DateErrorView::OutOfRange)
        }
    } else if text == "yesterday"@ {
        if is_date(today - 1) {
            Ok(today - 1)
        } else {
            Err(DateErrorView::OutOfRange)
        }
    } else {
        match parsed_day(text) {
            Ok(days) => Ok(days),
            Err(reason) => Err(DateErrorView::Unparsable(reason)),
        }
    }
}

/// Whether two texts are the same.
pub(crate) fn same_text(a: &str, b: &str) -> (same: bool)
    ensures
        same == (a@ == b@),
{
    String::from_str(a) == String::from_str(b)
}

/// Reads a date: a keyword relative to `today`, or a day, month and year.
pub fn parse_date(text: &str, today: Date) -> (outcome: Result<Date, DateError>)
    ensures
        match outcome {
            Ok(date) => date_of(text@, today@) matches Ok(day) && day == date@,
            Err(error) => date_of(text@, today@) matches Err(e) && e == error@,
        },
{
    if same_text(text, "today") {
        Ok(today)
    } else if same_text(text, "tomorrow") {
        match today.succ() {
            Some(date) => Ok(date),
            None => Err(DateError::OutOfRange),
        }
    } else if same_text(text, "yesterday") {
        match today.pred() {
            Some(date) => Ok(date),
            None => Err(DateError::OutOfRange),
        }
    } else {
        match chrono_parse(text) {
            Ok(days) => match Date::from_days(days) {
                Some(date) => Ok(date),
                None => unreached(),
            },
            Err(reason) => Err(DateError::Unparsable(reason)),
        }
    }
}

} // verus!
