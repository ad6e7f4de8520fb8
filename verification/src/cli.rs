//! The command line as a grammar: five commands, each with its arguments,
//! read from the list of words that the program was started with.

pub use crate::selection::ShowSet;
pub use crate::usage::help;

use crate::date::{date_of, parse_date, same_text, Date, DateError, DateErrorView};
use crate::number::{find_dot, first_dot, number_of, parse_number};
use crate::selection::ShowSetView;
use vstd::prelude::*;
use vstd::string::*;

verus! {

/// One of the five commands.
#[derive(Clone, Copy, Debug, PartialEq, Eq, Structural)]
pub enum Verb {
    Add,
    Mark,
    Change,
    Show,
    Render,
}

/// An argument of a command.
#[derive(Clone, Copy, Debug, PartialEq, Eq, Structural)]
pub enum Field {
    Date,
    Hour,
    Desc,
    /// The task to act on: `hour.index`, or `hour` for the hour's first task.
    Id,
    NewHour,
    /// What to show: a date or a number of days.
    Selection,
}

/// The form in which an hour was expected.
#[derive(Clone, Copy, Debug, PartialEq, Eq, Structural)]
pub enum HourForm {
    /// An argument of its own.
    Plain,
    /// The part before the full stop of `hour.index`.
    Dotted,
    /// An id without a full stop.
    Bare,
}

/// Why a command line is refused.
#[derive(Debug)]
pub enum CliError {
    /// There is no command, or none that is known.
    Usage,
    /// The command lacks an argument.
    Missing(Verb, Field),
    /// The date argument names no date.
    BadDate(DateError),
    /// The hour is no number.
    BadHour(HourForm),
    /// The index after the full stop is no number.
    BadIndex,
    /// The hour to move to is no number.
    BadNewHour,
    /// The hour is a number, but not one from 0 to 23.
    HourOutOfRange(usize),
    /// The hour to move to is a number, but not one from 0 to 23.
    NewHourOutOfRange(usize),
}

/// The mathematical content of a [`CliError`].
pub enum CliErrorView {
    Usage,
    Missing(Verb, Field),
    BadDate(DateErrorView),
    BadHour(HourForm),
    BadIndex,
    BadNewHour,
    HourOutOfRange(nat),
    NewHourOutOfRange(nat),
}

impl View for CliError {
    type V = CliErrorView;

    open spec fn view(&self) -> CliErrorView {
        match *self {
            CliError::Usage => CliErrorView::Usage,
            CliError::Missing(verb, field) => CliErrorView::Missing(verb, field),
            CliError::BadDate(error) => CliErrorView::BadDate(error@),
            CliError::BadHour(form) => CliErrorView::BadHour(form),
            CliError::BadIndex => CliErrorView::BadIndex,
            CliError::BadNewHour => CliErrorView::BadNewHour,
            CliError::HourOutOfRange(hour) => CliErrorView::HourOutOfRange(hour as nat),
            CliError::NewHourOutOfRange(hour) => CliErrorView::NewHourOutOfRange(hour as nat),
        }
    }
}

/// A parsed and validated command.
#[derive(Debug)]
pub enum Command {
    Add { date: Date, hour: usize, desc: String },
    Mark { date: Date, hour: usize, index: usize },
    Change { date: Date, old_hour: usize, index: usize, new_hour: usize },
    Show { set: ShowSet },
    Render { set: ShowSet },
}

/// The mathematical content of a [`Command`].
pub enum CommandView {
    Add { date: int, hour: nat, desc: Seq<char> },
    Mark { date: int, hour: nat, index: nat },
    Change { date: int, old_hour: nat, index: nat, new_hour: nat },
    Show { set: ShowSetView },
    Render { set: ShowSetView },
}

impl View for Command {
    type V = CommandView;

    open spec fn view(&self) -> CommandView {
        match *self {
            Command::Add { date, hour, desc } => CommandView::Add {
                date: date@,
                hour: hour as nat,
                desc: desc@,
            },
            Command::Mark { date, hour, index } => CommandView::Mark {
                date: date@,
                hour: hour as nat,
                index: index as nat,
            },
            Command::Change { date, old_hour, index, new_hour } => CommandView::Change {
                date: date@,
                old_hour: old_hour as nat,
                index: index as nat,
                new_hour: new_hour as nat,
            },
            Command::Show { set } => CommandView::Show { set: set@ },
            Command::Render { set } => CommandView::Render { set: set@ },
        }
    }
}

/// The words of a command line, each as the characters it holds.
pub open spec fn words_of(args: Seq<String>) -> Seq<Seq<char>> {
    args.map_values(|word: String| word@)
}

/// The word at place `at`, if the line is that long.
pub open spec fn word(words: Seq<Seq<char>>, at: int) -> Option<Seq<char>> {
    if 0 <= at < words.len() {
        Some(words[at])
    } else {
        None
    }
}

/// An hour of the day: a number from 0 to 23.
pub open spec fn hour_of(text: Seq<char>, form: HourForm) -> Result<nat, CliErrorView> {
    match number_of(text) {
        None => Err(CliErrorView::BadHour(form)),
        Some(hour) => if hour < 24 {
            Ok(hour)
        } else {
            Err(CliErrorView::HourOutOfRange(hour))
        },
    }
}

/// The task that an id names, as hour and index. An id is `hour.index`, or
/// `hour` alone for index 0. Both numbers are read before the hour is held
/// to the day.
pub open spec fn id_of(text: Seq<char>) -> Result<(nat, nat), CliErrorView> {
    match first_dot(text) {
        Some(at) => match number_of(text.take(at)) {
            None => Err(CliErrorView::BadHour(HourForm::Dotted)),
            Some(hour) => match number_of(text.skip(at + 1)) {
                None => Err(CliErrorView::BadIndex),
                Some(index) => if hour < 24 {
                    Ok((hour, index))
                } else {
                    Err(CliErrorView::HourOutOfRange(hour))
                },
            },
        },
        None => match hour_of(text, HourForm::Bare) {
            Ok(hour) => Ok((hour, 0nat)),
            Err(error) => Err(error),
        },
    }
}

/// What to show: a number of days if the text is a number, else a date.
pub open spec fn set_of(text: Seq<char>, today: int) -> Result<ShowSetView, CliErrorView> {
    match number_of(text) {
        Some(count) => Ok(ShowSetView::Days(count)),
        None => match date_of(text, today) {
            Ok(date) => Ok(ShowSetView::Date(date)),
            Err(error) => Err(CliErrorView::BadDate(error)),
        },
    }
}

/// The date argument of `verb`, which is the word after the command.
pub open spec fn date_word_of(words: Seq<Seq<char>>, verb: Verb, today: int) -> Result<
    int,
    CliErrorView,
> {
    match word(words, 2) {
        None => Err(CliErrorView::Missing(verb, Field::Date)),
        Some(text) => match date_of(text, today) {
            Ok(date) => Ok(date),
            Err(error) => Err(CliErrorView::BadDate(error)),
        },
    }
}

/// `add date hour desc`
pub open spec fn add_of(words: Seq<Seq<char>>, today: int) -> Result<CommandView, CliErrorView> {
    match date_word_of(words, Verb::Add, today) {
        Err(error) => Err(error),
        Ok(date) => match word(words, 3) {
            None => Err(CliErrorView::Missing(Verb::Add, Field::Hour)),
            Some(text) => match hour_of(text, HourForm::Plain) {
                Err(error) => Err(error),
                Ok(hour) => match word(words, 4) {
                    None => Err(CliErrorView::Missing(Verb::Add, Field::Desc)),
                    Some(desc) => Ok(CommandView::Add { date, hour, desc }),
                },
            },
        },
    }
}

/// `mark date id`
pub open spec fn mark_of(words: Seq<Seq<char>>, today: int) -> Result<CommandView, CliErrorView> {
    match date_word_of(words, Verb::Mark, today) {
        Err(error) => Err(error),
        Ok(date) => match word(words, 3) {
            None => Err(CliErrorView::Missing(Verb::Mark, Field::Id)),
            Some(text) => match id_of(text) {
                Err(error) => Err(error),
                Ok(id) => Ok(CommandView::Mark { date, hour: id.0, index: id.1 }),
            },
        },
    }
}

/// The hour to move a task to: a number from 0 to 23.
pub open spec fn new_hour_of(text: Seq<char>) -> Result<nat, CliErrorView> {
    match number_of(text) {
        None => Err(CliErrorView::BadNewHour),
        Some(hour) => if hour < 24 {
            Ok(hour)
        } else {
            Err(CliErrorView::NewHourOutOfRange(hour))
        },
    }
}

/// `change date id new-hour`
pub open spec fn change_of(words: Seq<Seq<char>>, today: int) -> Result<CommandView, CliErrorView> {
    match date_word_of(words, Verb::Change, today) {
        Err(error) => Err(error),
        Ok(date) => match word(words, 3) {
            None => Err(CliErrorView::Missing(Verb::Change, Field::Id)),
            Some(text) => match id_of(text) {
                Err(error) => Err(error),
                Ok(id) => match word(words, 4) {
                    None => Err(CliErrorView::Missing(Verb::Change, Field::NewHour)),
                    Some(text) => match new_hour_of(text) {
                        Err(error) => Err(error),
                        Ok(new_hour) => Ok(
                            CommandView::Change { date, old_hour: id.0, index: id.1, new_hour },
                        ),
                    },
                },
            },
        },
    }
}

/// `show`, `show date` or `show count`. With no argument, today is shown.
pub open spec fn show_of(words: Seq<Seq<char>>, today: int) -> Result<CommandView, CliErrorView> {
    match word(words, 2) {
        None => Ok(CommandView::Show { set: ShowSetView::Date(today) }),
        Some(text) => match set_of(text, today) {
            Err(error) => Err(error),
            Ok(set) => Ok(CommandView::Show { set }),
        },
    }
}

/// `render date` or `render count`
pub open spec fn render_of(words: Seq<Seq<char>>, today: int) -> Result<CommandView, CliErrorView> {
    match word(words, 2) {
        None => Err(CliErrorView::Missing(Verb::Render, Field::Selection)),
        Some(text) => match set_of(text, today) {
            Err(error) => Err(error),
            Ok(set) => Ok(CommandView::Render { set }),
        },
    }
}

/// The command that a command line asks for on the day `today`. The first
/// word is the program's own name; the second names the command; words
/// beyond a command's last argument are passed over.
pub open spec fn command_of(words: Seq<Seq<char>>, today: int) -> Result<
    CommandView,
    CliErrorView,
> {
    match word(words, 1) {
        None => Err(CliErrorView::Usage),
        Some(verb) => if verb == "add"@ {
            add_of(words, today)
        } else if verb == "mark"@ {
            mark_of(words, today)
        } else if verb == "change"@ {
            change_of(words, today)
        } else if verb == "show"@ {
            show_of(words, today)
        } else if verb == "render"@ {
            render_of(words, today)
        } else {
            Err(CliErrorView::Usage)
        },
    }
}

/// Every hour that a command names is an hour of the day.
pub open spec fn hours_of_the_day(command: CommandView) -> bool {
    match command {
        CommandView::Add { date, hour, desc } => hour < 24,
        CommandView::Mark { date, hour, index } => hour < 24,
        CommandView::Change { date, old_hour, index, new_hour } => old_hour < 24 && new_hour < 24,
        CommandView::Show { set } => true,
        CommandView::Render { set } => true,
    }
}

/// A command line that is accepted names only hours from 0 to 23, so that
/// no other hour reaches the ledger from the command line.
pub proof fn lemma_accepted_hours_are_of_the_day(words: Seq<Seq<char>>, today: int)
    ensures
        command_of(words, today) matches Ok(command) ==> hours_of_the_day(command),
{
}

/// The word at place `at`, if the line is that long.
fn arg(args: &Vec<String>, at: usize) -> (found: Option<&str>)
    ensures
        match found {
            Some(text) => word(words_of(args@), at as int) == Some(text@),
            None => word(words_of(args@), at as int) is None,
        },
{
    if at < args.len() {
        Some(args[at].as_str())
    } else {
        None
    }
}

/// Reads an hour of the day.
fn parse_hour(text: &str, form: HourForm) -> (outcome: Result<usize, CliError>)
    ensures
        match outcome {
            Ok(hour) => hour_of(text@, form) matches Ok(h) && h == hour,
            Err(error) => hour_of(text@, form) matches Err(e) && e == error@,
        },
{
    match parse_number(text) {
        None => Err(CliError::BadHour(form)),
        Some(hour) => if hour < 24 {
            Ok(hour)
        } else {
            Err(CliError::HourOutOfRange(hour))
        },
    }
}

/// Reads an id.
fn parse_id(text: &str) -> (outcome: Result<(usize, usize), CliError>)
    ensures
        match outcome {
            Ok(id) => id_of(text@) matches Ok(found) && found == (id.0 as nat, id.1 as nat),
            Err(error) => id_of(text@) matches Err(e) && e == error@,
        },
{
    match find_dot(text) {
        Some(at) => {
            let len = text.unicode_len();
            let hour_text = text.substring_char(0, at);
            let index_text = text.substring_char(at + 1, len);
            assert(hour_text@ =~= text@.take(at as int));
            assert(index_text@ =~= text@.skip(at + 1));
            let hour = match parse_number(hour_text) {
                Some(hour) => hour,
                None => {
                    return Err(CliError::BadHour(HourForm::Dotted));
                },
            };
            let index = match parse_number(index_text) {
                Some(index) => index,
                None => {
                    return Err(CliError::BadIndex);
                },
            };
            if hour < 24 {
                Ok((hour, index))
            } else {
                Err(CliError::HourOutOfRange(hour))
            }
        },
        None => match parse_hour(text, HourForm::Bare) {
            Ok(hour) => Ok((hour, 0)),
            Err(error) => Err(error),
        },
    }
}

/// Reads the hour to move a task to.
fn parse_new_hour(text: &str) -> (outcome: Result<usize, CliError>)
    ensures
        match outcome {
            Ok(hour) => new_hour_of(text@) matches Ok(h) && h == hour,
            Err(error) => new_hour_of(text@) matches Err(e) && e == error@,
        },
{
    match parse_number(text) {
        None => Err(CliError::BadNewHour),
        Some(hour) => if hour < 24 {
            Ok(hour)
        } else {
            Err(CliError::NewHourOutOfRange(hour))
        },
    }
}

/// Reads what to show.
fn parse_set(text: &str, today: Date) -> (outcome: Result<ShowSet, CliError>)
    ensures
        match outcome {
            Ok(set) => set_of(text@, today@) matches Ok(found) && found == set@,
            Err(error) => set_of(text@, today@) matches Err(e) && e == error@,
        },
{
    match parse_number(text) {
        Some(count) => Ok(ShowSet::Days(count)),
        None => match parse_date(text, today) {
            Ok(date) => Ok(ShowSet::Date(date)),
            Err(error) => Err(CliError::BadDate(error)),
        },
    }
}

/// Reads the date argument of `verb`.
fn parse_date_word(args: &Vec<String>, verb: Verb, today: Date) -> (outcome: Result<Date, CliError>)
    ensures
        match outcome {
            Ok(date) => date_word_of(words_of(args@), verb, today@) matches Ok(day) && day == date@,
            Err(error) => date_word_of(words_of(args@), verb, today@) matches Err(e) && e
                == error@,
        },
{
    match arg(args, 2) {
        None => Err(CliError::Missing(verb, Field::Date)),
        Some(text) => match parse_date(text, today) {
            Ok(date) => Ok(date),
            Err(error) => Err(CliError::BadDate(error)),
        },
    }
}

impl Command {
    /// Reads the command that a command line asks for on the day `today`.
    pub fn parse(args: &Vec<String>, today: Date) -> (outcome: Result<Command, CliError>)
        ensures
            match outcome {
                Ok(command) => command_of(words_of(args@), today@) matches Ok(asked) && asked
                    == command@,
                Err(error) => command_of(words_of(args@), today@) matches Err(e) && e == error@,
            },
    {
        let verb = match arg(args, 1) {
            Some(verb) => verb,
            None => {
                return Err(CliError::Usage);
            },
        };
        if same_text(verb, "add") {
            let date = parse_date_word(args, Verb::Add, today)?;
            let hour = match arg(args, 3) {
                Some(text) => parse_hour(text, HourForm::Plain)?,
                None => {
                    return Err(CliError::Missing(Verb::Add, Field::Hour));
                },
            };
            match arg(args, 4) {
                Some(desc) => Ok(Command::Add { date, hour, desc: String::from_str(desc) }),
                None => Err(CliError::Missing(Verb::Add, Field::Desc)),
            }
        } else if same_text(verb, "mark") {
            let date = parse_date_word(args, Verb::Mark, today)?;
            match arg(args, 3) {
                Some(text) => {
                    let id = parse_id(text)?;
                    Ok(Command::Mark { date, hour: id.0, index: id.1 })
                },
                None => Err(CliError::Missing(Verb::Mark, Field::Id)),
            }
        } else if same_text(verb, "change") {
            let date = parse_date_word(args, Verb::Change, today)?;
            let id = match arg(args, 3) {
                Some(text) => parse_id(text)?,
                None => {
                    return Err(CliError::Missing(Verb::Change, Field::Id));
                },
            };
            match arg(args, 4) {
                Some(text) => {
                    let new_hour = parse_new_hour(text)?;
                    Ok(Command::Change { date, old_hour: id.0, index: id.1, new_hour })
                },
                None => Err(CliError::Missing(Verb::Change, Field::NewHour)),
            }
        } else if same_text(verb, "show") {
            match arg(args, 2) {
                Some(text) => {
                    let set = parse_set(text, today)?;
                    Ok(Command::Show { set })
                },
                None => Ok(Command::Show { set: ShowSet::Date(today) }),
            }
        } else if same_text(verb, "render") {
            match arg(args, 2) {
                Some(text) => {
                    let set = parse_set(text, today)?;
                    Ok(Command::Render { set })
                },
                None => Err(CliError::Missing(Verb::Render, Field::Selection)),
            }
        } else {
            Err(CliError::Usage)
        }
    }
}

} // verus!
