//! A personal scheduling ledger: tasks keyed by calendar date and hour of day.
//!
//! The ledger ([`keeper::Keeper`]) holds a schedule for each date and, within
//! a schedule, an ordered list of tasks for each hour. It can be shown in two
//! ways, and both go by one temporal classification ([`classify`]): a slot
//! is past due once its hour has run out, and a task is shown as done,
//! overdue or pending.
//!
//! - The text view ([`text`]) writes a selection of days as lines of text,
//!   plain or with ANSI colours.
//! - The raster view ([`raster`]) lays the same selection out on a canvas:
//!   it measures the plain text ([`measure`]), picks the one font scale at
//!   which the text fits ([`canvas`]), and lists the coloured runs to draw
//!   ([`draw`]). Rasterising the glyphs is the caller's part.
//!
//! What each operation does is stated over mathematical models: a task is a
//! pair of a flag and a text ([`task::TaskView`]), a day is a map from hours
//! to sequences of tasks ([`slots`]), and the ledger is a map from day
//! numbers to days ([`ledger`]). Dates are day numbers ([`date`]); how a date
//! is written and read is left to `chrono`.
//!
//! The command line is read by [`cli`].

pub mod canvas;
pub mod classify;
pub mod cli;
pub mod data;
pub mod date;
pub mod draw;
pub mod keeper;
pub mod ledger;
pub mod measure;
pub mod number;
pub mod ordered;
pub mod palette;
pub mod raster;
pub mod schedule;
pub mod selection;
pub mod slots;
pub mod task;
pub mod text;
pub mod usage;
