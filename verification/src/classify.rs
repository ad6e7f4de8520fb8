//! The temporal classifier: whether an hour-slot has run out, and how a task
//! or a slot is to be shown given that and its completion.

use crate::date::{Date, Moment, MomentView};
use crate::task::{tasks_view, Task, TaskView};
use vstd::prelude::*;

verus! {

/// Strictly earlier, reading a moment as day, then second, then nanosecond.
pub open spec fn earlier(a: MomentView, b: MomentView) -> bool {
    ||| a.day < b.day
    ||| a.day == b.day && a.second < b.second
    ||| a.day == b.day && a.second == b.second && a.nano < b.nano
}

/// The instant that closes the slot of `hour` on `day`: `hour`:59:59 sharp.
pub open spec fn slot_end(day: int, hour: int) -> MomentView {
    MomentView { day, second: hour * 3600 + 59 * 60 + 59, nano: 0 }
}

/// A slot is past due once its closing instant lies strictly before `now`.
pub open spec fn is_past_due(day: int, hour: int, now: MomentView) -> bool {
    earlier(slot_end(day, hour), now)
}

/// Read off a clock, a slot is past due exactly when the day has passed, or
/// on the day itself when the clock shows a later hour, or shows the slot's
/// own hour at 59 minutes, 59 seconds and some fraction of a second more.
/// So `hour`:59:59 sharp is not yet past due, and the instant after it is.
pub proof fn lemma_past_due_by_the_clock(day: int, hour: int, now: MomentView)
    requires
        0 <= hour <= 23,
        0 <= now.second < 86400,
        0 <= now.nano,
    ensures
        is_past_due(day, hour, now) <==> {
            let clock_hour = now.second / 3600;
            let clock_minute = (now.second % 3600) / 60;
            let clock_second = now.second % 60;
            ||| now.day > day
            ||| now.day == day && clock_hour > hour
            ||| now.day == day && clock_hour == hour && clock_minute == 59 && clock_second == 59
                && now.nano > 0
        },
{
}

/// Every task of the slot is completed. An empty slot is all done.
pub open spec fn all_done(tasks: Seq<TaskView>) -> bool {
    forall|i: int| 0 <= i < tasks.len() ==> (#[trigger] tasks[i]).completed
}

/// What the clock says about one hour-slot.
#[derive(Clone, Copy, Debug, PartialEq, Eq, Structural)]
pub struct Classification {
    pub past_due: bool,
}

/// The visual treatment of a task or of a slot's hour tag.
#[derive(Clone, Copy, Debug, PartialEq, Eq, Structural)]
pub enum Treatment {
    /// Completed, whether or not the hour has passed.
    Done,
    /// Not completed and the hour has passed.
    Overdue,
    /// Not completed and there is still time.
    Pending,
}

/// The treatment for each of the four combinations of completion and lateness.
pub open spec fn treatment_of(completed: bool, past_due: bool) -> Treatment {
    if completed {
        Treatment::Done
    } else if past_due {
        Treatment::Overdue
    } else {
        Treatment::Pending
    }
}

/// Decides whether the slot of `hour` on `date` is past due at `now`.
pub fn classify(date: Date, hour: usize, now: &Moment) -> (class: Classification)
    ensures
        class.past_due == is_past_due(date@, hour as int, now@),
{
    let day: i32 = date.days();
    let today: i32 = now.date().days();
    let second: u64 = now.second() as u64;
    let past_due = if today != day {
        day < today
    } else if hour > 1_193_046 {
        // the slot closes later than any second a clock reading can hold
        false
    } else {
        let end: u64 = (hour as u64) * 3600 + 3599;
        end < second || (end == second && now.nano() > 0)
    };
    Classification { past_due }
}

/// Picks the treatment for a completion flag and a lateness flag.
pub fn treatment(completed: bool, past_due: bool) -> (t: Treatment)
    ensures
        t == treatment_of(completed, past_due),
{
    if completed {
        Treatment::Done
    } else if past_due {
        Treatment::Overdue
    } else {
        Treatment::Pending
    }
}

/// Whether every task in the slot is completed.
pub fn slot_all_done(tasks: &Vec<Task>) -> (done: bool)
    ensures
        done == all_done(tasks_view(tasks@)),
{
    let mut i: usize = 0;
    while i < tasks.len()
        invariant
            i <= tasks.len(),
            forall|j: int| 0 <= j < i ==> (#[trigger] tasks_view(tasks@)[j]).completed,
        decreases tasks.len() - i,
    {
        if !tasks[i].is_completed() {
            assert(!tasks_view(tasks@)[i as int].completed);
            return false;
        }
        i += 1;
    }
    true
}

} // verus!
