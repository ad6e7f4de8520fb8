//! The text view: a day's schedule as lines of text, plain or with ANSI
//! colours that follow completion and lateness.

use crate::classify::{
    all_done, classify, is_past_due, slot_all_done, treatment, treatment_of, Treatment,
};
use crate::date::{date_label, is_date, Date, Moment, MomentView};
use crate::keeper::Keeper;
use crate::ledger::Ledger;
use crate::measure::{
    breaks, ends_line, lemma_breaks_of_both, lemma_lines_are_breaks, lemma_no_breaks, lines_of,
};
use crate::ordered::ascending_keys;
use crate::selection::{days_shown, lemma_days_shown_stops, selection_days, ShowSet, ShowSetView};
use crate::slots::Slots;
use crate::task::{tasks_view, Task, TaskView};
use vstd::prelude::*;
use vstd::string::*;

verus! {

/// Ends any colouring.
pub const RESET: &'static str = "\x1b[0m";

/// The "overdue" colour.
pub const RED: &'static str = "\x1b[0;31m";

/// The "done" colour.
pub const GREEN: &'static str = "\x1b[0;32m";

/// The "pending" colour of an hour tag.
pub const BLUE: &'static str = "\x1b[0;34m";

/// Whether the text carries colour codes.
#[derive(Clone, Copy, Debug, PartialEq, Eq, Structural)]
pub enum ColorStyle {
    /// With ANSI colour codes.
    Color,
    /// Plain text.
    NoColor,
}

/// The decimal digit for `d`, which is from 0 to 9.
pub open spec fn digit(d: int) -> char {
    (48 + d) as char
}

/// A number written in decimal, without sign or leading zeros.
pub open spec fn decimal(n: nat) -> Seq<char>
    decreases n,
{
    if n < 10 {
        seq![digit(n as int)]
    } else {
        decimal(n / 10).push(digit((n % 10) as int))
    }
}

/// A colour code as it appears in the text: itself, or nothing where colours
/// are off.
pub open spec fn code(style: ColorStyle, ansi: Seq<char>) -> Seq<char> {
    match style {
        ColorStyle::Color => ansi,
        ColorStyle::NoColor => Seq::empty(),
    }
}

/// The colour of an hour tag under a treatment.
pub open spec fn bracket_code(style: ColorStyle, t: Treatment) -> Seq<char> {
    match t {
        Treatment::Done => code(style, GREEN@),
        Treatment::Overdue => code(style, RED@),
        Treatment::Pending => code(style, BLUE@),
    }
}

/// The colour of a task's parentheses under a treatment.
pub open spec fn paren_code(style: ColorStyle, t: Treatment) -> Seq<char> {
    match t {
        Treatment::Done => code(style, GREEN@),
        Treatment::Overdue => code(style, RED@),
        Treatment::Pending => code(style, RESET@),
    }
}

/// One task: a space, then the description in parentheses.
pub open spec fn task_text(task: TaskView, past_due: bool, style: ColorStyle) -> Seq<char> {
    let color = paren_code(style, treatment_of(task.completed, past_due));
    let reset = code(style, RESET@);
    " "@ + color + "("@ + reset + task.desc + color + ")"@ + reset
}

/// The tasks of a slot, one after the other.
pub open spec fn tasks_text(tasks: Seq<TaskView>, past_due: bool, style: ColorStyle) -> Seq<char>
    decreases tasks.len(),
{
    if tasks.len() == 0 {
        Seq::empty()
    } else {
        tasks_text(tasks.drop_last(), past_due, style) + task_text(tasks.last(), past_due, style)
    }
}

/// The line of one slot: the hour in brackets, its tasks, a line end.
pub open spec fn slot_text(
    hour: usize,
    tasks: Seq<TaskView>,
    past_due: bool,
    style: ColorStyle,
) -> Seq<char> {
    bracket_code(style, treatment_of(all_done(tasks), past_due)) + "["@ + decimal(hour as nat)
        + "]"@ + code(style, RESET@) + tasks_text(tasks, past_due, style) + "\n"@
}

/// The lines of the slots at `hours`, in that order.
pub open spec fn slots_text(
    slots: Slots,
    hours: Seq<usize>,
    day: int,
    now: MomentView,
    style: ColorStyle,
) -> Seq<char>
    decreases hours.len(),
{
    if hours.len() == 0 {
        Seq::empty()
    } else {
        let hour = hours.last();
        slots_text(slots, hours.drop_last(), day, now, style) + slot_text(
            hour,
            slots[hour],
            is_past_due(day, hour as int, now),
            style,
        )
    }
}

/// One day: the date on a line of its own, then either the placeholder line
/// or one line for each slot, by ascending hour.
pub open spec fn day_text(
    ledger: Ledger,
    day: int,
    now: MomentView,
    style: ColorStyle,
) -> Seq<char> {
    date_label(day) + "\n"@ + if ledger.contains_key(day) {
        slots_text(ledger[day], ascending_keys(ledger[day].dom()), day, now, style)
    } else {
        "Empty\n"@
    }
}

/// Several days: one blank line between two days, none before the first or
/// after the last.
pub open spec fn days_text(
    ledger: Ledger,
    days: Seq<int>,
    now: MomentView,
    style: ColorStyle,
) -> Seq<char>
    decreases days.len(),
{
    if days.len() == 0 {
        Seq::empty()
    } else if days.len() == 1 {
        day_text(ledger, days[0], now, style)
    } else {
        days_text(ledger, days.drop_last(), now, style) + "\n"@ + day_text(
            ledger,
            days.last(),
            now,
            style,
        )
    }
}

/// The text of a selection, as read at `now`.
pub open spec fn selection_text(
    ledger: Ledger,
    selection: ShowSetView,
    now: MomentView,
    style: ColorStyle,
) -> Seq<char> {
    days_text(ledger, selection_days(selection, now.day), now, style)
}

/// The text of a day is whole lines.
pub proof fn lemma_day_ends_line(ledger: Ledger, day: int, now: MomentView, style: ColorStyle)
    ensures
        ends_line(day_text(ledger, day, now, style)),
        day_text(ledger, day, now, style).len() > 0,
{
    reveal_strlit("\n");
    reveal_strlit("Empty\n");
    if ledger.contains_key(day) {
        let hours = ascending_keys(ledger[day].dom());
        if hours.len() > 0 {
            let hour = hours.last();
            let line = slot_text(
                hour,
                ledger[day][hour],
                is_past_due(day, hour as int, now),
                style,
            );
            assert(line.last() == '\n');
        }
    }
}

/// The text of several days is whole lines.
pub proof fn lemma_days_end_line(ledger: Ledger, days: Seq<int>, now: MomentView, style: ColorStyle)
    ensures
        ends_line(days_text(ledger, days, now, style)),
{
    if days.len() > 0 {
        lemma_day_ends_line(ledger, days.last(), now, style);
    }
}

/// A colour code holds no line feed, whether it is shown or not.
proof fn lemma_codes_hold_no_break(style: ColorStyle, t: Treatment)
    ensures
        breaks(bracket_code(style, t)) == 0,
        breaks(paren_code(style, t)) == 0,
        breaks(code(style, RESET@)) == 0,
{
    reveal_strlit("\x1b[0m");
    reveal_strlit("\x1b[0;31m");
    reveal_strlit("\x1b[0;32m");
    reveal_strlit("\x1b[0;34m");
    lemma_no_breaks(RESET@);
    lemma_no_breaks(RED@);
    lemma_no_breaks(GREEN@);
    lemma_no_breaks(BLUE@);
    lemma_no_breaks(Seq::<char>::empty());
}

/// The line feeds of a task's text are those of its description.
proof fn lemma_task_breaks(task: TaskView, past_due: bool, style: ColorStyle)
    ensures
        breaks(task_text(task, past_due, style)) == breaks(task.desc),
{
    let t = treatment_of(task.completed, past_due);
    let color = paren_code(style, t);
    let reset = code(style, RESET@);
    lemma_codes_hold_no_break(style, t);
    reveal_strlit(" ");
    reveal_strlit("(");
    reveal_strlit(")");
    lemma_no_breaks(" "@);
    lemma_no_breaks("("@);
    lemma_no_breaks(")"@);
    let a = " "@ + color;
    let b = a + "("@;
    let c = b + reset;
    let d = c + task.desc;
    let e = d + color;
    let f = e + ")"@;
    lemma_breaks_of_both(" "@, color);
    lemma_breaks_of_both(a, "("@);
    lemma_breaks_of_both(b, reset);
    lemma_breaks_of_both(c, task.desc);
    lemma_breaks_of_both(d, color);
    lemma_breaks_of_both(e, ")"@);
    lemma_breaks_of_both(f, reset);
}

/// Colour adds no line feed to the tasks of a slot.
proof fn lemma_tasks_breaks(tasks: Seq<TaskView>, past_due: bool, style: ColorStyle)
    ensures
        breaks(tasks_text(tasks, past_due, style)) == breaks(
            tasks_text(tasks, past_due, ColorStyle::NoColor),
        ),
    decreases tasks.len(),
{
    if tasks.len() > 0 {
        let plain = ColorStyle::NoColor;
        lemma_tasks_breaks(tasks.drop_last(), past_due, style);
        lemma_task_breaks(tasks.last(), past_due, style);
        lemma_task_breaks(tasks.last(), past_due, plain);
        lemma_breaks_of_both(
            tasks_text(tasks.drop_last(), past_due, style),
            task_text(tasks.last(), past_due, style),
        );
        lemma_breaks_of_both(
            tasks_text(tasks.drop_last(), past_due, plain),
            task_text(tasks.last(), past_due, plain),
        );
    }
}

/// The line feeds of a slot's line are those of its hour tag and tasks, and
/// the one that ends it.
proof fn lemma_slot_breaks(hour: usize, tasks: Seq<TaskView>, past_due: bool, style: ColorStyle)
    ensures
        breaks(slot_text(hour, tasks, past_due, style)) == breaks("["@) + breaks(
            decimal(hour as nat),
        ) + breaks("]"@) + breaks(tasks_text(tasks, past_due, style)) + breaks("\n"@),
{
    let t = treatment_of(all_done(tasks), past_due);
    let color = bracket_code(style, t);
    let reset = code(style, RESET@);
    lemma_codes_hold_no_break(style, t);
    let a = color + "["@;
    let b = a + decimal(hour as nat);
    let c = b + "]"@;
    let d = c + reset;
    let e = d + tasks_text(tasks, past_due, style);
    lemma_breaks_of_both(color, "["@);
    lemma_breaks_of_both(a, decimal(hour as nat));
    lemma_breaks_of_both(b, "]"@);
    lemma_breaks_of_both(c, reset);
    lemma_breaks_of_both(d, tasks_text(tasks, past_due, style));
    lemma_breaks_of_both(e, "\n"@);
}

/// Colour adds no line feed to the lines of some slots.
proof fn lemma_slots_breaks(
    slots: Slots,
    hours: Seq<usize>,
    day: int,
    now: MomentView,
    style: ColorStyle,
)
    ensures
        breaks(slots_text(slots, hours, day, now, style)) == breaks(
            slots_text(slots, hours, day, now, ColorStyle::NoColor),
        ),
    decreases hours.len(),
{
    if hours.len() > 0 {
        let plain = ColorStyle::NoColor;
        let hour = hours.last();
        let past_due = is_past_due(day, hour as int, now);
        lemma_slots_breaks(slots, hours.drop_last(), day, now, style);
        lemma_slot_breaks(hour, slots[hour], past_due, style);
        lemma_slot_breaks(hour, slots[hour], past_due, plain);
        lemma_tasks_breaks(slots[hour], past_due, style);
        lemma_breaks_of_both(
            slots_text(slots, hours.drop_last(), day, now, style),
            slot_text(hour, slots[hour], past_due, style),
        );
        lemma_breaks_of_both(
            slots_text(slots, hours.drop_last(), day, now, plain),
            slot_text(hour, slots[hour], past_due, plain),
        );
    }
}

/// Colour adds no line feed to the text of a day.
proof fn lemma_day_breaks(ledger: Ledger, day: int, now: MomentView, style: ColorStyle)
    ensures
        breaks(day_text(ledger, day, now, style)) == breaks(
            day_text(ledger, day, now, ColorStyle::NoColor),
        ),
{
    let plain = ColorStyle::NoColor;
    let head = date_label(day) + "\n"@;
    if ledger.contains_key(day) {
        let hours = ascending_keys(ledger[day].dom());
        lemma_slots_breaks(ledger[day], hours, day, now, style);
        lemma_breaks_of_both(head, slots_text(ledger[day], hours, day, now, style));
        lemma_breaks_of_both(head, slots_text(ledger[day], hours, day, now, plain));
    }
}

/// Colour adds no line feed to the text of several days.
proof fn lemma_days_breaks(ledger: Ledger, days: Seq<int>, now: MomentView, style: ColorStyle)
    ensures
        breaks(days_text(ledger, days, now, style)) == breaks(
            days_text(ledger, days, now, ColorStyle::NoColor),
        ),
    decreases days.len(),
{
    let plain = ColorStyle::NoColor;
    if days.len() > 0 {
        lemma_day_breaks(ledger, days.last(), now, style);
    }
    if days.len() > 1 {
        lemma_days_breaks(ledger, days.drop_last(), now, style);
        let before = days_text(ledger, days.drop_last(), now, style);
        let plain_before = days_text(ledger, days.drop_last(), now, plain);
        lemma_breaks_of_both(before, "\n"@);
        lemma_breaks_of_both(plain_before, "\n"@);
        lemma_breaks_of_both(before + "\n"@, day_text(ledger, days.last(), now, style));
        lemma_breaks_of_both(plain_before + "\n"@, day_text(ledger, days.last(), now, plain));
    }
}

/// Colour changes no line: the coloured text of a selection has as many
/// lines as its plain text.
pub proof fn lemma_style_keeps_lines(
    ledger: Ledger,
    selection: ShowSetView,
    now: MomentView,
    style: ColorStyle,
)
    ensures
        lines_of(selection_text(ledger, selection, now, style)).len() == lines_of(
            selection_text(ledger, selection, now, ColorStyle::NoColor),
        ).len(),
{
    let days = selection_days(selection, now.day);
    lemma_days_breaks(ledger, days, now, style);
    lemma_days_end_line(ledger, days, now, style);
    lemma_days_end_line(ledger, days, now, ColorStyle::NoColor);
    lemma_lines_are_breaks(days_text(ledger, days, now, style));
    lemma_lines_are_breaks(days_text(ledger, days, now, ColorStyle::NoColor));
}

/// Any day shows as some text, so that only a selection of no days has the
/// empty text.
pub proof fn lemma_days_have_text(
    ledger: Ledger,
    days: Seq<int>,
    now: MomentView,
    style: ColorStyle,
)
    ensures
        days_text(ledger, days, now, style).len() == 0 <==> days.len() == 0,
{
    reveal_strlit("\n");
    if days.len() > 0 {
        let last = day_text(ledger, days.last(), now, style);
        assert(last.len() > 0);
    }
}

/// Showing no days gives the empty text.
pub proof fn lemma_no_days_no_text(
    ledger: Ledger,
    now: MomentView,
    style: ColorStyle,
)
    ensures
        selection_text(ledger, ShowSetView::Days(0), now, style) == Seq::<char>::empty(),
{
}

/// Showing one day from today on is the same as showing today's date.
pub proof fn lemma_one_day_is_today(
    ledger: Ledger,
    now: MomentView,
    style: ColorStyle,
)
    requires
        is_date(now.day),
    ensures
        selection_text(ledger, ShowSetView::Days(1), now, style) == selection_text(
            ledger,
            ShowSetView::Date(now.day),
            now,
            style,
        ),
{
    assert(days_shown(now.day, 0) =~= Seq::<int>::empty());
    assert(days_shown(now.day, 1) =~= seq![now.day]);
}

/// The text of one decimal digit.
fn digit_text(d: usize) -> (text: &'static str)
    requires
        d < 10,
    ensures
        text@ == seq![digit(d as int)],
{
    proof {
        reveal_strlit("0");
        reveal_strlit("1");
        reveal_strlit("2");
        reveal_strlit("3");
        reveal_strlit("4");
        reveal_strlit("5");
        reveal_strlit("6");
        reveal_strlit("7");
        reveal_strlit("8");
        reveal_strlit("9");
    }
    let text = match d {
        0 => "0",
        1 => "1",
        2 => "2",
        3 => "3",
        4 => "4",
        5 => "5",
        6 => "6",
        7 => "7",
        8 => "8",
        _ => "9",
    };
    assert(text@ =~= seq![digit(d as int)]);
    text
}

/// Appends `n` in decimal.
pub fn push_decimal(out: &mut String, n: usize)
    ensures
        final(out)@ == old(out)@ + decimal(n as nat),
    decreases n,
{
    if n >= 10 {
        push_decimal(out, n / 10);
    }
    out.append(digit_text(n % 10));
    assert(out@ =~= old(out)@ + decimal(n as nat));
}

/// A colour code, or the empty text where colours are off.
fn paint<'a>(style: ColorStyle, ansi: &'a str) -> (shown: &'a str)
    ensures
        shown@ == code(style, ansi@),
{
    match style {
        ColorStyle::Color => ansi,
        ColorStyle::NoColor => {
            proof {
                reveal_strlit("");
            }
            assert(""@ =~= Seq::<char>::empty());
            ""
        },
    }
}

/// The colour code of an hour tag.
fn bracket_color(style: ColorStyle, t: Treatment) -> (shown: &'static str)
    ensures
        shown@ == bracket_code(style, t),
{
    match t {
        Treatment::Done => paint(style, GREEN),
        Treatment::Overdue => paint(style, RED),
        Treatment::Pending => paint(style, BLUE),
    }
}

/// The colour code of a task's parentheses.
fn paren_color(style: ColorStyle, t: Treatment) -> (shown: &'static str)
    ensures
        shown@ == paren_code(style, t),
{
    match t {
        Treatment::Done => paint(style, GREEN),
        Treatment::Overdue => paint(style, RED),
        Treatment::Pending => paint(style, RESET),
    }
}

/// Appends one task.
fn fmt_task(out: &mut String, task: &Task, past_due: bool, style: ColorStyle)
    ensures
        final(out)@ == old(out)@ + task_text(task@, past_due, style),
{
    let color = paren_color(style, treatment(task.is_completed(), past_due));
    let reset = paint(style, RESET);
    out.append(" ");
    out.append(color);
    out.append("(");
    out.append(reset);
    out.append(task.description());
    out.append(color);
    out.append(")");
    out.append(reset);
    assert(out@ =~= old(out)@ + task_text(task@, past_due, style));
}

/// Appends the line of one slot.
fn fmt_slot(out: &mut String, hour: usize, tasks: &Vec<Task>, past_due: bool, style: ColorStyle)
    ensures
        final(out)@ == old(out)@ + slot_text(hour, tasks_view(tasks@), past_due, style),
{
    let done = slot_all_done(tasks);
    out.append(bracket_color(style, treatment(done, past_due)));
    out.append("[");
    push_decimal(out, hour);
    out.append("]");
    out.append(paint(style, RESET));
    let ghost head = out@;
    let ghost all = tasks_view(tasks@);
    let mut i: usize = 0;
    assert(out@ =~= head + tasks_text(all.take(0), past_due, style));
    while i < tasks.len()
        invariant
            i <= tasks.len(),
            all == tasks_view(tasks@),
            out@ == head + tasks_text(all.take(i as int), past_due, style),
        decreases tasks.len() - i,
    {
        fmt_task(out, &tasks[i], past_due, style);
        proof {
            let next = all.take(i + 1);
            assert(next.drop_last() =~= all.take(i as int));
            assert(next.last() == tasks[i as int]@);
            assert(out@ =~= head + tasks_text(next, past_due, style));
        }
        i += 1;
    }
    assert(all.take(tasks.len() as int) =~= all);
    out.append("\n");
    assert(out@ =~= old(out)@ + slot_text(hour, all, past_due, style));
}

/// A view of a ledger: which days to show, whether in colour, and the clock
/// reading that decides what is late.
pub struct KeeperDisplay<'a> {
    pub keeper: &'a Keeper,
    pub selection: ShowSet,
    pub color: ColorStyle,
    pub now: Moment,
}

impl<'a> KeeperDisplay<'a> {
    /// A view of `keeper` as read at `now`.
    pub fn new(keeper: &'a Keeper, selection: ShowSet, color: ColorStyle, now: Moment) -> (display:
        Self)
        ensures
            display.keeper == keeper,
            display.selection == selection,
            display.color == color,
            display.now == now,
    {
        Self { keeper, selection, color, now }
    }

    /// Appends the lines of one day.
    pub fn fmt_day(&self, out: &mut String, date: Date)
        ensures
            final(out)@ == old(out)@ + day_text(self.keeper@, date@, self.now@, self.color),
    {
        let label = date.label();
        out.append(label.as_str());
        out.append("\n");
        match self.keeper.schedule(date) {
            None => {
                out.append("Empty\n");
                assert(out@ =~= old(out)@ + day_text(
                    self.keeper@,
                    date@,
                    self.now@,
                    self.color,
                ));
            },
            Some(schedule) => {
                let hours = schedule.hours();
                let ghost head = out@;
                let ghost slots = schedule@;
                let mut i: usize = 0;
                assert(out@ =~= head + slots_text(
                    slots,
                    hours@.take(0),
                    date@,
                    self.now@,
                    self.color,
                ));
                while i < hours.len()
                    invariant
                        i <= hours.len(),
                        slots == schedule@,
                        forall|k: usize| slots.dom().contains(k) <==> hours@.contains(k),
                        out@ == head + slots_text(
                            slots,
                            hours@.take(i as int),
                            date@,
                            self.now@,
                            self.color,
                        ),
                    decreases hours.len() - i,
                {
                    let hour = hours[i];
                    assert(hours@.contains(hour));
                    let class = classify(date, hour, &self.now);
                    match schedule.tasks(hour) {
                        Some(tasks) => {
                            fmt_slot(out, hour, tasks, class.past_due, self.color);
                        },
                        None => {},
                    }
                    proof {
                        let next = hours@.take(i + 1);
                        assert(next.drop_last() =~= hours@.take(i as int));
                        assert(next.last() == hour);
                        assert(out@ =~= head + slots_text(
                            slots,
                            next,
                            date@,
                            self.now@,
                            self.color,
                        ));
                    }
                    i += 1;
                }
                assert(hours@.take(hours.len() as int) =~= hours@);
                assert(out@ =~= old(out)@ + day_text(
                    self.keeper@,
                    date@,
                    self.now@,
                    self.color,
                ));
            },
        }
    }

    /// The text of the whole selection.
    pub fn to_text(&self) -> (text: String)
        ensures
            text@ == selection_text(self.keeper@, self.selection@, self.now@, self.color),
    {
        let mut out = String::new();
        match self.selection {
            ShowSet::Date(date) => {
                self.fmt_day(&mut out, date);
                assert(out@ =~= days_text(self.keeper@, seq![date@], self.now@, self.color));
            },
            ShowSet::Days(count) => {
                let today = self.now.date();
                let mut next: Option<Date> = Some(today);
                let mut i: usize = 0;
                while i < count && next.is_some()
                    invariant
                        i <= count,
                        today@ == self.now@.day,
                        days_shown(today@, i as nat).len() == i,
                        match next {
                            Some(date) => date@ == today@ + i && is_date(date@),
                            None => !is_date(today@ + i),
                        },
                        out@ == days_text(
                            self.keeper@,
                            days_shown(today@, i as nat),
                            self.now@,
                            self.color,
                        ),
                    decreases count - i,
                {
                    let date = next.unwrap();
                    if i > 0 {
                        out.append("\n");
                    }
                    self.fmt_day(&mut out, date);
                    proof {
                        let shown = days_shown(today@, (i + 1) as nat);
                        assert(shown == days_shown(today@, i as nat).push(date@));
                        assert(shown.drop_last() =~= days_shown(today@, i as nat));
                        assert(out@ =~= days_text(self.keeper@, shown, self.now@, self.color));
                    }
                    next = date.succ();
                    i += 1;
                }
                proof {
                    if i < count {
                        lemma_days_shown_stops(today@, i as nat, count as nat);
                    }
                }
            },
        }
        out
    }
}

impl Keeper {
    /// The coloured text of a selection, as read at `now`.
    pub fn show(&self, set: ShowSet, now: Moment) -> (text: String)
        ensures
            text@ == selection_text(self@, set@, now@, ColorStyle::Color),
    {
        KeeperDisplay::new(self, set, ColorStyle::Color, now).to_text()
    }
}

} // verus!
