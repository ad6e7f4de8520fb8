//! The drawing of a selection as a list of steps: coloured runs of text and
//! line breaks, in the order in which they are drawn.

use crate::classify::{all_done, is_past_due, treatment_of};
use crate::date::{date_label, MomentView};
use crate::ledger::Ledger;
use crate::measure::{
    ends_line, extent_of, lemma_lines_after_lines, lemma_longest_of_both, lines_of, longest_of,
    pieces,
};
use crate::ordered::ascending_keys;
use crate::palette::{Palette, Rgb};
use crate::selection::{selection_days, ShowSetView};
use crate::slots::Slots;
use crate::task::TaskView;
use crate::text::{
    day_text, days_text, decimal, lemma_day_ends_line, lemma_days_end_line, selection_text,
    slot_text, slots_text, task_text, tasks_text, ColorStyle,
};
use vstd::prelude::*;

verus! {

/// One step of drawing.
#[derive(Debug)]
pub enum DrawOp {
    /// Draw `text` at the cursor, all on one line, and move the cursor right
    /// by the width that the text took.
    Text { color: Rgb, text: String },
    /// Move the cursor to the start of the next line.
    LineBreak,
}

/// The mathematical content of a [`DrawOp`].
pub enum DrawOpView {
    Text { color: Rgb, text: Seq<char> },
    LineBreak,
}

impl View for DrawOp {
    type V = DrawOpView;

    open spec fn view(&self) -> DrawOpView {
        match *self {
            DrawOp::Text { color, text } => DrawOpView::Text { color, text: text@ },
            DrawOp::LineBreak => DrawOpView::LineBreak,
        }
    }
}

/// The contents of a list of drawing steps, in order.
pub open spec fn ops_view(ops: Seq<DrawOp>) -> Seq<DrawOpView> {
    ops.map_values(|op: DrawOp| op@)
}

/// One task: an opening parenthesis after a space, the description, a
/// closing parenthesis.
pub open spec fn task_ops(task: TaskView, past_due: bool, palette: Palette) -> Seq<DrawOpView> {
    let ink = palette.paren_ink(treatment_of(task.completed, past_due));
    seq![
        DrawOpView::Text { color: ink, text: " ("@ },
        DrawOpView::Text { color: palette.text, text: task.desc },
        DrawOpView::Text { color: ink, text: ")"@ },
    ]
}

/// The tasks of a slot, one after the other.
pub open spec fn tasks_ops(tasks: Seq<TaskView>, past_due: bool, palette: Palette) -> Seq<
    DrawOpView,
>
    decreases tasks.len(),
{
    if tasks.len() == 0 {
        Seq::empty()
    } else {
        tasks_ops(tasks.drop_last(), past_due, palette) + task_ops(
            tasks.last(),
            past_due,
            palette,
        )
    }
}

/// The line of one slot: the hour tag, the tasks, a line break.
pub open spec fn slot_ops(
    hour: usize,
    tasks: Seq<TaskView>,
    past_due: bool,
    palette: Palette,
) -> Seq<DrawOpView> {
    seq![
        DrawOpView::Text {
            color: palette.bracket_ink(treatment_of(all_done(tasks), past_due)),
            text: "["@ + decimal(hour as nat) + "]"@,
        },
    ] + tasks_ops(tasks, past_due, palette) + seq![DrawOpView::LineBreak]
}

/// The lines of the slots at `hours`, in that order.
pub open spec fn slots_ops(
    slots: Slots,
    hours: Seq<usize>,
    day: int,
    now: MomentView,
    palette: Palette,
) -> Seq<DrawOpView>
    decreases hours.len(),
{
    if hours.len() == 0 {
        Seq::empty()
    } else {
        let hour = hours.last();
        slots_ops(slots, hours.drop_last(), day, now, palette) + slot_ops(
            hour,
            slots[hour],
            is_past_due(day, hour as int, now),
            palette,
        )
    }
}

/// One day, line for line as in the text view: the date on a line of its
/// own, then either the placeholder line or one line for each slot, by
/// ascending hour. Every line ends with a line break.
pub open spec fn day_ops(
    ledger: Ledger,
    day: int,
    now: MomentView,
    palette: Palette,
) -> Seq<DrawOpView> {
    seq![
        DrawOpView::Text { color: palette.text, text: date_label(day) },
        DrawOpView::LineBreak,
    ] + if ledger.contains_key(day) {
        slots_ops(ledger[day], ascending_keys(ledger[day].dom()), day, now, palette)
    } else {
        seq![DrawOpView::Text { color: palette.text, text: "Empty"@ }, DrawOpView::LineBreak]
    }
}

/// Several days, one directly after the other.
pub open spec fn days_ops(
    ledger: Ledger,
    days: Seq<int>,
    now: MomentView,
    palette: Palette,
) -> Seq<DrawOpView>
    decreases days.len(),
{
    if days.len() == 0 {
        Seq::empty()
    } else {
        days_ops(ledger, days.drop_last(), now, palette) + day_ops(
            ledger,
            days.last(),
            now,
            palette,
        )
    }
}

/// The drawing steps of a selection, as read at `now`.
pub open spec fn selection_ops(
    ledger: Ledger,
    selection: ShowSetView,
    now: MomentView,
    palette: Palette,
) -> Seq<DrawOpView> {
    days_ops(ledger, selection_days(selection, now.day), now, palette)
}

/// What a list of drawing steps spells: the texts in order, with a line
/// feed for each line break.
pub open spec fn spelled(ops: Seq<DrawOpView>) -> Seq<char>
    decreases ops.len(),
{
    if ops.len() == 0 {
        Seq::empty()
    } else {
        spelled(ops.drop_last()) + match ops.last() {
            DrawOpView::Text { color, text } => text,
            DrawOpView::LineBreak => "\n"@,
        }
    }
}

/// Steps in a row spell their texts in a row.
pub proof fn lemma_spelled_concat(a: Seq<DrawOpView>, b: Seq<DrawOpView>)
    ensures
        spelled(a + b) == spelled(a) + spelled(b),
    decreases b.len(),
{
    if b.len() == 0 {
        assert(a + b =~= a);
        assert(spelled(a) + spelled(b) =~= spelled(a));
    } else {
        lemma_spelled_concat(a, b.drop_last());
        assert((a + b).drop_last() =~= a + b.drop_last());
        assert((a + b).last() == b.last());
        let tail = match b.last() {
            DrawOpView::Text { color, text } => text,
            DrawOpView::LineBreak => "\n"@,
        };
        assert(spelled(a + b) =~= spelled(a) + (spelled(b.drop_last()) + tail));
    }
}

/// The steps of a slot's tasks spell what the plain text says of them.
proof fn lemma_tasks_spelled(tasks: Seq<TaskView>, past_due: bool, palette: Palette)
    ensures
        spelled(tasks_ops(tasks, past_due, palette)) == tasks_text(
            tasks,
            past_due,
            ColorStyle::NoColor,
        ),
    decreases tasks.len(),
{
    if tasks.len() > 0 {
        let task = tasks.last();
        lemma_tasks_spelled(tasks.drop_last(), past_due, palette);
        lemma_spelled_concat(
            tasks_ops(tasks.drop_last(), past_due, palette),
            task_ops(task, past_due, palette),
        );
        let ops = task_ops(task, past_due, palette);
        reveal_with_fuel(spelled, 4);
        assert(ops.drop_last().drop_last().drop_last() =~= Seq::<DrawOpView>::empty());
        reveal_strlit(" (");
        reveal_strlit(" ");
        reveal_strlit("(");
        reveal_strlit(")");
        assert(" ("@ =~= " "@ + "("@);
        assert(spelled(ops) =~= " ("@ + task.desc + ")"@);
        assert(task_text(task, past_due, ColorStyle::NoColor) =~= " ("@ + task.desc + ")"@);
    }
}

/// The steps of a slot spell its line of the plain text.
proof fn lemma_slot_spelled(hour: usize, tasks: Seq<TaskView>, past_due: bool, palette: Palette)
    ensures
        spelled(slot_ops(hour, tasks, past_due, palette)) == slot_text(
            hour,
            tasks,
            past_due,
            ColorStyle::NoColor,
        ),
{
    let tag = seq![
        DrawOpView::Text {
            color: palette.bracket_ink(treatment_of(all_done(tasks), past_due)),
            text: "["@ + decimal(hour as nat) + "]"@,
        },
    ];
    let body = tasks_ops(tasks, past_due, palette);
    let end = seq![DrawOpView::LineBreak];
    lemma_tasks_spelled(tasks, past_due, palette);
    lemma_spelled_concat(tag, body);
    lemma_spelled_concat(tag + body, end);
    reveal_with_fuel(spelled, 2);
    assert(tag.drop_last() =~= Seq::<DrawOpView>::empty());
    assert(end.drop_last() =~= Seq::<DrawOpView>::empty());
    assert(spelled(tag) =~= "["@ + decimal(hour as nat) + "]"@);
    assert(spelled(end) =~= "\n"@);
    assert(slot_text(hour, tasks, past_due, ColorStyle::NoColor) =~= "["@ + decimal(hour as nat)
        + "]"@ + tasks_text(tasks, past_due, ColorStyle::NoColor) + "\n"@);
}

/// The steps of some slots spell their lines of the plain text.
proof fn lemma_slots_spelled(
    slots: Slots,
    hours: Seq<usize>,
    day: int,
    now: MomentView,
    palette: Palette,
)
    ensures
        spelled(slots_ops(slots, hours, day, now, palette)) == slots_text(
            slots,
            hours,
            day,
            now,
            ColorStyle::NoColor,
        ),
    decreases hours.len(),
{
    if hours.len() > 0 {
        let hour = hours.last();
        lemma_slots_spelled(slots, hours.drop_last(), day, now, palette);
        lemma_slot_spelled(hour, slots[hour], is_past_due(day, hour as int, now), palette);
        lemma_spelled_concat(
            slots_ops(slots, hours.drop_last(), day, now, palette),
            slot_ops(hour, slots[hour], is_past_due(day, hour as int, now), palette),
        );
    }
}

/// What is drawn for a day is what the plain text of the day says, line for
/// line, so that the text measures the drawing.
pub proof fn lemma_day_spelled(ledger: Ledger, day: int, now: MomentView, palette: Palette)
    ensures
        spelled(day_ops(ledger, day, now, palette)) == day_text(
            ledger,
            day,
            now,
            ColorStyle::NoColor,
        ),
{
    let head = seq![
        DrawOpView::Text { color: palette.text, text: date_label(day) },
        DrawOpView::LineBreak,
    ];
    reveal_with_fuel(spelled, 3);
    assert(head.drop_last().drop_last() =~= Seq::<DrawOpView>::empty());
    assert(spelled(head) =~= date_label(day) + "\n"@);
    if ledger.contains_key(day) {
        let hours = ascending_keys(ledger[day].dom());
        lemma_slots_spelled(ledger[day], hours, day, now, palette);
        lemma_spelled_concat(head, slots_ops(ledger[day], hours, day, now, palette));
    } else {
        let placeholder = seq![
            DrawOpView::Text { color: palette.text, text: "Empty"@ },
            DrawOpView::LineBreak,
        ];
        lemma_spelled_concat(head, placeholder);
        assert(placeholder.drop_last().drop_last() =~= Seq::<DrawOpView>::empty());
        assert(spelled(placeholder) =~= "Empty"@ + "\n"@);
        reveal_strlit("Empty");
        reveal_strlit("\n");
        reveal_strlit("Empty\n");
        assert("Empty"@ + "\n"@ =~= "Empty\n"@);
        assert(spelled(day_ops(ledger, day, now, palette)) =~= date_label(day) + "\n"@
            + "Empty\n"@);
    }
}

/// The plain texts of several days one directly after the other: the text
/// view of those days without the blank lines between them.
pub open spec fn days_run(ledger: Ledger, days: Seq<int>, now: MomentView) -> Seq<char>
    decreases days.len(),
{
    if days.len() == 0 {
        Seq::empty()
    } else {
        days_run(ledger, days.drop_last(), now) + day_text(
            ledger,
            days.last(),
            now,
            ColorStyle::NoColor,
        )
    }
}

/// What is drawn for several days is their plain texts, line for line, one
/// day directly after the other.
pub proof fn lemma_days_spelled(ledger: Ledger, days: Seq<int>, now: MomentView, palette: Palette)
    ensures
        spelled(days_ops(ledger, days, now, palette)) == days_run(ledger, days, now),
    decreases days.len(),
{
    if days.len() > 0 {
        lemma_days_spelled(ledger, days.drop_last(), now, palette);
        lemma_day_spelled(ledger, days.last(), now, palette);
        lemma_spelled_concat(
            days_ops(ledger, days.drop_last(), now, palette),
            day_ops(ledger, days.last(), now, palette),
        );
    }
}

/// What is drawn for a selection is the plain text of its days without the
/// blank lines between them; for a single date that is the plain text of
/// the selection itself.
pub proof fn lemma_selection_spelled(
    ledger: Ledger,
    selection: ShowSetView,
    now: MomentView,
    palette: Palette,
)
    ensures
        spelled(selection_ops(ledger, selection, now, palette)) == days_run(
            ledger,
            selection_days(selection, now.day),
            now,
        ),
        selection matches ShowSetView::Date(day) ==> spelled(
            selection_ops(ledger, selection, now, palette),
        ) == selection_text(ledger, selection, now, ColorStyle::NoColor),
{
    let days = selection_days(selection, now.day);
    lemma_days_spelled(ledger, days, now, palette);
    if let ShowSetView::Date(day) = selection {
        assert(days.drop_last() =~= Seq::<int>::empty());
        assert(days_run(ledger, days.drop_last(), now) =~= Seq::<char>::empty());
        assert(days_run(ledger, days, now) =~= day_text(ledger, day, now, ColorStyle::NoColor));
    }
}

/// What the steps of some days spell has the lines of the days' plain text
/// but for the blank lines between days.
pub proof fn lemma_days_within_measure(
    ledger: Ledger,
    days: Seq<int>,
    now: MomentView,
    palette: Palette,
)
    ensures
        ({
            let drawn = extent_of(spelled(days_ops(ledger, days, now, palette)));
            let measured = extent_of(days_text(ledger, days, now, ColorStyle::NoColor));
            &&& drawn.0 <= measured.0
            &&& days.len() > 0 ==> measured.0 == drawn.0 + days.len() - 1
            &&& drawn.1 == measured.1
        }),
    decreases days.len(),
{
    let plain = ColorStyle::NoColor;
    lemma_days_spelled(ledger, days, now, palette);
    if days.len() == 1 {
        assert(days.drop_last() =~= Seq::<int>::empty());
        assert(days_run(ledger, days.drop_last(), now) =~= Seq::<char>::empty());
        assert(days_run(ledger, days, now) =~= day_text(ledger, days[0], now, plain));
    } else if days.len() > 1 {
        let rest = days.drop_last();
        let text_before = days_text(ledger, rest, now, plain);
        let run_before = days_run(ledger, rest, now);
        let last = day_text(ledger, days.last(), now, plain);
        let blank = "\n"@;
        lemma_days_within_measure(ledger, rest, now, palette);
        lemma_days_spelled(ledger, rest, now, palette);
        lemma_days_end_line(ledger, rest, now, plain);
        lemma_days_run_ends_line(ledger, rest, now);
        reveal_strlit("\n");
        reveal_with_fuel(pieces, 2);
        assert(blank.drop_last() =~= Seq::<char>::empty());
        assert(pieces(blank) =~= seq![Seq::<char>::empty(), Seq::<char>::empty()]);
        assert(pieces(blank).drop_last() =~= seq![Seq::<char>::empty()]);
        assert(lines_of(blank) =~= seq![Seq::<char>::empty()]);
        lemma_lines_after_lines(text_before, blank);
        lemma_lines_after_lines(text_before + blank, last);
        lemma_lines_after_lines(run_before, last);
        lemma_longest_of_both(lines_of(text_before), lines_of(blank));
        lemma_longest_of_both(lines_of(text_before) + lines_of(blank), lines_of(last));
        lemma_longest_of_both(lines_of(run_before), lines_of(last));
        reveal_with_fuel(longest_of, 2);
        assert(lines_of(blank).drop_last() =~= Seq::<Seq<char>>::empty());
        assert(longest_of(lines_of(blank)) == 0);
    }
}

/// The plain text measures the drawing: what the steps of a selection spell
/// has no more lines than the plain text of the selection, and its longest
/// line is as long as the longest line of the text.
pub proof fn lemma_drawing_within_measure(
    ledger: Ledger,
    selection: ShowSetView,
    now: MomentView,
    palette: Palette,
)
    ensures
        ({
            let drawn = extent_of(spelled(selection_ops(ledger, selection, now, palette)));
            let measured = extent_of(
                selection_text(ledger, selection, now, ColorStyle::NoColor),
            );
            &&& drawn.0 <= measured.0
            &&& drawn.1 == measured.1
        }),
{
    lemma_days_within_measure(ledger, selection_days(selection, now.day), now, palette);
}

/// The days' texts one after the other are whole lines.
proof fn lemma_days_run_ends_line(ledger: Ledger, days: Seq<int>, now: MomentView)
    ensures
        ends_line(days_run(ledger, days, now)),
{
    if days.len() > 0 {
        lemma_day_ends_line(ledger, days.last(), now, ColorStyle::NoColor);
    }
}

} // verus!
