//! The raster view's layout: the font scale at which a whole selection fits
//! the canvas, the steps that draw it, and the cursor that places them.
//! Rasterising the glyphs is left to the caller.

use crate::canvas::{fit_scale, fitting_scale, Canvas, FontScale};
use crate::classify::{all_done, classify, slot_all_done, treatment, treatment_of};
use crate::date::{date_label, is_date, Date, Moment};
use crate::draw::{
    day_ops, days_ops, ops_view, selection_ops, slot_ops, slots_ops, task_ops, tasks_ops, DrawOp,
    DrawOpView,
};
use crate::keeper::Keeper;
use crate::measure::{extent_of, lemma_no_lines_no_text, measure};
use crate::palette::Palette;
use crate::selection::{days_shown, lemma_days_shown_stops, selection_days, ShowSet};
use crate::task::{tasks_view, Task};
use crate::text::{
    decimal, lemma_days_have_text, push_decimal, selection_text, ColorStyle, KeeperDisplay,
};
use vstd::prelude::*;
use vstd::string::*;

verus! {

/// Appends the steps of one task.
fn push_task_ops(ops: &mut Vec<DrawOp>, task: &Task, past_due: bool, palette: &Palette)
    ensures
        ops_view(final(ops)@) == ops_view(old(ops)@) + task_ops(task@, past_due, *palette),
{
    let ink = palette.paren(treatment(task.is_completed(), past_due));
    ops.push(DrawOp::Text { color: ink, text: String::from_str(" (") });
    ops.push(DrawOp::Text { color: palette.text, text: String::from_str(task.description()) });
    ops.push(DrawOp::Text { color: ink, text: String::from_str(")") });
    assert(ops_view(ops@) =~= ops_view(old(ops)@) + task_ops(task@, past_due, *palette));
}

/// Appends the steps of one slot.
fn push_slot_ops(
    ops: &mut Vec<DrawOp>,
    hour: usize,
    tasks: &Vec<Task>,
    past_due: bool,
    palette: &Palette,
)
    ensures
        ops_view(final(ops)@) == ops_view(old(ops)@) + slot_ops(
            hour,
            tasks_view(tasks@),
            past_due,
            *palette,
        ),
{
    let done = slot_all_done(tasks);
    let mut tag = String::from_str("[");
    push_decimal(&mut tag, hour);
    tag.append("]");
    ops.push(DrawOp::Text { color: palette.bracket(treatment(done, past_due)), text: tag });
    let ghost head = ops_view(ops@);
    let ghost all = tasks_view(tasks@);
    assert(head =~= ops_view(old(ops)@) + seq![
        DrawOpView::Text {
            color: palette.bracket_ink(treatment_of(all_done(all), past_due)),
            text: "["@ + decimal(hour as nat) + "]"@,
        },
    ]);
    let mut i: usize = 0;
    assert(ops_view(ops@) =~= head + tasks_ops(all.take(0), past_due, *palette));
    while i < tasks.len()
        invariant
            i <= tasks.len(),
            all == tasks_view(tasks@),
            ops_view(ops@) == head + tasks_ops(all.take(i as int), past_due, *palette),
        decreases tasks.len() - i,
    {
        push_task_ops(ops, &tasks[i], past_due, palette);
        proof {
            let next = all.take(i + 1);
            assert(next.drop_last() =~= all.take(i as int));
            assert(next.last() == tasks[i as int]@);
            assert(ops_view(ops@) =~= head + tasks_ops(next, past_due, *palette));
        }
        i += 1;
    }
    assert(all.take(tasks.len() as int) =~= all);
    let ghost body = ops_view(ops@);
    ops.push(DrawOp::LineBreak);
    assert(ops_view(ops@) =~= body.push(DrawOpView::LineBreak));
    assert(ops_view(ops@) =~= ops_view(old(ops)@) + slot_ops(hour, all, past_due, *palette));
}

/// The layout of a selection on a canvas: the font scale at which it fits,
/// and the cursor at which the next run of text is drawn.
pub struct KeeperRenderer<'a> {
    pub keeper: &'a Keeper,
    pub selection: ShowSet,
    pub now: Moment,
    pub palette: Palette,
    /// The font scale, the same in both directions. A selection that shows
    /// no day has none, and has nothing to draw.
    pub scale: Option<FontScale>,
    /// Where every line starts.
    pub left: i32,
    pub xpos: i32,
    pub ypos: i32,
}

impl<'a> KeeperRenderer<'a> {
    /// Lays a selection out on a canvas. The scale is the one at which the
    /// plain text of the selection fits the canvas inside its padding; the
    /// cursor starts at the top left of that space. Every selection has a
    /// layout on a canvas that has room for text; there is none on a canvas
    /// without room.
    pub fn new(
        keeper: &'a Keeper,
        selection: ShowSet,
        now: Moment,
        canvas: &Canvas,
        palette: Palette,
    ) -> (renderer: Option<Self>)
        ensures
            ({
                let extent = extent_of(
                    selection_text(keeper@, selection@, now@, ColorStyle::NoColor),
                );
                match renderer {
                    Some(r) => {
                        &&& canvas.has_room()
                        &&& r.scale is Some <==> selection_days(selection@, now@.day).len() > 0
                        &&& r.scale matches Some(scale) ==> scale.den > 0 && fitting_scale(
                            extent.0,
                            extent.1,
                            *canvas,
                        ) == Some((scale.num as int, scale.den as int))
                        &&& r.keeper == keeper
                        &&& r.selection == selection
                        &&& r.now == now
                        &&& r.palette == palette
                        &&& r.left == canvas.x_pad
                        &&& r.xpos == canvas.x_pad
                        &&& r.ypos == canvas.y_pad + canvas.y_start
                    },
                    None => !canvas.has_room(),
                }
            }),
    {
        if !canvas.check_room() {
            return None;
        }
        let displayed = KeeperDisplay::new(keeper, selection, ColorStyle::NoColor, now).to_text();
        let extent = measure(displayed.as_str());
        proof {
            lemma_no_lines_no_text(displayed@);
            lemma_days_have_text(
                keeper@,
                selection_days(selection@, now@.day),
                now@,
                ColorStyle::NoColor,
            );
        }
        Some(
            Self {
                keeper,
                selection,
                now,
                palette,
                scale: fit_scale(extent, canvas),
                left: canvas.x_pad as i32,
                xpos: canvas.x_pad as i32,
                ypos: (canvas.y_pad + canvas.y_start) as i32,
            },
        )
    }

    /// Moves the cursor past a run of text that took `width` pixels.
    pub fn render_literal(&mut self, width: i32)
        requires
            i32::MIN <= old(self).xpos + width <= i32::MAX,
        ensures
            final(self).xpos == old(self).xpos + width,
            *final(self) == (KeeperRenderer { xpos: final(self).xpos, ..*old(self) }),
    {
        self.xpos = self.xpos + width;
    }

    /// Moves the cursor to the start of the next line, `line_height` pixels
    /// further down.
    pub fn render_newline(&mut self, line_height: i32)
        requires
            i32::MIN <= old(self).ypos + line_height <= i32::MAX,
        ensures
            final(self).xpos == old(self).left,
            final(self).ypos == old(self).ypos + line_height,
            *final(self) == (KeeperRenderer {
                xpos: final(self).xpos,
                ypos: final(self).ypos,
                ..*old(self)
            }),
    {
        self.xpos = self.left;
        self.ypos = self.ypos + line_height;
    }

    /// Appends the drawing steps of one day.
    pub fn render_day(&self, ops: &mut Vec<DrawOp>, day: Date)
        ensures
            ops_view(final(ops)@) == ops_view(old(ops)@) + day_ops(
                self.keeper@,
                day@,
                self.now@,
                self.palette,
            ),
    {
        ops.push(DrawOp::Text { color: self.palette.text, text: day.label() });
        ops.push(DrawOp::LineBreak);
        let ghost head = ops_view(ops@);
        assert(head =~= ops_view(old(ops)@) + seq![
            DrawOpView::Text { color: self.palette.text, text: date_label(day@) },
            DrawOpView::LineBreak,
        ]);
        match self.keeper.schedule(day) {
            None => {
                ops.push(
                    DrawOp::Text { color: self.palette.text, text: String::from_str("Empty") },
                );
                ops.push(DrawOp::LineBreak);
                assert(ops_view(ops@) =~= ops_view(old(ops)@) + day_ops(
                    self.keeper@,
                    day@,
                    self.now@,
                    self.palette,
                ));
            },
            Some(schedule) => {
                let hours = schedule.hours();
                let ghost slots = schedule@;
                let mut i: usize = 0;
                assert(ops_view(ops@) =~= head + slots_ops(
                    slots,
                    hours@.take(0),
                    day@,
                    self.now@,
                    self.palette,
                ));
                while i < hours.len()
                    invariant
                        i <= hours.len(),
                        slots == schedule@,
                        forall|k: usize| slots.dom().contains(k) <==> hours@.contains(k),
                        ops_view(ops@) == head + slots_ops(
                            slots,
                            hours@.take(i as int),
                            day@,
                            self.now@,
                            self.palette,
                        ),
                    decreases hours.len() - i,
                {
                    let hour = hours[i];
                    assert(hours@.contains(hour));
                    let class = classify(day, hour, &self.now);
                    match schedule.tasks(hour) {
                        Some(tasks) => {
                            push_slot_ops(ops, hour, tasks, class.past_due, &self.palette);
                        },
                        None => {},
                    }
                    proof {
                        let next = hours@.take(i + 1);
                        assert(next.drop_last() =~= hours@.take(i as int));
                        assert(next.last() == hour);
                        assert(ops_view(ops@) =~= head + slots_ops(
                            slots,
                            next,
                            day@,
                            self.now@,
                            self.palette,
                        ));
                    }
                    i += 1;
                }
                assert(hours@.take(hours.len() as int) =~= hours@);
                assert(ops_view(ops@) =~= ops_view(old(ops)@) + day_ops(
                    self.keeper@,
                    day@,
                    self.now@,
                    self.palette,
                ));
            },
        }
    }

    /// The drawing steps of the whole selection.
    pub fn render(&self) -> (ops: Vec<DrawOp>)
        ensures
            ops_view(ops@) == selection_ops(
                self.keeper@,
                self.selection@,
                self.now@,
                self.palette,
            ),
    {
        let mut ops: Vec<DrawOp> = Vec::new();
        match self.selection {
            ShowSet::Date(date) => {
                self.render_day(&mut ops, date);
                assert(seq![date@].drop_last() =~= Seq::<int>::empty());
                assert(days_ops(self.keeper@, Seq::<int>::empty(), self.now@, self.palette)
                    =~= Seq::<DrawOpView>::empty());
                assert(ops_view(ops@) =~= days_ops(
                    self.keeper@,
                    seq![date@],
                    self.now@,
                    self.palette,
                ));
            },
            ShowSet::Days(count) => {
                let today = self.now.date();
                let mut next: Option<Date> = Some(today);
                let mut i: usize = 0;
                assert(ops_view(ops@) =~= days_ops(
                    self.keeper@,
                    days_shown(today@, 0),
                    self.now@,
                    self.palette,
                ));
                while i < count && next.is_some()
                    invariant
                        i <= count,
                        today@ == self.now@.day,
                        days_shown(today@, i as nat).len() == i,
                        match next {
                            Some(date) => date@ == today@ + i && is_date(date@),
                            None => !is_date(today@ + i),
                        },
                        ops_view(ops@) == days_ops(
                            self.keeper@,
                            days_shown(today@, i as nat),
                            self.now@,
                            self.palette,
                        ),
                    decreases count - i,
                {
                    let date = next.unwrap();
                    self.render_day(&mut ops, date);
                    proof {
                        let shown = days_shown(today@, (i + 1) as nat);
                        assert(shown == days_shown(today@, i as nat).push(date@));
                        assert(shown.drop_last() =~= days_shown(today@, i as nat));
                    }
                    next = date.succ();
                    i += 1;
                }
                proof {
                    if i < count {
                        lemma_days_shown_stops(today@, i as nat, count as nat);
                    }
                }
            },
        }
        ops
    }
}

} // verus!
