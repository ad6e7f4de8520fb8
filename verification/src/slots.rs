//! The slots of one day as mathematics: what each operation of the ledger
//! makes of them, and what holds of the result.

use crate::task::TaskView;
use vstd::prelude::*;
use vstd::seq_lib::group_filter_ensures;

verus! {

/// The slots of one day: for each hour that has a slot, its tasks in order.
pub type Slots = Map<usize, Seq<TaskView>>;

/// The tasks of a slot that are still to be done, in order.
pub open spec fn pending_of(tasks: Seq<TaskView>) -> Seq<TaskView> {
    tasks.filter(|t: TaskView| !t.completed)
}

/// The tasks of a slot that are done, in order.
pub open spec fn done_of(tasks: Seq<TaskView>) -> Seq<TaskView> {
    tasks.filter(|t: TaskView| t.completed)
}

/// A slot with its pending tasks moved before its done tasks, the order
/// within each group kept.
pub open spec fn normalized(tasks: Seq<TaskView>) -> Seq<TaskView> {
    pending_of(tasks) + done_of(tasks)
}

/// A slot is in order when no done task comes before a pending one.
pub open spec fn pending_first(tasks: Seq<TaskView>) -> bool {
    forall|i: int, j: int|
        0 <= i < j < tasks.len() ==> (tasks[i].completed ==> tasks[j].completed)
}

/// The slot at `hour`, read as empty where the day has none.
pub open spec fn slot_of(slots: Slots, hour: usize) -> Seq<TaskView> {
    if slots.contains_key(hour) {
        slots[hour]
    } else {
        Seq::empty()
    }
}

/// The slots of a day after one more task is appended at `hour`.
pub open spec fn slots_with(slots: Slots, hour: usize, task: TaskView) -> Slots {
    slots.insert(hour, slot_of(slots, hour).push(task))
}

/// The slots of a day after the task at `index` of `hour` is marked done.
/// Where there is no such task, nothing changes.
pub open spec fn slots_marked(slots: Slots, hour: usize, index: int) -> Slots {
    if slots.contains_key(hour) && 0 <= index < slots[hour].len() {
        slots.insert(
            hour,
            slots[hour].update(
                index,
                TaskView { completed: true, desc: slots[hour][index].desc },
            ),
        )
    } else {
        slots
    }
}

/// Why a task could not be moved.
#[derive(Clone, Copy, Debug, PartialEq, Eq, Structural)]
pub enum ChangeError {
    /// The date has no schedule.
    AbsentDay,
    /// The day has no slot at the hour to move from.
    AbsentSlot,
    /// The slot to move from has no task at the index.
    IndexOutOfRange,
}

/// The slots of a day after the task at `index` of `old_hour` is taken out and
/// appended at `new_hour`. A slot that the move empties is dropped.
pub open spec fn slots_moved(
    slots: Slots,
    old_hour: usize,
    index: int,
    new_hour: usize,
) -> Slots {
    let task = slots[old_hour][index];
    let rest = slots[old_hour].remove(index);
    let without = if rest.len() == 0 {
        slots.remove(old_hour)
    } else {
        slots.insert(old_hour, rest)
    };
    slots_with(without, new_hour, task)
}

/// What moving a task within a day comes to: the new slots, or the reason
/// why nothing moves.
pub open spec fn slots_move_outcome(
    slots: Slots,
    old_hour: usize,
    index: int,
    new_hour: usize,
) -> Result<Slots, ChangeError> {
    if !slots.contains_key(old_hour) {
        Err(ChangeError::AbsentSlot)
    } else if index < 0 || index >= slots[old_hour].len() {
        Err(ChangeError::IndexOutOfRange)
    } else {
        Ok(slots_moved(slots, old_hour, index, new_hour))
    }
}

/// The slots of a day with every slot normalized.
pub open spec fn slots_normalized(slots: Slots) -> Slots {
    slots.map_values(|tasks: Seq<TaskView>| normalized(tasks))
}

/// Filtering keeps a sequence whose members all pass.
proof fn lemma_filter_keeps(tasks: Seq<TaskView>, pred: spec_fn(TaskView) -> bool)
    requires
        forall|i: int| 0 <= i < tasks.len() ==> pred(#[trigger] tasks[i]),
    ensures
        tasks.filter(pred) == tasks,
    decreases tasks.len(),
{
    reveal(Seq::filter);
    if tasks.len() > 0 {
        lemma_filter_keeps(tasks.drop_last(), pred);
        assert(tasks.drop_last().push(tasks.last()) =~= tasks);
    }
}

/// Filtering empties a sequence none of whose members pass.
proof fn lemma_filter_drops(tasks: Seq<TaskView>, pred: spec_fn(TaskView) -> bool)
    requires
        forall|i: int| 0 <= i < tasks.len() ==> !pred(#[trigger] tasks[i]),
    ensures
        tasks.filter(pred) == Seq::<TaskView>::empty(),
    decreases tasks.len(),
{
    reveal(Seq::filter);
    if tasks.len() > 0 {
        lemma_filter_drops(tasks.drop_last(), pred);
    }
}

/// Every task of a slot is either pending or done, so the two groups
/// together are as many as the slot.
proof fn lemma_groups_len(tasks: Seq<TaskView>)
    ensures
        pending_of(tasks).len() + done_of(tasks).len() == tasks.len(),
    decreases tasks.len(),
{
    reveal(Seq::filter);
    if tasks.len() > 0 {
        lemma_groups_len(tasks.drop_last());
    }
}

/// Normalizing keeps the tasks of each group in the order they had: the
/// pending tasks of the result are the pending tasks of the slot, in the
/// same order, and likewise the done ones. No task is lost or added.
pub proof fn lemma_normalized_stable(tasks: Seq<TaskView>)
    ensures
        pending_of(normalized(tasks)) == pending_of(tasks),
        done_of(normalized(tasks)) == done_of(tasks),
        normalized(tasks).len() == tasks.len(),
{
    let is_pending = |t: TaskView| !t.completed;
    let is_done = |t: TaskView| t.completed;
    let p = pending_of(tasks);
    let d = done_of(tasks);
    broadcast use group_filter_ensures;
    Seq::filter_distributes_over_add(p, d, is_pending);
    Seq::filter_distributes_over_add(p, d, is_done);
    lemma_filter_keeps(p, is_pending);
    lemma_filter_drops(d, is_pending);
    lemma_filter_keeps(d, is_done);
    lemma_filter_drops(p, is_done);
    lemma_groups_len(tasks);
    assert(p + Seq::<TaskView>::empty() =~= p);
    assert(Seq::<TaskView>::empty() + d =~= d);
}

/// Normalizing reorders a slot and nothing more: every task occurs in the
/// result as often as in the slot.
pub proof fn lemma_normalized_permutes(tasks: Seq<TaskView>)
    ensures
        normalized(tasks).to_multiset() == tasks.to_multiset(),
    decreases tasks.len(),
{
    broadcast use vstd::multiset::group_multiset_axioms;

    let p = pending_of(tasks);
    let d = done_of(tasks);
    vstd::seq_lib::lemma_multiset_commutative(p, d);
    if tasks.len() == 0 {
        reveal(Seq::filter);
        assert(normalized(tasks) =~= tasks);
    } else {
        let rest = tasks.drop_last();
        let last = tasks.last();
        lemma_normalized_permutes(rest);
        vstd::seq_lib::lemma_multiset_commutative(pending_of(rest), done_of(rest));
        reveal(Seq::filter);
        assert(rest.push(last) =~= tasks);
        vstd::seq_lib::to_multiset_build(rest, last);
        if last.completed {
            assert(d == done_of(rest).push(last));
            assert(p == pending_of(rest));
            vstd::seq_lib::to_multiset_build(done_of(rest), last);
        } else {
            assert(p == pending_of(rest).push(last));
            assert(d == done_of(rest));
            vstd::seq_lib::to_multiset_build(pending_of(rest), last);
        }
        assert(normalized(tasks).to_multiset() =~= tasks.to_multiset());
    }
}

/// In a normalized slot no done task comes before a pending one.
pub proof fn lemma_normalized_pending_first(tasks: Seq<TaskView>)
    ensures
        pending_first(normalized(tasks)),
{
    let is_pending = |t: TaskView| !t.completed;
    let is_done = |t: TaskView| t.completed;
    broadcast use group_filter_ensures;
    let p = pending_of(tasks);
    let d = done_of(tasks);
    let n = normalized(tasks);
    assert forall|i: int, j: int| 0 <= i < j < n.len() && n[i].completed implies n[j].completed by {
        if i < p.len() {
            assert(is_pending(p[i]));
        } else {
            assert(is_done(d[j - p.len()]));
        }
    }
}

/// Normalizing a normalized slot changes nothing.
pub proof fn lemma_normalized_idempotent(tasks: Seq<TaskView>)
    ensures
        normalized(normalized(tasks)) == normalized(tasks),
{
    lemma_normalized_stable(tasks);
}

/// Normalizing a day twice is the same as normalizing it once.
pub proof fn lemma_slots_normalized_idempotent(slots: Slots)
    ensures
        slots_normalized(slots_normalized(slots)) == slots_normalized(slots),
{
    let once = slots_normalized(slots);
    let twice = slots_normalized(once);
    assert forall|hour: usize| once.contains_key(hour) implies #[trigger] twice[hour]
        == once[hour] by {
        assert(once[hour] == normalized(slots[hour]));
        assert(twice[hour] == normalized(once[hour]));
        lemma_normalized_idempotent(slots[hour]);
    }
    assert(twice.dom() =~= once.dom());
    assert(twice =~= once);
}

/// A move that takes the last task out of a slot leaves no slot at that
/// hour, unless the task was moved to that same hour.
pub proof fn lemma_move_drops_emptied_slot(
    slots: Slots,
    old_hour: usize,
    index: int,
    new_hour: usize,
)
    requires
        slots.contains_key(old_hour),
        slots[old_hour].len() == 1,
        index == 0,
        old_hour != new_hour,
    ensures
        !slots_moved(slots, old_hour, index, new_hour).contains_key(old_hour),
        slots_moved(slots, old_hour, index, new_hour)[new_hour] == slot_of(slots, new_hour).push(
            slots[old_hour][0],
        ),
{
}

} // verus!
