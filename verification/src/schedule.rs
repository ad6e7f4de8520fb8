//! One day's tasks, slot by slot.

use crate::ordered::{ascending_keys, ascending_over, hour_keys};
use crate::slots::{
    done_of, normalized, pending_of, slot_of, slots_marked, slots_move_outcome,
    slots_normalized, slots_with, ChangeError, Slots,
};
use crate::task::{tasks_view, Task, TaskView};
use std::collections::BTreeMap;
use vstd::laws_cmp::*;
use vstd::prelude::*;
use vstd::std_specs::btree::*;

verus! {

broadcast use {group_btree_axioms, group_laws_cmp};

/// Reorders the tasks of one slot so that pending ones come first.
pub fn normalize_slot(tasks: Vec<Task>) -> (sorted: Vec<Task>)
    ensures
        tasks_view(sorted@) == normalized(tasks_view(tasks@)),
{
    let ghost all = tasks_view(tasks@);
    let mut pending: Vec<Task> = Vec::new();
    let mut done: Vec<Task> = Vec::new();
    proof {
        reveal(Seq::filter);
        assert(tasks_view(pending@) =~= pending_of(all.take(0)));
        assert(tasks_view(done@) =~= done_of(all.take(0)));
    }
    for task in it: tasks
        invariant
            all == tasks_view(it.seq()),
            tasks_view(pending@) == pending_of(all.take(it.index() as int)),
            tasks_view(done@) == done_of(all.take(it.index() as int)),
    {
        proof {
            reveal(Seq::filter);
            let i = it.index() as int;
            assert(all.take(i + 1).drop_last() =~= all.take(i));
            assert(all.take(i + 1).last() == task@);
        }
        if task.is_completed() {
            let ghost before = done@;
            done.push(task);
            assert(tasks_view(done@) =~= tasks_view(before).push(task@));
        } else {
            let ghost before = pending@;
            pending.push(task);
            assert(tasks_view(pending@) =~= tasks_view(before).push(task@));
        }
    }
    proof {
        assert(all.take(all.len() as int) =~= all);
    }
    let ghost front = pending@;
    let ghost back = done@;
    pending.append(&mut done);
    assert(tasks_view(pending@) =~= tasks_view(front) + tasks_view(back));
    pending
}

/// The tasks of one day: for each hour that has a slot, its tasks in order.
#[derive(Debug)]
pub struct Schedule {
    timeslots: BTreeMap<usize, Vec<Task>>,
}

impl View for Schedule {
    type V = Slots;

    closed spec fn view(&self) -> Slots {
        self.timeslots@.map_values(|tasks: Vec<Task>| tasks_view(tasks@))
    }
}

impl Default for Schedule {
    fn default() -> (schedule: Schedule)
        ensures
            schedule@ == Slots::empty(),
    {
        Schedule::new()
    }
}

impl Schedule {
    /// A day with no slots.
    pub fn new() -> (schedule: Schedule)
        ensures
            schedule@ == Slots::empty(),
    {
        let schedule = Schedule { timeslots: BTreeMap::new() };
        assert(schedule@ =~= Slots::empty());
        schedule
    }

    /// The hours that have a slot, smallest first.
    pub fn hours(&self) -> (hours: Vec<usize>)
        ensures
            ascending_over(hours@, self@.dom()),
            hours@ == ascending_keys(self@.dom()),
    {
        let hours = hour_keys(&self.timeslots);
        assert(self@.dom() =~= self.timeslots@.dom());
        hours
    }

    /// The tasks of the slot at `hour`, if the day has that slot.
    pub fn tasks(&self, hour: usize) -> (slot: Option<&Vec<Task>>)
        ensures
            match slot {
                Some(tasks) => self@.contains_key(hour) && tasks_view(tasks@) == self@[hour],
                None => !self@.contains_key(hour),
            },
    {
        self.timeslots.get(&hour)
    }

    /// Takes the slot at `hour` out of the day.
    pub fn take_slot(&mut self, hour: usize) -> (slot: Option<Vec<Task>>)
        ensures
            match slot {
                Some(tasks) => old(self)@.contains_key(hour) && tasks_view(tasks@) == old(
                    self,
                )@[hour] && final(self)@ == old(self)@.remove(hour),
                None => !old(self)@.contains_key(hour) && final(self)@ == old(self)@,
            },
    {
        let slot = self.timeslots.remove(&hour);
        assert(self@ =~= old(self)@.remove(hour));
        slot
    }

    /// Puts `tasks` at `hour`, in place of any slot that was there.
    pub fn set_slot(&mut self, hour: usize, tasks: Vec<Task>)
        ensures
            final(self)@ == old(self)@.insert(hour, tasks_view(tasks@)),
    {
        self.timeslots.insert(hour, tasks);
        assert(self@ =~= old(self)@.insert(hour, tasks_view(tasks@)));
    }

    /// Appends `task` to the slot at `hour`, making the slot if need be.
    pub fn push(&mut self, hour: usize, task: Task)
        ensures
            final(self)@ == slots_with(old(self)@, hour, task@),
    {
        let mut slot = match self.timeslots.remove(&hour) {
            Some(tasks) => tasks,
            None => Vec::new(),
        };
        let ghost before = tasks_view(slot@);
        assert(before =~= slot_of(old(self)@, hour));
        slot.push(task);
        assert(tasks_view(slot@) =~= before.push(task@));
        self.timeslots.insert(hour, slot);
        assert(self@ =~= slots_with(old(self)@, hour, task@));
    }

    /// Marks the task at `index` of `hour` as done, if there is one.
    pub fn mark(&mut self, hour: usize, index: usize)
        ensures
            final(self)@ == slots_marked(old(self)@, hour, index as int),
    {
        match self.timeslots.remove(&hour) {
            Some(mut slot) => {
                let ghost before = tasks_view(slot@);
                if index < slot.len() {
                    let mut task = slot.remove(index);
                    task.mark_complete();
                    slot.insert(index, task);
                    assert(tasks_view(slot@) =~= before.update(
                        index as int,
                        TaskView { completed: true, desc: before[index as int].desc },
                    ));
                }
                self.timeslots.insert(hour, slot);
                assert(self@ =~= slots_marked(old(self)@, hour, index as int));
            },
            None => {
                assert(self@ =~= old(self)@);
            },
        }
    }

    /// Moves the task at `index` of `old_hour` to the end of `new_hour`.
    /// On an error the day is left as it was.
    pub fn move_task(&mut self, old_hour: usize, index: usize, new_hour: usize) -> (outcome: Result<
        (),
        ChangeError,
    >)
        ensures
            match slots_move_outcome(old(self)@, old_hour, index as int, new_hour) {
                Ok(slots) => outcome is Ok && final(self)@ == slots,
                Err(error) => outcome matches Err(e) && e == error && final(self)@ == old(self)@,
            },
    {
        match self.timeslots.get(&old_hour) {
            None => {
                return Err(ChangeError::AbsentSlot);
            },
            Some(tasks) => {
                if index >= tasks.len() {
                    return Err(ChangeError::IndexOutOfRange);
                }
            },
        }
        let mut slot = match self.timeslots.remove(&old_hour) {
            Some(tasks) => tasks,
            None => Vec::new(),
        };
        let ghost before = tasks_view(slot@);
        let task = slot.remove(index);
        assert(tasks_view(slot@) =~= before.remove(index as int));
        if slot.len() > 0 {
            self.timeslots.insert(old_hour, slot);
        }
        let ghost without = self@;
        assert(without =~= if before.remove(index as int).len() == 0 {
            old(self)@.remove(old_hour)
        } else {
            old(self)@.insert(old_hour, before.remove(index as int))
        });
        self.push(new_hour, task);
        Ok(())
    }

    /// Normalizes every slot of the day.
    pub fn normalize(&mut self)
        ensures
            final(self)@ == slots_normalized(old(self)@),
    {
        let hours = hour_keys(&self.timeslots);
        let mut i: usize = 0;
        while i < hours.len()
            invariant
                i <= hours.len(),
                ascending_over(hours@, old(self)@.dom()),
                self@.dom() == old(self)@.dom(),
                forall|j: int|
                    0 <= j < i ==> self@[#[trigger] hours[j]] == normalized(old(self)@[hours[j]]),
                forall|j: int|
                    i <= j < hours.len() ==> self@[#[trigger] hours[j]] == old(self)@[hours[j]],
            decreases hours.len() - i,
        {
            let hour = hours[i];
            let ghost prev = self@;
            assert(hours@.contains(hour));
            match self.timeslots.remove(&hour) {
                Some(slot) => {
                    let sorted = normalize_slot(slot);
                    self.timeslots.insert(hour, sorted);
                    assert(self@ =~= prev.insert(hour, normalized(prev[hour])));
                },
                None => {},
            }
            i += 1;
        }
        assert(self@ =~= slots_normalized(old(self)@)) by {
            assert forall|h: usize| old(self)@.contains_key(h) implies self@[h] == normalized(
                old(self)@[h],
            ) by {
                assert(hours@.contains(h));
                let j = choose|j: int| 0 <= j < hours.len() && hours[j] == h;
                assert(self@[hours[j]] == normalized(old(self)@[hours[j]]));
            }
        }
    }
}

} // verus!
