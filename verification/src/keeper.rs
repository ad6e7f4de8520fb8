//! The ledger: every day's schedule, keyed by date.

use crate::date::Date;
use crate::ordered::day_keys;
use crate::ledger::{
    change_outcome, day_of, ledger_added, ledger_marked, ledger_normalized, Ledger,
};
use crate::schedule::Schedule;
use crate::slots::{slots_normalized, ChangeError};
use crate::task::Task;
use std::collections::BTreeMap;
use vstd::laws_cmp::*;
use vstd::prelude::*;
use vstd::std_specs::btree::*;
use vstd::string::*;

verus! {

broadcast use {group_btree_axioms, group_laws_cmp};

/// The whole ledger: for each date that has one, its schedule.
#[derive(Debug)]
pub struct Keeper {
    days: BTreeMap<i32, Schedule>,
}

impl View for Keeper {
    type V = Ledger;

    closed spec fn view(&self) -> Ledger {
        Map::new(
            |day: int| i32::MIN <= day <= i32::MAX && self.days@.contains_key(day as i32),
            |day: int| self.days@[day as i32]@,
        )
    }
}

impl Default for Keeper {
    fn default() -> (keeper: Keeper)
        ensures
            keeper@ == Ledger::empty(),
    {
        Keeper::new()
    }
}

impl Keeper {
    /// A ledger with no days.
    pub fn new() -> (keeper: Keeper)
        ensures
            keeper@ == Ledger::empty(),
    {
        let keeper = Keeper { days: BTreeMap::new() };
        assert(keeper@ =~= Ledger::empty());
        keeper
    }

    /// The schedule of `date`, if the ledger has one.
    pub fn schedule(&self, date: Date) -> (found: Option<&Schedule>)
        ensures
            match found {
                Some(schedule) => self@.contains_key(date@) && schedule@ == self@[date@],
                None => !self@.contains_key(date@),
            },
    {
        let day: i32 = date.days();
        self.days.get(&day)
    }

    /// The day numbers of the dates that have a schedule, smallest first.
    pub fn day_numbers(&self) -> (days: Vec<i32>)
        ensures
            forall|i: int, j: int| 0 <= i < j < days@.len() ==> days@[i] < days@[j],
            forall|day: i32| self@.contains_key(day as int) <==> days@.contains(day),
    {
        day_keys(&self.days)
    }

    /// Puts `schedule` at `date`, in place of any schedule that was there.
    pub fn set_day(&mut self, date: Date, schedule: Schedule)
        ensures
            final(self)@ == old(self)@.insert(date@, schedule@),
    {
        let day: i32 = date.days();
        self.days.insert(day, schedule);
        assert(self@ =~= old(self)@.insert(date@, schedule@));
    }

    /// Appends a new, pending task to the slot at (`date`, `hour`), making
    /// the day and the slot where they are missing.
    pub fn add(&mut self, date: Date, desc: &str, hour: usize)
        ensures
            final(self)@ == ledger_added(old(self)@, date@, hour, desc@),
    {
        let day: i32 = date.days();
        let mut schedule = match self.days.remove(&day) {
            Some(schedule) => schedule,
            None => Schedule::new(),
        };
        assert(schedule@ == day_of(old(self)@, date@));
        schedule.push(hour, Task::new(String::from_str(desc)));
        self.days.insert(day, schedule);
        assert(self@ =~= ledger_added(old(self)@, date@, hour, desc@));
    }

    /// Marks the task at (`date`, `hour`, `index`) as done. Where there is no
    /// such task, nothing happens.
    pub fn mark(&mut self, date: Date, hour: usize, index: usize)
        ensures
            final(self)@ == ledger_marked(old(self)@, date@, hour, index as int),
    {
        let day: i32 = date.days();
        match self.days.remove(&day) {
            Some(mut schedule) => {
                schedule.mark(hour, index);
                self.days.insert(day, schedule);
                assert(self@ =~= ledger_marked(old(self)@, date@, hour, index as int));
            },
            None => {
                assert(self@ =~= old(self)@);
            },
        }
    }

    /// Moves the task at (`date`, `old_hour`, `index`) to the end of the slot
    /// at (`date`, `new_hour`), keeping its state. A slot that the move
    /// empties is dropped. On an error the ledger is left as it was.
    pub fn change(
        &mut self,
        date: Date,
        old_hour: usize,
        index: usize,
        new_hour: usize,
    ) -> (outcome: Result<(), ChangeError>)
        ensures
            match change_outcome(old(self)@, date@, old_hour, index as int, new_hour) {
                Ok(ledger) => outcome is Ok && final(self)@ == ledger,
                Err(error) => outcome matches Err(e) && e == error && final(self)@ == old(self)@,
            },
    {
        let day: i32 = date.days();
        match self.days.remove(&day) {
            None => {
                assert(self@ =~= old(self)@);
                Err(ChangeError::AbsentDay)
            },
            Some(mut schedule) => {
                let outcome = schedule.move_task(old_hour, index, new_hour);
                self.days.insert(day, schedule);
                proof {
                    match outcome {
                        Ok(_) => {
                            assert(self@ =~= old(self)@.insert(date@, schedule@));
                        },
                        Err(_) => {
                            assert(self@ =~= old(self)@);
                        },
                    }
                }
                outcome
            },
        }
    }

    /// Normalizes every slot of every day: pending tasks before done ones,
    /// the order within each group kept.
    pub fn order(&mut self)
        ensures
            final(self)@ == ledger_normalized(old(self)@),
    {
        let days = day_keys(&self.days);
        let mut i: usize = 0;
        while i < days.len()
            invariant
                i <= days.len(),
                forall|a: int, b: int| 0 <= a < b < days@.len() ==> days@[a] < days@[b],
                forall|k: i32| old(self).days@.dom().contains(k) <==> days@.contains(k),
                self.days@.dom() == old(self).days@.dom(),
                forall|j: int|
                    0 <= j < i ==> self.days@[#[trigger] days[j]]@ == slots_normalized(
                        old(self).days@[days[j]]@,
                    ),
                forall|j: int|
                    i <= j < days.len() ==> self.days@[#[trigger] days[j]]@ == old(
                        self,
                    ).days@[days[j]]@,
            decreases days.len() - i,
        {
            let day = days[i];
            assert(days@.contains(day));
            let ghost prev = self.days@;
            match self.days.remove(&day) {
                Some(mut schedule) => {
                    schedule.normalize();
                    self.days.insert(day, schedule);
                    assert(self.days@.dom() =~= prev.dom());
                },
                None => {},
            }
            i += 1;
        }
        assert(self@ =~= ledger_normalized(old(self)@)) by {
            assert forall|d: int| old(self)@.contains_key(d) implies self@[d] == slots_normalized(
                old(self)@[d],
            ) by {
                let k = d as i32;
                assert(days@.contains(k));
                let j = choose|j: int| 0 <= j < days.len() && days[j] == k;
                assert(self.days@[days[j]]@ == slots_normalized(old(self).days@[days[j]]@));
            }
        }
    }
}

} // verus!
