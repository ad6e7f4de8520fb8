//! The ledger as mathematics: a map from day numbers to the slots of each
//! day, what each operation makes of it, and what holds of the result.

use crate::slots::{
    done_of, lemma_move_drops_emptied_slot, lemma_normalized_pending_first,
    lemma_normalized_permutes, lemma_normalized_stable, lemma_slots_normalized_idempotent,
    normalized, pending_first, pending_of, slot_of, slots_marked, slots_move_outcome,
    slots_normalized, slots_with, ChangeError, Slots,
};
use crate::task::TaskView;
use vstd::prelude::*;

verus! {

/// The ledger: for each day number that has a schedule, the slots of that
/// day.
pub type Ledger = Map<int, Slots>;

/// The slots of `day`, read as none where the ledger has no such day.
pub open spec fn day_of(ledger: Ledger, day: int) -> Slots {
    if ledger.contains_key(day) {
        ledger[day]
    } else {
        Map::empty()
    }
}

/// The ledger after a new, pending task is appended at (`day`, `hour`).
pub open spec fn ledger_added(
    ledger: Ledger,
    day: int,
    hour: usize,
    desc: Seq<char>,
) -> Ledger {
    ledger.insert(day, slots_with(day_of(ledger, day), hour, TaskView { completed: false, desc }))
}

/// The ledger after the task at (`day`, `hour`, `index`) is marked done.
/// Where there is no such task, nothing changes.
pub open spec fn ledger_marked(
    ledger: Ledger,
    day: int,
    hour: usize,
    index: int,
) -> Ledger {
    if ledger.contains_key(day) {
        ledger.insert(day, slots_marked(ledger[day], hour, index))
    } else {
        ledger
    }
}

/// What moving a task comes to: the new ledger, or the reason why nothing
/// moves.
pub open spec fn change_outcome(
    ledger: Ledger,
    day: int,
    old_hour: usize,
    index: int,
    new_hour: usize,
) -> Result<Ledger, ChangeError> {
    if !ledger.contains_key(day) {
        Err(ChangeError::AbsentDay)
    } else {
        match slots_move_outcome(ledger[day], old_hour, index, new_hour) {
            Ok(slots) => Ok(ledger.insert(day, slots)),
            Err(e) => Err(e),
        }
    }
}

/// The ledger with every slot of every day normalized.
pub open spec fn ledger_normalized(ledger: Ledger) -> Ledger {
    ledger.map_values(|slots: Slots| slots_normalized(slots))
}

/// Every slot of the ledger stands at an hour of the day, from 0 to 23.
pub open spec fn hours_within_day(ledger: Ledger) -> bool {
    forall|day: int, hour: usize|
        ledger.contains_key(day) && #[trigger] ledger[day].contains_key(hour) ==> hour < 24
}

/// A ledger whose slots stand at hours of the day keeps them there, as long
/// as tasks are added at and moved to hours of the day.
pub proof fn lemma_hours_stay_within_day(
    ledger: Ledger,
    day: int,
    hour: usize,
    index: int,
    new_hour: usize,
    desc: Seq<char>,
)
    requires
        hours_within_day(ledger),
        hour < 24,
        new_hour < 24,
    ensures
        hours_within_day(ledger_added(ledger, day, hour, desc)),
        hours_within_day(ledger_marked(ledger, day, hour, index)),
        change_outcome(ledger, day, hour, index, new_hour) matches Ok(moved) ==> hours_within_day(
            moved,
        ),
        hours_within_day(ledger_normalized(ledger)),
{
    let added = ledger_added(ledger, day, hour, desc);
    assert forall|d: int, h: usize| added.contains_key(d) && #[trigger] added[d].contains_key(
        h,
    ) implies h < 24 by {
        if d != day {
            assert(ledger[d].contains_key(h));
        } else if h != hour {
            assert(day_of(ledger, day).contains_key(h));
            assert(ledger[day].contains_key(h));
        }
    }
    let marked = ledger_marked(ledger, day, hour, index);
    assert forall|d: int, h: usize| marked.contains_key(d) && #[trigger] marked[d].contains_key(
        h,
    ) implies h < 24 by {
        assert(ledger[d].contains_key(h));
    }
    if let Ok(moved) = change_outcome(ledger, day, hour, index, new_hour) {
        assert forall|d: int, h: usize| moved.contains_key(d) && #[trigger] moved[d].contains_key(
            h,
        ) implies h < 24 by {
            if d != day {
                assert(ledger[d].contains_key(h));
            } else if h != new_hour {
                assert(ledger[day].contains_key(h));
            }
        }
    }
    let sorted = ledger_normalized(ledger);
    assert forall|d: int, h: usize| sorted.contains_key(d) && #[trigger] sorted[d].contains_key(
        h,
    ) implies h < 24 by {
        assert(sorted[d] == slots_normalized(ledger[d]));
        assert(ledger[d].contains_key(h));
    }
}

/// No slot of the ledger is empty: an hour either has tasks or has no slot.
pub open spec fn no_empty_slot(ledger: Ledger) -> bool {
    forall|day: int, hour: usize|
        ledger.contains_key(day) && #[trigger] ledger[day].contains_key(hour)
            ==> ledger[day][hour].len() > 0
}

/// No operation of the ledger makes an empty slot: a ledger without one has
/// none after a task is added, marked or moved, nor after normalizing.
pub proof fn lemma_no_empty_slot_is_kept(
    ledger: Ledger,
    day: int,
    hour: usize,
    index: int,
    new_hour: usize,
    desc: Seq<char>,
)
    requires
        no_empty_slot(ledger),
    ensures
        no_empty_slot(ledger_added(ledger, day, hour, desc)),
        no_empty_slot(ledger_marked(ledger, day, hour, index)),
        change_outcome(ledger, day, hour, index, new_hour) matches Ok(moved) ==> no_empty_slot(
            moved,
        ),
        no_empty_slot(ledger_normalized(ledger)),
{
    let added = ledger_added(ledger, day, hour, desc);
    assert forall|d: int, h: usize| added.contains_key(d) && #[trigger] added[d].contains_key(
        h,
    ) implies added[d][h].len() > 0 by {
        if d != day {
            assert(ledger[d].contains_key(h));
        } else if h != hour {
            assert(ledger[day].contains_key(h));
        }
    }
    let marked = ledger_marked(ledger, day, hour, index);
    assert forall|d: int, h: usize| marked.contains_key(d) && #[trigger] marked[d].contains_key(
        h,
    ) implies marked[d][h].len() > 0 by {
        assert(ledger[d].contains_key(h));
    }
    if let Ok(moved) = change_outcome(ledger, day, hour, index, new_hour) {
        assert forall|d: int, h: usize| moved.contains_key(d) && #[trigger] moved[d].contains_key(
            h,
        ) implies moved[d][h].len() > 0 by {
            if d != day {
                assert(ledger[d].contains_key(h));
            } else if h != new_hour {
                assert(ledger[day].contains_key(h));
            }
        }
    }
    let sorted = ledger_normalized(ledger);
    assert forall|d: int, h: usize| sorted.contains_key(d) && #[trigger] sorted[d].contains_key(
        h,
    ) implies sorted[d][h].len() > 0 by {
        assert(sorted[d] == slots_normalized(ledger[d]));
        assert(ledger[d].contains_key(h));
        lemma_normalized_stable(ledger[d][h]);
    }
}

/// Normalizing the ledger twice is the same as normalizing it once.
pub proof fn lemma_order_idempotent(ledger: Ledger)
    ensures
        ledger_normalized(ledger_normalized(ledger)) == ledger_normalized(ledger),
{
    let once = ledger_normalized(ledger);
    let twice = ledger_normalized(once);
    assert forall|day: int| once.contains_key(day) implies #[trigger] twice[day] == once[day] by {
        assert(once[day] == slots_normalized(ledger[day]));
        assert(twice[day] == slots_normalized(once[day]));
        lemma_slots_normalized_idempotent(ledger[day]);
    }
    assert(twice.dom() =~= once.dom());
    assert(twice =~= once);
}

/// Normalizing keeps every day and every slot. Each slot of the result holds
/// the tasks it held before; no done task comes before a pending one, and
/// the tasks of each group stand in the order they had before.
pub proof fn lemma_order_sorts_every_slot(
    ledger: Ledger,
    day: int,
    hour: usize,
)
    ensures
        ledger_normalized(ledger).contains_key(day) == ledger.contains_key(day),
        ledger.contains_key(day) ==> ledger_normalized(ledger)[day].contains_key(hour)
            == ledger[day].contains_key(hour),
        ledger.contains_key(day) && ledger[day].contains_key(hour) ==> {
            let before = ledger[day][hour];
            let after = ledger_normalized(ledger)[day][hour];
            &&& after == normalized(before)
            &&& pending_first(after)
            &&& pending_of(after) == pending_of(before)
            &&& done_of(after) == done_of(before)
            &&& after.to_multiset() == before.to_multiset()
        },
{
    if ledger.contains_key(day) {
        let after = ledger_normalized(ledger)[day];
        assert(after == slots_normalized(ledger[day]));
        if ledger[day].contains_key(hour) {
            assert(after[hour] == normalized(ledger[day][hour]));
            lemma_normalized_pending_first(ledger[day][hour]);
            lemma_normalized_stable(ledger[day][hour]);
            lemma_normalized_permutes(ledger[day][hour]);
        }
    }
}

/// A task added to a slot that held none, and then marked at index 0, is
/// the slot's one task, and it is done.
pub proof fn lemma_add_then_mark(
    ledger: Ledger,
    day: int,
    hour: usize,
    desc: Seq<char>,
)
    requires
        slot_of(day_of(ledger, day), hour).len() == 0,
    ensures
        ledger_marked(ledger_added(ledger, day, hour, desc), day, hour, 0)[day][hour] == seq![
            TaskView { completed: true, desc },
        ],
        ledger_marked(ledger_added(ledger, day, hour, desc), day, hour, 0).contains_key(day),
        ledger_marked(ledger_added(ledger, day, hour, desc), day, hour, 0)[day].contains_key(hour),
{
    let added = ledger_added(ledger, day, hour, desc);
    let slot = slot_of(day_of(ledger, day), hour);
    assert(slot =~= Seq::<TaskView>::empty());
    assert(added[day][hour] =~= seq![TaskView { completed: false, desc }]);
    assert(ledger_marked(added, day, hour, 0)[day][hour] =~= seq![
        TaskView { completed: true, desc },
    ]);
}

/// Moving a task on a date that the ledger does not hold is refused as an
/// absent day.
pub proof fn lemma_change_absent_day(
    ledger: Ledger,
    day: int,
    old_hour: usize,
    index: int,
    new_hour: usize,
)
    requires
        !ledger.contains_key(day),
    ensures
        change_outcome(ledger, day, old_hour, index, new_hour) matches Err(error) && error
            == ChangeError::AbsentDay,
{
}

/// A move that takes the one task out of a slot leaves the day without a
/// slot at that hour, and the task at the end of the slot it went to.
pub proof fn lemma_change_drops_emptied_slot(
    ledger: Ledger,
    day: int,
    old_hour: usize,
    new_hour: usize,
)
    requires
        ledger.contains_key(day),
        ledger[day].contains_key(old_hour),
        ledger[day][old_hour].len() == 1,
        old_hour != new_hour,
    ensures
        change_outcome(ledger, day, old_hour, 0, new_hour) is Ok,
        ({
            let after = change_outcome(ledger, day, old_hour, 0, new_hour).unwrap();
            &&& after.contains_key(day)
            &&& !after[day].contains_key(old_hour)
            &&& after[day].contains_key(new_hour)
            &&& after[day][new_hour] == slot_of(ledger[day], new_hour).push(
                ledger[day][old_hour][0],
            )
        }),
{
    lemma_move_drops_emptied_slot(ledger[day], old_hour, 0, new_hour);
}

} // verus!
