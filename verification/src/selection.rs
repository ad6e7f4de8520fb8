//! What a view is asked to show.

use crate::date::{is_date, Date};
use vstd::prelude::*;

verus! {

/// What is to be shown: the next so many days from today on, or one date.
#[derive(Clone, Copy, Debug, PartialEq, Eq, Structural)]
pub enum ShowSet {
    Days(usize),
    Date(Date),
}

/// The mathematical content of a [`ShowSet`].
pub enum ShowSetView {
    Days(nat),
    Date(int),
}

impl View for ShowSet {
    type V = ShowSetView;

    open spec fn view(&self) -> ShowSetView {
        match *self {
            ShowSet::Days(count) => ShowSetView::Days(count as nat),
            ShowSet::Date(date) => ShowSetView::Date(date@),
        }
    }
}

/// The first `count` days from `today` on, cut short where the calendar ends.
pub open spec fn days_shown(today: int, count: nat) -> Seq<int>
    decreases count,
{
    if count == 0 {
        Seq::empty()
    } else {
        let before = days_shown(today, (count - 1) as nat);
        let day = today + count - 1;
        if before.len() == count - 1 && is_date(day) {
            before.push(day)
        } else {
            before
        }
    }
}

/// The days that a selection shows, in order.
pub open spec fn selection_days(selection: ShowSetView, today: int) -> Seq<int> {
    match selection {
        ShowSetView::Days(count) => days_shown(today, count),
        ShowSetView::Date(day) => seq![day],
    }
}

/// Once the calendar has ended, asking for more days shows no more.
pub proof fn lemma_days_shown_stops(today: int, reached: nat, count: nat)
    requires
        reached <= count,
        days_shown(today, reached).len() == reached,
        !is_date(today + reached),
    ensures
        days_shown(today, count) == days_shown(today, reached),
    decreases count,
{
    if count > reached {
        lemma_days_shown_stops(today, reached, (count - 1) as nat);
    }
}

} // verus!
