//! A single entry of the ledger.

use vstd::prelude::*;

verus! {

/// The mathematical content of a [`Task`].
pub struct TaskView {
    pub completed: bool,
    pub desc: Seq<char>,
}

/// One thing to do: a description and whether it has been done.
#[derive(Debug)]
pub struct Task {
    completed: bool,
    desc: String,
}

impl View for Task {
    type V = TaskView;

    closed spec fn view(&self) -> TaskView {
        TaskView { completed: self.completed, desc: self.desc@ }
    }
}

impl Task {
    /// A task that is still to be done.
    pub fn new(desc: String) -> (task: Task)
        ensures
            task@ == (TaskView { completed: false, desc: desc@ }),
    {
        Task { completed: false, desc }
    }

    /// A task in a given state, as read back from storage.
    pub fn with_state(desc: String, completed: bool) -> (task: Task)
        ensures
            task@ == (TaskView { completed, desc: desc@ }),
    {
        Task { completed, desc }
    }

    /// Marks the task as done. Marking twice is the same as marking once.
    pub fn mark_complete(&mut self)
        ensures
            final(self)@ == (TaskView { completed: true, desc: old(self)@.desc }),
    {
        self.completed = true;
    }

    /// Whether the task has been done.
    pub fn is_completed(&self) -> (completed: bool)
        ensures
            completed == self@.completed,
    {
        self.completed
    }

    /// What the task is.
    pub fn description(&self) -> (desc: &str)
        ensures
            desc@ == self@.desc,
    {
        self.desc.as_str()
    }
}

/// The contents of a list of tasks, in order.
pub open spec fn tasks_view(tasks: Seq<Task>) -> Seq<TaskView> {
    tasks.map_values(|t: Task| t@)
}

} // verus!
