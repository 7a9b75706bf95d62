//! A task.

use crate::model::TaskView;
use crate::text::to_decimal;
use vstd::prelude::*;

verus! {

/// One thing to do: its identifier, what it is, and whether it is done.
#[derive(Debug, PartialEq, Eq)]
pub struct Task {
    pub id: usize,
    pub description: String,
    pub completed: bool,
}

impl View for Task {
    type V = TaskView;

    open spec fn view(&self) -> TaskView {
        TaskView { id: self.id as nat, description: self.description@, completed: self.completed }
    }
}

impl Task {
    /// The line that shows the task to the user.
    pub fn line(&self) -> (text: String)
        ensures
            text@ == self@.line(),
    {
        let mark = if self.completed {
            "x"
        } else {
            " "
        };
        to_decimal(self.id).concat(". [").concat(mark).concat("] - ").concat(
            self.description.as_str(),
        )
    }
}

/// The tasks of a sequence, each as a value.
pub open spec fn views(tasks: Seq<Task>) -> Seq<TaskView> {
    tasks.map_values(|task: Task| task@)
}

impl Clone for Task {
    fn clone(&self) -> (copy: Task)
        ensures
            copy == *self,
    {
        Task { id: self.id, description: self.description.clone(), completed: self.completed }
    }
}

} // verus!
