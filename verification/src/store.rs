//! The task list and its operations.

use crate::error::TaskError;
use crate::laws::{
    lemma_add, lemma_add_well_formed, lemma_complete, lemma_complete_well_formed, lemma_remove,
    lemma_remove_well_formed,
};
use crate::model::{blank_description, TaskErrorView, TaskListView, TaskView};
use crate::task::{views, Task};
use crate::text::{blank, is_blank};
use vstd::prelude::*;

verus! {

/// The tasks in the order in which they were added, and the identifier that
/// the next task will get.
#[derive(Debug, PartialEq, Eq)]
pub struct TaskList {
    pub tasks: Vec<Task>,
    pub next_id: usize,
}

impl View for TaskList {
    type V = TaskListView;

    open spec fn view(&self) -> TaskListView {
        TaskListView {
            tasks: views(self.tasks@),
            next_id: self.next_id as nat,
        }
    }
}

impl TaskList {
    /// Whether the list is sound: see [`TaskListView::well_formed`].
    pub open spec fn well_formed(&self) -> bool {
        self@.well_formed()
    }

    /// A list without tasks, whose first task will be number 1.
    pub fn new() -> (list: TaskList)
        ensures
            list@ == TaskListView::empty(),
            list.well_formed(),
    {
        TaskList { tasks: Vec::new(), next_id: 1 }
    }

    /// Adds a task with this description, as it was given, at the end of the
    /// list, under the identifier that comes next. A blank description is
    /// refused and the list stays as it is. The list must have an identifier
    /// left to give after this one.
    pub fn add_task(&mut self, description: String) -> (result: Result<(), TaskError>)
        requires
            !blank(description@) ==> old(self).next_id < usize::MAX,
        ensures
            blank(description@) ==> {
                &&& result is Err
                &&& result->Err_0@ == TaskErrorView::InvalidInput(blank_description())
                &&& *final(self) == *old(self)
            },
            !blank(description@) ==> {
                &&& result is Ok
                &&& final(self)@ == old(self)@.add(description@)
                &&& final(self)@.tasks.len() == old(self)@.tasks.len() + 1
                &&& final(self)@.tasks.last() == TaskView::fresh(
                    old(self)@.next_id,
                    description@,
                )
                &&& forall|id: nat|
                    #![trigger final(self)@.has(id)]
                    #![trigger old(self)@.has(id)]
                    final(self)@.has(id) <==> old(self)@.has(id) || id == old(self)@.next_id
            },
            old(self).well_formed() ==> final(self).well_formed(),
    {
        if is_blank(description.as_str()) {
            return Err(TaskError::InvalidInput("Task description cannot be empty".to_string()));
        }
        let task = Task { id: self.next_id, description, completed: false };
        self.tasks.push(task);
        self.next_id += 1;
        proof {
            lemma_add(old(self)@, description@);
            if old(self).well_formed() {
                lemma_add_well_formed(old(self)@, description@);
            }
        }
        Ok(())
    }

    /// The tasks of the list, in its order.
    pub fn list_tasks(&self) -> (tasks: Vec<Task>)
        ensures
            tasks@ == self.tasks@,
            views(tasks@) == self@.tasks,
    {
        let mut tasks: Vec<Task> = Vec::new();
        let mut i: usize = 0;
        while i < self.tasks.len()
            invariant
                i <= self.tasks.len(),
                tasks@ == self.tasks@.take(i as int),
            decreases self.tasks.len() - i,
        {
            tasks.push(self.tasks[i].clone());
            i += 1;
        }
        tasks
    }

    /// The tasks of the list that are done, in its order.
    pub fn list_completed_tasks(&self) -> (done: Vec<Task>)
        ensures
            done@ == self.tasks@.filter(|task: Task| task.completed),
            views(done@) == self@.completed(),
    {
        let ghost is_done = |task: Task| task.completed;
        let mut done: Vec<Task> = Vec::new();
        let mut i: usize = 0;
        while i < self.tasks.len()
            invariant
                i <= self.tasks.len(),
                is_done == |task: Task| task.completed,
                done@ == self.tasks@.take(i as int).filter(is_done),
            decreases self.tasks.len() - i,
        {
            proof {
                let seen = self.tasks@.take(i as int);
                assert(self.tasks@.take(i + 1) =~= seen.push(self.tasks@[i as int]));
                seen.lemma_filter_push(self.tasks@[i as int], is_done);
            }
            if self.tasks[i].completed {
                done.push(self.tasks[i].clone());
            }
            i += 1;
        }
        proof {
            assert(self.tasks@.take(i as int) =~= self.tasks@);
            vstd::seq_lib::lemma_filter_view_commute(
                self.tasks@,
                is_done,
                |task: TaskView| task.completed,
            );
        }
        done
    }

    /// Where the first task with the identifier `id` stands, if the list has
    /// one.
    fn position(&self, id: usize) -> (found: Option<usize>)
        ensures
            match found {
                Some(i) => self@.first_at(id as nat, i as int),
                None => !self@.has(id as nat),
            },
    {
        let mut i: usize = 0;
        while i < self.tasks.len()
            invariant
                i <= self.tasks.len(),
                forall|j: int| 0 <= j < i ==> (#[trigger] self@.tasks[j]).id != id as nat,
            decreases self.tasks.len() - i,
        {
            if self.tasks[i].id == id {
                return Some(i);
            }
            i += 1;
        }
        None
    }

    /// Marks the first task with the identifier `id` as done; one that was
    /// done stays so. Where no task has the identifier, the list stays as it
    /// is and the failure names the identifier.
    pub fn complete_task(&mut self, id: usize) -> (result: Result<(), TaskError>)
        ensures
            old(self)@.has(id as nat) ==> result is Ok,
            !old(self)@.has(id as nat) ==> result == Err::<(), TaskError>(
                TaskError::TaskNotFound(id),
            ) && *final(self) == *old(self),
            final(self)@ == old(self)@.complete(id as nat),
            forall|other: nat|
                #![trigger final(self)@.has(other)]
                #![trigger old(self)@.has(other)]
                final(self)@.has(other) <==> old(self)@.has(other),
            old(self).well_formed() ==> final(self).well_formed(),
    {
        match self.position(id) {
            Some(i) => {
                self.tasks[i].completed = true;
                proof {
                    old(self)@.lemma_index_of_is(id as nat, i as int);
                    lemma_complete(old(self)@, id as nat);
                    if old(self).well_formed() {
                        lemma_complete_well_formed(old(self)@, id as nat);
                    }
                }
                Ok(())
            },
            None => Err(TaskError::TaskNotFound(id)),
        }
    }

    /// Takes the first task with the identifier `id` out of the list; the
    /// other tasks stay as they are and in their order, and the identifier
    /// that comes next stays too. Where no task has the identifier, the list
    /// stays as it is and the failure names the identifier.
    pub fn remove_task(&mut self, id: usize) -> (result: Result<(), TaskError>)
        ensures
            old(self)@.has(id as nat) ==> result is Ok && final(self)@.tasks.len() == old(
                self,
            )@.tasks.len() - 1,
            !old(self)@.has(id as nat) ==> result == Err::<(), TaskError>(
                TaskError::TaskNotFound(id),
            ) && *final(self) == *old(self),
            final(self)@ == old(self)@.remove(id as nat),
            forall|other: nat|
                #![trigger final(self)@.has(other)]
                #![trigger old(self)@.has(other)]
                other != id ==> (final(self)@.has(other) <==> old(self)@.has(other)),
            old(self).well_formed() ==> final(self).well_formed() && !final(self)@.has(id as nat),
    {
        match self.position(id) {
            Some(i) => {
                self.tasks.remove(i);
                proof {
                    old(self)@.lemma_index_of_is(id as nat, i as int);
                    lemma_remove(old(self)@, id as nat);
                    if old(self).well_formed() {
                        lemma_remove_well_formed(old(self)@, id as nat);
                    }
                }
                Ok(())
            },
            None => Err(TaskError::TaskNotFound(id)),
        }
    }
}

} // verus!
