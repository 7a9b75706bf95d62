//! The mathematical model of a task list: what a task and a list are, and
//! what each operation makes of a list.

use crate::text::{blank, decimal};
use vstd::prelude::*;

verus! {

/// A task as a value: its identifier, its description and whether it is done.
pub struct TaskView {
    pub id: nat,
    pub description: Seq<char>,
    pub completed: bool,
}

impl TaskView {
    /// The task that a list makes of a description: not done yet.
    pub open spec fn fresh(id: nat, description: Seq<char>) -> TaskView {
        TaskView { id, description, completed: false }
    }

    /// The same task, done.
    pub open spec fn done(self) -> TaskView {
        TaskView { id: self.id, description: self.description, completed: true }
    }

    /// Whether `self` is what `earlier` has become: it has the same
    /// identifier and the same description, and is done if `earlier` was.
    pub open spec fn continues(self, earlier: TaskView) -> bool {
        &&& self.id == earlier.id
        &&& self.description == earlier.description
        &&& earlier.completed ==> self.completed
    }

    /// The mark of a task that is done, and of one that is not.
    pub open spec fn mark(self) -> Seq<char> {
        if self.completed {
            "x"@
        } else {
            " "@
        }
    }

    /// The line that shows the task: its number, a full stop, its mark in
    /// square brackets, a dash, and its description.
    pub open spec fn line(self) -> Seq<char> {
        decimal(self.id) + ". ["@ + self.mark() + "] - "@ + self.description
    }

    /// A task of a sound list has a positive identifier and a description
    /// that is not blank.
    pub open spec fn valid(self) -> bool {
        self.id > 0 && !blank(self.description)
    }
}

/// A task list as a value: the tasks in the order in which they were added,
/// and the identifier that the next task will get.
#[verifier::ext_equal]
pub struct TaskListView {
    pub tasks: Seq<TaskView>,
    pub next_id: nat,
}

impl TaskListView {
    /// The list that holds no task yet: its first task will be number 1.
    pub open spec fn empty() -> TaskListView {
        TaskListView { tasks: Seq::empty(), next_id: 1 }
    }

    /// Whether some task has the identifier `id`.
    pub open spec fn has(self, id: nat) -> bool {
        exists|i: int| 0 <= i < self.tasks.len() && (#[trigger] self.tasks[i]).id == id
    }

    /// Whether no task at `i` or before it has the identifier `id`.
    pub open spec fn none_up_to(self, id: nat, i: int) -> bool {
        forall|j: int| 0 <= j <= i && j < self.tasks.len() ==> (#[trigger] self.tasks[j]).id != id
    }

    /// Whether the first task with the identifier `id` stands at `i`.
    pub open spec fn first_at(self, id: nat, i: int) -> bool {
        &&& 0 <= i < self.tasks.len()
        &&& self.tasks[i].id == id
        &&& self.none_up_to(id, i - 1)
    }

    /// Where the first task with the identifier `id` stands, if there is one.
    pub open spec fn index_of(self, id: nat) -> int {
        choose|i: int| self.first_at(id, i)
    }

    /// A list is sound when every task is valid, no identifier occurs twice,
    /// and every identifier is below the one that comes next, which is
    /// positive too.
    pub open spec fn well_formed(self) -> bool {
        &&& self.next_id > 0
        &&& forall|i: int|
            0 <= i < self.tasks.len() ==> {
                &&& (#[trigger] self.tasks[i]).valid()
                &&& self.tasks[i].id < self.next_id
            }
        &&& forall|i: int, j: int|
            0 <= i < j < self.tasks.len() ==> (#[trigger] self.tasks[i]).id != (
            #[trigger] self.tasks[j]).id
    }

    /// The list after a task with this description was added at its end.
    pub open spec fn add(self, description: Seq<char>) -> TaskListView {
        TaskListView {
            tasks: self.tasks.push(TaskView::fresh(self.next_id, description)),
            next_id: self.next_id + 1,
        }
    }

    /// The list after the first task with the identifier `id` was marked as
    /// done: every other task is as it was. Where there is no such task, that
    /// is the list itself.
    pub open spec fn complete(self, id: nat) -> TaskListView {
        TaskListView {
            tasks: Seq::new(
                self.tasks.len(),
                |i: int|
                    if self.first_at(id, i) {
                        self.tasks[i].done()
                    } else {
                        self.tasks[i]
                    },
            ),
            next_id: self.next_id,
        }
    }

    /// The list after the first task with the identifier `id` was taken out:
    /// the tasks before it keep their places, and those after it move up by
    /// one. Where there is no such task, that is the list itself.
    pub open spec fn remove(self, id: nat) -> TaskListView {
        TaskListView {
            tasks: Seq::new(
                if self.has(id) {
                    (self.tasks.len() - 1) as nat
                } else {
                    self.tasks.len()
                },
                |i: int|
                    if self.none_up_to(id, i) {
                        self.tasks[i]
                    } else {
                        self.tasks[i + 1]
                    },
            ),
            next_id: self.next_id,
        }
    }

    /// The tasks that are done, in the order of the list.
    pub open spec fn completed(self) -> Seq<TaskView> {
        self.tasks.filter(|task: TaskView| task.completed)
    }

    /// The first task with a given identifier stands at one place only.
    pub proof fn lemma_first_at_unique(self, id: nat, i: int, j: int)
        requires
            self.first_at(id, i),
            self.first_at(id, j),
        ensures
            i == j,
    {
    }

    /// Where a task with the identifier stands at `at`, a first one stands at
    /// or before `at`.
    pub proof fn lemma_first_exists(self, id: nat, at: int) -> (first: int)
        requires
            0 <= at < self.tasks.len(),
            self.tasks[at].id == id,
        ensures
            self.first_at(id, first),
            first <= at,
        decreases at,
    {
        if exists|j: int| 0 <= j < at && (#[trigger] self.tasks[j]).id == id {
            let j = choose|j: int| 0 <= j < at && (#[trigger] self.tasks[j]).id == id;
            self.lemma_first_exists(id, j)
        } else {
            at
        }
    }

    /// What `index_of` gives: the place of the first task with the
    /// identifier, whenever the list has one.
    pub proof fn lemma_index_of(self, id: nat)
        requires
            self.has(id),
        ensures
            self.first_at(id, self.index_of(id)),
    {
        let at = choose|i: int| 0 <= i < self.tasks.len() && (#[trigger] self.tasks[i]).id == id;
        let first = self.lemma_first_exists(id, at);
    }

    /// A place that is known to be the first is the one that `index_of` gives.
    pub proof fn lemma_index_of_is(self, id: nat, i: int)
        requires
            self.first_at(id, i),
        ensures
            self.has(id),
            self.index_of(id) == i,
    {
        self.lemma_first_at_unique(id, i, self.index_of(id));
    }
}

/// A failure as a value.
pub enum TaskErrorView {
    FileError(Seq<char>),
    TaskNotFound(nat),
    InvalidInput(Seq<char>),
}

impl TaskErrorView {
    /// The failure in words.
    pub open spec fn message(self) -> Seq<char> {
        match self {
            TaskErrorView::FileError(reason) => "File Error: "@ + reason,
            TaskErrorView::TaskNotFound(id) => "Task with ID "@ + decimal(id) + " not found"@,
            TaskErrorView::InvalidInput(reason) => "Invalid Input: "@ + reason,
        }
    }
}

/// What was found where the list is kept, as a value.
pub enum DocumentView {
    Missing,
    Unreadable(Seq<char>),
    Malformed(Seq<char>),
    Stored(TaskListView),
}

impl DocumentView {
    /// The list that a document stands for: the empty list where nothing is
    /// kept yet, the list exactly as it is kept where there is one, and a
    /// failure with the reason where the document could not be read or is no
    /// task list.
    pub open spec fn loaded(self) -> Result<TaskListView, TaskErrorView> {
        match self {
            DocumentView::Missing => Ok(TaskListView::empty()),
            DocumentView::Unreadable(reason) => Err(TaskErrorView::FileError(reason)),
            DocumentView::Malformed(reason) => Err(TaskErrorView::FileError(reason)),
            DocumentView::Stored(list) => Ok(list),
        }
    }
}

/// A command as a value.
pub enum CommandView {
    Add { task: Seq<char> },
    List,
    ListCompleted,
    Complete { id: nat },
    Remove { id: nat },
}

/// What a command asks to be done next, as a value.
pub enum OutcomeView {
    Save(TaskListView),
    Show(Seq<TaskView>),
}

/// Why a blank description is refused.
pub open spec fn blank_description() -> Seq<char> {
    "Task description cannot be empty"@
}

impl TaskListView {
    /// What a command makes of the list. A command that changes the list
    /// gives the changed list, to be kept; one that asks for tasks gives them,
    /// to be shown, in the order of the list. A blank description and an
    /// identifier that no task has are failures, and nothing is to be kept.
    pub open spec fn run(self, command: CommandView) -> Result<OutcomeView, TaskErrorView> {
        match command {
            CommandView::Add { task } => if blank(task) {
                Err(TaskErrorView::InvalidInput(blank_description()))
            } else {
                Ok(OutcomeView::Save(self.add(task)))
            },
            CommandView::List => Ok(OutcomeView::Show(self.tasks)),
            CommandView::ListCompleted => Ok(OutcomeView::Show(self.completed())),
            CommandView::Complete { id } => if self.has(id) {
                Ok(OutcomeView::Save(self.complete(id)))
            } else {
                Err(TaskErrorView::TaskNotFound(id))
            },
            CommandView::Remove { id } => if self.has(id) {
                Ok(OutcomeView::Save(self.remove(id)))
            } else {
                Err(TaskErrorView::TaskNotFound(id))
            },
        }
    }

    /// The list that is kept once a command has run: the changed list, or the
    /// list as it was where the command shows tasks or fails.
    pub open spec fn after(self, command: CommandView) -> TaskListView {
        match self.run(command) {
            Ok(OutcomeView::Save(list)) => list,
            _ => self,
        }
    }

    /// The list that is kept once all these commands have run, one after the
    /// other.
    pub open spec fn after_all(self, commands: Seq<CommandView>) -> TaskListView
        decreases commands.len(),
    {
        if commands.len() == 0 {
            self
        } else {
            self.after_all(commands.drop_last()).after(commands.last())
        }
    }
}

} // verus!
