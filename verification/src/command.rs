//! The front end's decisions: what a stored document stands for, and what a
//! command makes of a task list.

use crate::error::TaskError;
use crate::model::{CommandView, DocumentView, OutcomeView, TaskErrorView, TaskListView};
use crate::store::TaskList;
use crate::task::{views, Task};
use crate::text::blank;
use vstd::prelude::*;

verus! {

/// What was found where the list is kept.
#[derive(Debug, PartialEq, Eq)]
pub enum Document {
    /// Nothing is kept there yet.
    Missing,
    /// Something is there that could not be read; the text says why.
    Unreadable(String),
    /// What is there is no task list; the text says why.
    Malformed(String),
    /// The tasks and the identifier that comes next, as they are kept there.
    Stored { tasks: Vec<Task>, next_id: usize },
}

impl View for Document {
    type V = DocumentView;

    open spec fn view(&self) -> DocumentView {
        match self {
            Document::Missing => DocumentView::Missing,
            Document::Unreadable(reason) => DocumentView::Unreadable(reason@),
            Document::Malformed(reason) => DocumentView::Malformed(reason@),
            Document::Stored { tasks, next_id } => DocumentView::Stored(
                TaskListView { tasks: views(tasks@), next_id: *next_id as nat },
            ),
        }
    }
}

/// What the front end is asked to do.
#[derive(Debug, PartialEq, Eq)]
pub enum Command {
    /// Add a task with this description.
    Add { task: String },
    /// Show all tasks.
    List,
    /// Show the tasks that are done.
    ListCompleted,
    /// Mark the task with this identifier as done.
    Complete { id: usize },
    /// Take the task with this identifier out of the list.
    Remove { id: usize },
}

impl View for Command {
    type V = CommandView;

    open spec fn view(&self) -> CommandView {
        match self {
            Command::Add { task } => CommandView::Add { task: task@ },
            Command::List => CommandView::List,
            Command::ListCompleted => CommandView::ListCompleted,
            Command::Complete { id } => CommandView::Complete { id: *id as nat },
            Command::Remove { id } => CommandView::Remove { id: *id as nat },
        }
    }
}

/// What is to be done once a command has run.
#[derive(Debug, PartialEq, Eq)]
pub enum Outcome {
    /// The list has changed: keep it.
    Save(TaskList),
    /// These tasks were asked for: show them. Nothing is to be kept.
    Show(Vec<Task>),
}

impl View for Outcome {
    type V = OutcomeView;

    open spec fn view(&self) -> OutcomeView {
        match self {
            Outcome::Save(list) => OutcomeView::Save(list@),
            Outcome::Show(tasks) => OutcomeView::Show(views(tasks@)),
        }
    }
}

impl TaskList {
    /// The list that a document stands for. Where nothing is kept yet, that
    /// is the list without tasks, and no failure. A list that is kept comes
    /// back as it is: the same tasks in the same order, and the identifier
    /// that comes next as it was written, whatever the tasks are.
    pub fn from_document(document: Document) -> (result: Result<TaskList, TaskError>)
        ensures
            match result {
                Ok(list) => document@.loaded() == Ok::<TaskListView, TaskErrorView>(list@),
                Err(error) => document@.loaded() == Err::<TaskListView, TaskErrorView>(error@),
            },
            document matches Document::Stored { tasks, next_id } ==> result == Ok::<_, TaskError>(
                TaskList { tasks, next_id },
            ),
            result matches Ok(list) ==> (list.well_formed() <==> (document@ matches DocumentView::Stored(
                kept,
            ) ==> kept.well_formed())),
    {
        match document {
            Document::Missing => Ok(TaskList::new()),
            Document::Unreadable(reason) => Err(TaskError::FileError(reason)),
            Document::Malformed(reason) => Err(TaskError::FileError(reason)),
            Document::Stored { tasks, next_id } => Ok(TaskList { tasks, next_id }),
        }
    }
}

/// Runs one command on the list and says what is to be done next: keep the
/// changed list, or show the tasks that were asked for. A command that fails
/// leaves nothing to keep. Each command goes to the operation of its name,
/// with the description or the identifier that it carries. To add a task, the
/// list must have an identifier left to give after this one.
pub fn run_command(task_list: TaskList, command: Command) -> (result: Result<Outcome, TaskError>)
    requires
        command matches Command::Add { task } ==> !blank(task@) ==> task_list.next_id < usize::MAX,
    ensures
        match result {
            Ok(outcome) => task_list@.run(command@) == Ok::<OutcomeView, TaskErrorView>(outcome@),
            Err(error) => task_list@.run(command@) == Err::<OutcomeView, TaskErrorView>(error@),
        },
        task_list.well_formed() ==> (result matches Ok(Outcome::Save(list)) ==> list.well_formed()),
{
    let mut task_list = task_list;
    match command {
        Command::Add { task } => {
            task_list.add_task(task)?;
            Ok(Outcome::Save(task_list))
        },
        Command::List => Ok(Outcome::Show(task_list.list_tasks())),
        Command::ListCompleted => Ok(Outcome::Show(task_list.list_completed_tasks())),
        Command::Complete { id } => {
            task_list.complete_task(id)?;
            Ok(Outcome::Save(task_list))
        },
        Command::Remove { id } => {
            task_list.remove_task(id)?;
            Ok(Outcome::Save(task_list))
        },
    }
}

} // verus!
