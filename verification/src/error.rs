//! What can go wrong with a task list.

use crate::model::TaskErrorView;
use crate::text::to_decimal;
use vstd::prelude::*;

verus! {

/// The failures that the operations of a task list report.
#[derive(Debug, PartialEq, Eq)]
pub enum TaskError {
    /// The stored list could not be read, understood or written; the text
    /// says why.
    FileError(String),
    /// No task has this identifier.
    TaskNotFound(usize),
    /// What was given is no description of a task; the text says why.
    InvalidInput(String),
}

impl View for TaskError {
    type V = TaskErrorView;

    open spec fn view(&self) -> TaskErrorView {
        match self {
            TaskError::FileError(reason) => TaskErrorView::FileError(reason@),
            TaskError::TaskNotFound(id) => TaskErrorView::TaskNotFound(*id as nat),
            TaskError::InvalidInput(reason) => TaskErrorView::InvalidInput(reason@),
        }
    }
}

impl TaskError {
    /// The failure in words, for the user to read.
    pub fn message(&self) -> (text: String)
        ensures
            text@ == self@.message(),
    {
        match self {
            TaskError::FileError(reason) => String::from_str("File Error: ").concat(
                reason.as_str(),
            ),
            TaskError::TaskNotFound(id) => String::from_str("Task with ID ").concat(
                to_decimal(*id).as_str(),
            ).concat(" not found"),
            TaskError::InvalidInput(reason) => String::from_str("Invalid Input: ").concat(
                reason.as_str(),
            ),
        }
    }
}

} // verus!
