//! A task list: tasks with identifiers that are handed out once and never
//! again, the operations that add, complete, remove and list them, and the
//! decisions of the command-line front end, stated over a mathematical model
//! and proved against it.

pub mod command;
pub mod error;
pub mod laws;
pub mod model;
pub mod store;
pub mod task;
pub mod text;

pub use command::{run_command, Command, Document, Outcome};
pub use error::TaskError;
pub use store::TaskList;
pub use task::Task;
