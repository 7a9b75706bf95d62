use task_list::Task;
use task_list::TaskError;

#[test]
fn message_of_a_file_error() {
    assert_eq!(
        TaskError::FileError("No such device".to_string()).message(),
        "File Error: No such device"
    );
    assert_eq!(TaskError::FileError(String::new()).message(), "File Error: ");
}

#[test]
fn message_of_a_missing_task() {
    assert_eq!(TaskError::TaskNotFound(100).message(), "Task with ID 100 not found");
    assert_eq!(TaskError::TaskNotFound(0).message(), "Task with ID 0 not found");
    assert_eq!(
        TaskError::TaskNotFound(usize::MAX).message(),
        format!("Task with ID {} not found", usize::MAX)
    );
}

#[test]
fn message_of_an_invalid_input() {
    assert_eq!(
        TaskError::InvalidInput("Task description cannot be empty".to_string()).message(),
        "Invalid Input: Task description cannot be empty"
    );
}

#[test]
fn line_of_a_task() {
    let open = Task { id: 2, description: "Walk dog".to_string(), completed: false };
    assert_eq!(open.line(), "2. [ ] - Walk dog");
    let done = Task { id: 17, description: "Buy milk".to_string(), completed: true };
    assert_eq!(done.line(), "17. [x] - Buy milk");
}
