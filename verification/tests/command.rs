use task_list::run_command;
use task_list::Command;
use task_list::Document;
use task_list::Outcome;
use task_list::Task;
use task_list::TaskError;
use task_list::TaskList;

fn task(id: usize, description: &str, completed: bool) -> Task {
    Task { id, description: description.to_string(), completed }
}

fn sample() -> TaskList {
    TaskList {
        tasks: vec![task(1, "Task 1", false), task(2, "Task 2", true), task(3, "Task 3", false)],
        next_id: 4,
    }
}

#[test]
fn missing_document_is_an_empty_list() {
    assert_eq!(
        TaskList::from_document(Document::Missing),
        Ok(TaskList { tasks: Vec::new(), next_id: 1 })
    );
}

#[test]
fn stored_document_comes_back_as_it_is() {
    let document = Document::Stored { tasks: sample().tasks, next_id: sample().next_id };
    assert_eq!(TaskList::from_document(document), Ok(sample()));
}

#[test]
fn stored_counter_is_not_worked_out_from_the_tasks() {
    let document = Document::Stored { tasks: Vec::new(), next_id: 50 };
    assert_eq!(
        TaskList::from_document(document),
        Ok(TaskList { tasks: Vec::new(), next_id: 50 })
    );
    let document = Document::Stored { tasks: vec![task(3, "Only", false)], next_id: 9 };
    assert_eq!(
        TaskList::from_document(document),
        Ok(TaskList { tasks: vec![task(3, "Only", false)], next_id: 9 })
    );
}

#[test]
fn unreadable_document_is_a_file_error() {
    assert_eq!(
        TaskList::from_document(Document::Unreadable("Permission denied".to_string())),
        Err(TaskError::FileError("Permission denied".to_string()))
    );
}

#[test]
fn malformed_document_is_a_file_error() {
    assert_eq!(
        TaskList::from_document(Document::Malformed("missing field `next_id`".to_string())),
        Err(TaskError::FileError("missing field `next_id`".to_string()))
    );
}

#[test]
fn add_command_saves_the_longer_list() {
    let result = run_command(sample(), Command::Add { task: "Task 4".to_string() });
    let mut expected = sample();
    expected.tasks.push(task(4, "Task 4", false));
    expected.next_id = 5;
    assert_eq!(result, Ok(Outcome::Save(expected)));
}

#[test]
fn add_command_with_a_blank_description_saves_nothing() {
    let result = run_command(sample(), Command::Add { task: " \t".to_string() });
    assert_eq!(
        result,
        Err(TaskError::InvalidInput("Task description cannot be empty".to_string()))
    );
}

#[test]
fn list_command_shows_all_tasks() {
    assert_eq!(run_command(sample(), Command::List), Ok(Outcome::Show(sample().tasks)));
    assert_eq!(run_command(TaskList::new(), Command::List), Ok(Outcome::Show(Vec::new())));
}

#[test]
fn list_completed_command_shows_the_done_tasks() {
    assert_eq!(
        run_command(sample(), Command::ListCompleted),
        Ok(Outcome::Show(vec![task(2, "Task 2", true)]))
    );
}

#[test]
fn complete_command_saves_the_changed_list() {
    let mut expected = sample();
    expected.tasks[2].completed = true;
    assert_eq!(
        run_command(sample(), Command::Complete { id: 3 }),
        Ok(Outcome::Save(expected))
    );
    assert_eq!(
        run_command(sample(), Command::Complete { id: 2 }),
        Ok(Outcome::Save(sample()))
    );
    assert_eq!(
        run_command(sample(), Command::Complete { id: 4 }),
        Err(TaskError::TaskNotFound(4))
    );
}

#[test]
fn remove_command_removes_the_task_it_names() {
    let mut expected = sample();
    expected.tasks.remove(2);
    assert_eq!(run_command(sample(), Command::Remove { id: 3 }), Ok(Outcome::Save(expected)));
    let mut expected = sample();
    expected.tasks.remove(0);
    assert_eq!(run_command(sample(), Command::Remove { id: 1 }), Ok(Outcome::Save(expected)));
    assert_eq!(
        run_command(sample(), Command::Remove { id: 7 }),
        Err(TaskError::TaskNotFound(7))
    );
}

#[test]
fn commands_one_after_the_other_from_a_missing_document() {
    let mut list = TaskList::from_document(Document::Missing).unwrap();
    let commands = vec![
        Command::Add { task: "Buy milk".to_string() },
        Command::Add { task: "Walk dog".to_string() },
        Command::Add { task: "Call home".to_string() },
        Command::Remove { id: 2 },
        Command::Complete { id: 1 },
        Command::Add { task: "Pay rent".to_string() },
    ];
    for command in commands {
        list = match run_command(list, command) {
            Ok(Outcome::Save(next)) => {
                TaskList::from_document(Document::Stored { tasks: next.tasks, next_id: next.next_id })
                    .unwrap()
            }
            other => panic!("nothing to save: {:?}", other),
        };
    }
    assert_eq!(
        list,
        TaskList {
            tasks: vec![
                task(1, "Buy milk", true),
                task(3, "Call home", false),
                task(4, "Pay rent", false),
            ],
            next_id: 5,
        }
    );
}
