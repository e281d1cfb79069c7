use task_tracker::command::{parse_args, Command};
use task_tracker::executor::{execute, list_tasks};
use task_tracker::record::TaskRecord;
use task_tracker::task::{Status, Task};
use task_tracker::timestamp::Timestamp;

fn args(words: &[&str]) -> Vec<String> {
    words.iter().map(|w| w.to_string()).collect()
}

fn at(year: i32, month: u32, day: u32, hour: u32, minute: u32, second: u32) -> Timestamp {
    Timestamp { year, month, day, hour, minute, second }
}

fn task(id: u32, description: &str, status: Status) -> Task {
    Task {
        id,
        description: description.to_string(),
        status,
        created_at: at(2024, 3, 5, 9, 7, 1),
        updated_at: None,
    }
}

#[test]
fn add_task() {
    let mut tasks = vec![];
    let description = "New Task".to_string();
    let id = Task::next_id(&tasks);
    let new_task = Task::new(id, description.clone());
    tasks.push(new_task);

    assert_eq!(tasks.len(), 1);
    assert_eq!(tasks[0].description, description);
    assert_eq!(tasks[0].status, Status::Todo);
}

#[test]
fn update_task_description() {
    let mut task = Task::new(1, "Old Description".to_string());
    task.update_description("New Description".to_string());

    assert_eq!(task.description, "New Description");
    assert!(task.updated_at.is_some());
}

#[test]
fn update_task_status() {
    let mut task = Task::new(1, "Task".to_string());
    task.update_status(Status::InProgress);

    assert_eq!(task.status, Status::InProgress);
    assert!(task.updated_at.is_some());
}

#[test]
fn delete_task() {
    let mut tasks = vec![Task::new(1, "Task to be deleted".to_string())];
    tasks.retain(|task| task.id != 1);

    assert!(tasks.is_empty());
}

#[test]
fn list_tasks_by_status() {
    let tasks = vec![
        Task::new(1, "Task 1".to_string()),
        Task::new(2, "Task 2".to_string()),
    ];
    let filtered_tasks: Vec<Task> = tasks.into_iter().filter(|task| task.status == Status::Todo).collect();

    assert_eq!(filtered_tasks.len(), 2);
}

#[test]
fn parse_add_command() {
    let args = vec!["task-tracker".to_string(), "add".to_string(), "New Task".to_string()];
    let command = parse_args(args).unwrap();

    match command {
        Command::Add(description) => assert_eq!(description, "New Task"),
        _ => panic!("Expected Add command"),
    }
}

#[test]
fn parse_update_command() {
    let args = vec!["task-tracker".to_string(), "update".to_string(), "1".to_string(), "Updated Task".to_string()];
    let command = parse_args(args).unwrap();

    match command {
        Command::Update(description, id) => {
            assert_eq!(description, "Updated Task");
            assert_eq!(id, 1);
        },
        _ => panic!("Expected Update command"),
    }
}

#[test]
fn parse_delete_command() {
    let args = vec!["task-tracker".to_string(), "delete".to_string(), "1".to_string()];
    let command = parse_args(args).unwrap();

    match command {
        Command::Delete(id) => assert_eq!(id, 1),
        _ => panic!("Expected Delete command"),
    }
}

#[test]
fn parse_mark_command() {
    let args = vec!["task-tracker".to_string(), "mark-done".to_string(), "1".to_string()];
    let command = parse_args(args).unwrap();

    match command {
        Command::Mark(status, id) => {
            assert_eq!(status, Status::Done);
            assert_eq!(id, 1);
        },
        _ => panic!("Expected Mark command"),
    }
}

#[test]
fn parse_list_command() {
    let args = vec!["task-tracker".to_string(), "list".to_string()];
    let command = parse_args(args).unwrap();

    match command {
        Command::List(status) => assert!(status.is_none()),
        _ => panic!("Expected List command"),
    }
}

#[test]
fn parse_counts_tokens() {
    assert_eq!(parse_args(args(&[])).unwrap_err(), "Not enough arguments");
    assert_eq!(parse_args(args(&["task-tracker"])).unwrap_err(), "Not enough arguments");
    assert_eq!(
        parse_args(args(&["task-tracker", "add", "a", "b", "c"])).unwrap_err(),
        "Too many arguments"
    );
}

#[test]
fn parse_reports_missing_operands() {
    assert_eq!(parse_args(args(&["t", "add"])).unwrap_err(), "Not enough arguments");
    assert_eq!(parse_args(args(&["t", "delete"])).unwrap_err(), "Not enough arguments");
    assert_eq!(parse_args(args(&["t", "update", "3"])).unwrap_err(), "Not enough arguments");
}

#[test]
fn parse_rejects_unknown_words() {
    assert_eq!(parse_args(args(&["t", "remove", "1"])).unwrap_err(), "Invalid argument");
    assert_eq!(parse_args(args(&["t", "list", "later"])).unwrap_err(), "Invalid option");
}

#[test]
fn parse_list_filters() {
    assert!(matches!(parse_args(args(&["t", "list", "done"])), Ok(Command::List(Some(Status::Done)))));
    assert!(matches!(parse_args(args(&["t", "list", "todo"])), Ok(Command::List(Some(Status::Todo)))));
    assert!(matches!(
        parse_args(args(&["t", "list", "in-progress"])),
        Ok(Command::List(Some(Status::InProgress)))
    ));
}

#[test]
fn parse_mark_words() {
    assert!(matches!(parse_args(args(&["t", "mark-todo", "4"])), Ok(Command::Mark(Status::Todo, 4))));
    assert!(matches!(
        parse_args(args(&["t", "mark-in-progress", "+12"])),
        Ok(Command::Mark(Status::InProgress, 12))
    ));
}

#[test]
fn parse_rejects_bad_ids() {
    assert_eq!(parse_args(args(&["t", "delete", "x1"])).unwrap_err(), "invalid digit found in string");
    assert_eq!(parse_args(args(&["t", "delete", "-1"])).unwrap_err(), "invalid digit found in string");
    assert_eq!(
        parse_args(args(&["t", "delete", "4294967296"])).unwrap_err(),
        "number too large to fit in target type"
    );
    assert!(matches!(parse_args(args(&["t", "delete", "4294967295"])), Ok(Command::Delete(4294967295))));
}

#[test]
fn next_id_follows_last_task() {
    let tasks = vec![task(4, "a", Status::Todo), task(2, "b", Status::Done)];
    assert_eq!(Task::next_id(&tasks), 3);
    let empty: Vec<Task> = vec![];
    assert_eq!(Task::next_id(&empty), 0);
}

#[test]
fn execute_add_to_empty_list() {
    let mut tasks: Vec<Task> = vec![];
    let outcome = execute(&mut tasks, Command::Add("Write".to_string())).unwrap();
    assert!(outcome.save);
    assert_eq!(outcome.lines, vec!["Successfully added task.".to_string()]);
    assert_eq!(tasks.len(), 1);
    assert_eq!(tasks[0].id, 0);
    assert_eq!(tasks[0].status, Status::Todo);
    assert!(tasks[0].updated_at.is_none());
    assert!(tasks[0].created_at.is_valid());
}

#[test]
fn execute_add_when_ids_run_out() {
    let mut tasks = vec![task(u32::MAX, "last", Status::Todo)];
    assert_eq!(
        execute(&mut tasks, Command::Add("more".to_string())).err(),
        Some("No id is left for a new task".to_string())
    );
    assert_eq!(tasks.len(), 1);
}

#[test]
fn execute_update_changes_one_description() {
    let mut tasks = vec![task(0, "a", Status::Todo), task(7, "b", Status::Done)];
    let outcome = execute(&mut tasks, Command::Update("c".to_string(), 7)).unwrap();
    assert!(outcome.save);
    assert_eq!(outcome.lines, vec!["Successfully updated task 7.".to_string()]);
    assert_eq!(tasks[1].description, "c");
    assert_eq!(tasks[1].status, Status::Done);
    assert!(tasks[1].updated_at.is_some());
    assert_eq!(tasks[0].description, "a");
    assert!(tasks[0].updated_at.is_none());
}

#[test]
fn execute_update_missing_id() {
    let mut tasks = vec![task(0, "a", Status::Todo)];
    let outcome = execute(&mut tasks, Command::Update("c".to_string(), 9)).unwrap();
    assert!(!outcome.save);
    assert_eq!(outcome.lines, vec!["Error: ID not found.".to_string()]);
    assert_eq!(tasks[0].description, "a");
}

#[test]
fn execute_mark_changes_one_status() {
    let mut tasks = vec![task(0, "a", Status::Todo), task(1, "b", Status::Todo)];
    let outcome = execute(&mut tasks, Command::Mark(Status::Done, 0)).unwrap();
    assert!(outcome.save);
    assert_eq!(outcome.lines, vec!["Successfully updated task 0.".to_string()]);
    assert_eq!(tasks[0].status, Status::Done);
    assert_eq!(tasks[0].description, "a");
    assert!(tasks[0].updated_at.is_some());
    assert_eq!(tasks[1].status, Status::Todo);
    let missing = execute(&mut tasks, Command::Mark(Status::Done, 5)).unwrap();
    assert_eq!(missing.lines, vec!["Error: ID not found.".to_string()]);
}

#[test]
fn execute_delete_only_task() {
    let mut tasks = vec![task(1, "Task to be deleted", Status::Todo)];
    let outcome = execute(&mut tasks, Command::Delete(1)).unwrap();
    assert!(outcome.save);
    assert_eq!(outcome.lines, vec!["Successfully deleted task 1.".to_string()]);
    assert!(tasks.is_empty());
}

#[test]
fn execute_delete_keeps_order_and_missing_is_silent() {
    let mut tasks = vec![task(1, "a", Status::Todo), task(2, "b", Status::Todo), task(3, "c", Status::Todo)];
    execute(&mut tasks, Command::Delete(2)).unwrap();
    let ids: Vec<u32> = tasks.iter().map(|t| t.id).collect();
    assert_eq!(ids, vec![1, 3]);
    let outcome = execute(&mut tasks, Command::Delete(8)).unwrap();
    assert!(!outcome.save);
    assert!(outcome.lines.is_empty());
    assert_eq!(tasks.len(), 2);
}

#[test]
fn list_with_missing_status_prints_notice() {
    let mut tasks = vec![task(1, "Task 1", Status::Todo), task(2, "Task 2", Status::Todo)];
    assert_eq!(list_tasks(Some(Status::Done), &tasks), vec!["No tasks with the status done".to_string()]);
    assert_eq!(
        list_tasks(Some(Status::InProgress), &tasks),
        vec!["No tasks with the status in progress".to_string()]
    );
    let outcome = execute(&mut tasks, Command::List(Some(Status::Done))).unwrap();
    assert!(!outcome.save);
    assert_eq!(outcome.lines, vec!["No tasks with the status done".to_string()]);
}

#[test]
fn list_prints_blocks_in_order() {
    let mut tasks = vec![task(1, "a", Status::Todo), task(2, "b", Status::Done), task(3, "c", Status::Done)];
    tasks[2].updated_at = Some(at(2025, 12, 31, 23, 59, 58));
    let all = list_tasks(None, &tasks);
    assert_eq!(all.len(), 3);
    let done = list_tasks(Some(Status::Done), &tasks);
    assert_eq!(
        done,
        vec![
            "------------\nid: 2 [done]\nTask: b\nCreated at: 2024-03-05 09:07:01\nLast Update: -".to_string(),
            "------------\nid: 3 [done]\nTask: c\nCreated at: 2024-03-05 09:07:01\nLast Update: 2025-12-31 23:59:58"
                .to_string(),
        ]
    );
}

#[test]
fn task_display_text() {
    let t = task(12, "Buy milk", Status::InProgress);
    assert_eq!(
        t.display(),
        "------------\nid: 12 [in progress]\nTask: Buy milk\nCreated at: 2024-03-05 09:07:01\nLast Update: -"
    );
    assert_eq!(Status::Todo.word(), "todo");
    assert_eq!(Status::Done.word(), "done");
}

#[test]
fn timestamp_text_forms() {
    assert_eq!(at(2024, 2, 29, 0, 0, 0).to_text(), "2024-02-29 00:00:00");
    assert_eq!(at(7, 1, 2, 3, 4, 5).to_text(), "0007-01-02 03:04:05");
    assert_eq!(at(-44, 3, 15, 12, 0, 0).to_text(), "-0044-03-15 12:00:00");
    assert_eq!(at(12345, 6, 7, 8, 9, 10).to_text(), "+12345-06-07 08:09:10");
}

#[test]
fn timestamp_text_round_trip() {
    let t = at(2023, 11, 30, 18, 45, 9);
    assert_eq!(Timestamp::parse(&t.to_text()), Some(t));
    let now = Timestamp::now();
    assert!(now.is_valid());
    if (0..=9999).contains(&now.year) {
        assert_eq!(Timestamp::parse(&now.to_text()), Some(now));
    }
}

#[test]
fn timestamp_parse_rejects() {
    assert_eq!(Timestamp::parse("2023-02-29 10:00:00"), None);
    assert_eq!(Timestamp::parse("2023-01-01T10:00:00"), None);
    assert_eq!(Timestamp::parse("2023-01-01 24:00:00"), None);
    assert_eq!(Timestamp::parse("2023-1-01 10:00:00"), None);
    assert_eq!(Timestamp::parse(""), None);
    assert_eq!(Timestamp::parse("2000-02-29 10:00:00"), Some(at(2000, 2, 29, 10, 0, 0)));
    assert_eq!(Timestamp::parse("1900-02-29 10:00:00"), None);
}

#[test]
fn record_round_trip() {
    let mut t = task(5, "Ship it", Status::InProgress);
    t.updated_at = Some(at(2024, 12, 1, 0, 0, 59));
    let rec = t.to_record();
    assert_eq!(rec.created_at, "2024-03-05 09:07:01");
    assert_eq!(rec.updated_at.as_deref(), Some("2024-12-01 00:00:59"));
    let back = Task::from_record(rec).unwrap();
    assert_eq!(back.id, 5);
    assert_eq!(back.description, "Ship it");
    assert_eq!(back.status, Status::InProgress);
    assert_eq!(back.created_at, t.created_at);
    assert_eq!(back.updated_at, t.updated_at);
}

#[test]
fn record_with_bad_timestamp_is_refused() {
    let rec = TaskRecord {
        id: 1,
        description: "x".to_string(),
        status: Status::Done,
        created_at: "2024-03-05 09:07:01".to_string(),
        updated_at: Some("2024-13-01 00:00:00".to_string()),
    };
    assert!(Task::from_record(rec).is_none());
    let rec = TaskRecord {
        id: 1,
        description: "x".to_string(),
        status: Status::Done,
        created_at: "2024-03-05T09:07:01".to_string(),
        updated_at: None,
    };
    assert!(Task::from_record(rec).is_none());
}
