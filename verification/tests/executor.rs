use todo_list::command::Command;
use todo_list::executor::{
    add_task, complete_task, delete_task, execute, needs_list, respond, Outcome, Response,
};
use todo_list::report::Report;
use todo_list::task::Task;

fn record(done: bool, text: &str) -> Task {
    Task { done, text: text.to_string() }
}

fn lines(text: &[&str]) -> Vec<String> {
    let mut out = Vec::new();
    for line in text {
        out.push(line.to_string());
    }
    out
}

#[test]
fn add_appends_an_open_task() {
    let mut tasks = vec![record(true, "a")];
    add_task(&mut tasks, "b");
    assert_eq!(tasks, vec![record(true, "a"), record(false, "b")]);
    add_task(&mut tasks, "");
    assert_eq!(tasks, vec![record(true, "a"), record(false, "b"), record(false, "")]);
}

#[test]
fn complete_marks_the_task_and_keeps_its_text() {
    let mut tasks = vec![record(false, "a"), record(false, "b"), record(false, "c")];
    assert_eq!(complete_task(&mut tasks, 2), Report::Completed);
    assert_eq!(tasks, vec![record(false, "a"), record(true, "b"), record(false, "c")]);
    assert_eq!(complete_task(&mut tasks, 1), Report::Completed);
    assert_eq!(complete_task(&mut tasks, 3), Report::Completed);
    assert_eq!(tasks, vec![record(true, "a"), record(true, "b"), record(true, "c")]);
}

#[test]
fn complete_is_idempotent() {
    let mut tasks = vec![record(false, "a"), record(false, "b")];
    assert_eq!(complete_task(&mut tasks, 2), Report::Completed);
    let once = tasks.clone();
    assert_eq!(complete_task(&mut tasks, 2), Report::AlreadyCompleted);
    assert_eq!(tasks, once);
}

#[test]
fn complete_out_of_range_leaves_the_list() {
    let mut tasks = vec![record(false, "a"), record(true, "b")];
    let before = tasks.clone();
    assert_eq!(complete_task(&mut tasks, 5), Report::OutOfRange);
    assert_eq!(tasks, before);
    assert_eq!(complete_task(&mut tasks, 3), Report::OutOfRange);
    assert_eq!(complete_task(&mut tasks, 0), Report::OutOfRange);
    assert_eq!(complete_task(&mut tasks, usize::MAX), Report::OutOfRange);
    assert_eq!(tasks, before);
    let mut empty: Vec<Task> = Vec::new();
    assert_eq!(complete_task(&mut empty, 1), Report::OutOfRange);
    assert!(empty.is_empty());
}

#[test]
fn delete_removes_the_first_match_only() {
    let mut tasks = vec![record(false, "foo"), record(false, "foobar")];
    assert_eq!(delete_task(&mut tasks, "foo"), Report::Removed);
    assert_eq!(tasks, vec![record(false, "foobar")]);
}

#[test]
fn delete_skips_tasks_that_do_not_match() {
    let mut tasks = vec![
        record(false, "buy milk"),
        record(true, "write report"),
        record(false, "read report"),
    ];
    assert_eq!(delete_task(&mut tasks, "report"), Report::Removed);
    assert_eq!(tasks, vec![record(false, "buy milk"), record(false, "read report")]);
}

#[test]
fn delete_without_match_leaves_the_list() {
    let mut tasks = vec![record(false, "foo"), record(true, "bar")];
    let before = tasks.clone();
    assert_eq!(delete_task(&mut tasks, "baz"), Report::NotFound);
    assert_eq!(tasks, before);
    assert_eq!(delete_task(&mut tasks, "Foo"), Report::NotFound);
    assert_eq!(tasks, before);
    let mut empty: Vec<Task> = Vec::new();
    assert_eq!(delete_task(&mut empty, ""), Report::NotFound);
}

#[test]
fn delete_looks_at_the_text_not_the_marker() {
    let mut tasks = vec![record(true, "a"), record(false, "has [x] inside")];
    assert_eq!(delete_task(&mut tasks, "[x]"), Report::Removed);
    assert_eq!(tasks, vec![record(true, "a")]);
    assert_eq!(delete_task(&mut tasks, "[x] a"), Report::NotFound);
}

#[test]
fn delete_with_empty_query_removes_the_first_task() {
    let mut tasks = vec![record(false, "a"), record(false, "b")];
    assert_eq!(delete_task(&mut tasks, ""), Report::Removed);
    assert_eq!(tasks, vec![record(false, "b")]);
}

#[test]
fn needs_list_tells_which_commands_look_at_it() {
    assert!(needs_list(&Command::Add("a".to_string())));
    assert!(needs_list(&Command::List));
    assert!(needs_list(&Command::Delete("a".to_string())));
    assert!(needs_list(&Command::Complete("1".to_string())));
    assert!(needs_list(&Command::Complete("0".to_string())));
    assert!(!needs_list(&Command::Complete("one".to_string())));
    assert!(!needs_list(&Command::Complete("".to_string())));
    assert!(!needs_list(&Command::Exit));
    assert!(!needs_list(&Command::Unknown("x".to_string())));
}

#[test]
fn execute_add_confirms_and_lists() {
    let mut tasks = vec![record(true, "a")];
    let outcome = execute(&Command::Add("buy milk".to_string()), &mut tasks);
    assert_eq!(
        outcome,
        Outcome {
            report: Report::Added,
            lines: lines(&[
                "Adding task: buy milk",
                "--- TODO LIST ---",
                "1: [x] a",
                "2: [ ] buy milk",
                "-----------------",
            ]),
        }
    );
    assert_eq!(tasks, vec![record(true, "a"), record(false, "buy milk")]);
}

#[test]
fn added_task_is_listed_last_and_open() {
    let mut tasks = vec![record(true, "a"), record(false, "b")];
    execute(&Command::Add("buy milk".to_string()), &mut tasks);
    let outcome = execute(&Command::List, &mut tasks);
    assert_eq!(outcome.report, Report::Listed);
    assert_eq!(outcome.lines.len(), 5);
    assert_eq!(outcome.lines[3], "3: [ ] buy milk");
    assert_eq!(outcome.lines[4], "-----------------");
}

#[test]
fn execute_list_shows_the_list_and_leaves_it() {
    let mut tasks = vec![record(false, "a")];
    let outcome = execute(&Command::List, &mut tasks);
    assert_eq!(outcome.report, Report::Listed);
    assert_eq!(outcome.lines, lines(&["--- TODO LIST ---", "1: [ ] a", "-----------------"]));
    assert_eq!(tasks, vec![record(false, "a")]);
    let mut empty: Vec<Task> = Vec::new();
    let outcome = execute(&Command::List, &mut empty);
    assert_eq!(outcome.lines, lines(&["No tasks found. Add some tasks!"]));
    assert!(empty.is_empty());
}

#[test]
fn execute_complete_reports_and_lists() {
    let mut tasks = vec![record(false, "a"), record(false, "b")];
    let outcome = execute(&Command::Complete("2".to_string()), &mut tasks);
    assert_eq!(outcome.report, Report::Completed);
    assert_eq!(
        outcome.lines,
        lines(&[
            "Task 2 completed.",
            "--- TODO LIST ---",
            "1: [ ] a",
            "2: [x] b",
            "-----------------",
        ])
    );
    assert_eq!(tasks, vec![record(false, "a"), record(true, "b")]);
}

#[test]
fn execute_complete_writes_the_number_not_the_text() {
    let mut tasks = vec![record(false, "a")];
    let outcome = execute(&Command::Complete("+01".to_string()), &mut tasks);
    assert_eq!(outcome.report, Report::Completed);
    assert_eq!(outcome.lines[0], "Task 1 completed.");
}

#[test]
fn execute_complete_twice_reports_already_completed() {
    let mut tasks = vec![record(false, "a"), record(true, "b")];
    let outcome = execute(&Command::Complete("2".to_string()), &mut tasks);
    assert_eq!(outcome.report, Report::AlreadyCompleted);
    assert_eq!(
        outcome.lines,
        lines(&[
            "Task already completed.",
            "--- TODO LIST ---",
            "1: [ ] a",
            "2: [x] b",
            "-----------------",
        ])
    );
    assert_eq!(tasks, vec![record(false, "a"), record(true, "b")]);
}

#[test]
fn execute_complete_out_of_range_reports_the_range() {
    let mut tasks = vec![record(false, "a"), record(false, "b")];
    for id in ["5", "3", "0"] {
        let outcome = execute(&Command::Complete(id.to_string()), &mut tasks);
        assert_eq!(outcome.report, Report::OutOfRange);
        assert_eq!(
            outcome.lines,
            lines(&["Task ID not in range. Please enter a valid task ID."])
        );
        assert_eq!(tasks, vec![record(false, "a"), record(false, "b")]);
    }
}

#[test]
fn execute_complete_turns_down_what_is_no_number() {
    let mut tasks = vec![record(false, "a")];
    for id in ["", "one", "-1", "1 ", "1.0", "99999999999999999999999999"] {
        let outcome = execute(&Command::Complete(id.to_string()), &mut tasks);
        assert_eq!(outcome.report, Report::InvalidId);
        assert_eq!(outcome.lines, lines(&["Invalid task ID. Please provide a number."]));
        assert_eq!(tasks, vec![record(false, "a")]);
    }
}

#[test]
fn execute_delete_reports_and_lists() {
    let mut tasks = vec![record(false, "foo"), record(false, "foobar")];
    let outcome = execute(&Command::Delete("foo".to_string()), &mut tasks);
    assert_eq!(outcome.report, Report::Removed);
    assert_eq!(
        outcome.lines,
        lines(&[
            "Task containing 'foo' was removed.",
            "--- TODO LIST ---",
            "1: [ ] foobar",
            "-----------------",
        ])
    );
    assert_eq!(tasks, vec![record(false, "foobar")]);
}

#[test]
fn execute_delete_of_the_last_task_lists_nothing() {
    let mut tasks = vec![record(true, "only")];
    let outcome = execute(&Command::Delete("only".to_string()), &mut tasks);
    assert_eq!(
        outcome.lines,
        lines(&["Task containing 'only' was removed.", "No tasks found. Add some tasks!"])
    );
    assert!(tasks.is_empty());
}

#[test]
fn execute_delete_without_match_reports_not_found() {
    let mut tasks = vec![record(false, "foo")];
    let outcome = execute(&Command::Delete("bar".to_string()), &mut tasks);
    assert_eq!(outcome.report, Report::NotFound);
    assert_eq!(outcome.lines, lines(&["No task containing 'bar' was found."]));
    assert_eq!(tasks, vec![record(false, "foo")]);
}

#[test]
fn execute_exit_says_farewell() {
    let mut tasks = vec![record(false, "a")];
    let outcome = execute(&Command::Exit, &mut tasks);
    assert_eq!(outcome.report, Report::Farewell);
    assert!(outcome.report.is_end());
    assert_eq!(outcome.lines, lines(&["Exiting"]));
    assert_eq!(tasks, vec![record(false, "a")]);
}

#[test]
fn execute_unknown_names_the_keyword() {
    let mut tasks = vec![record(false, "a")];
    let outcome = execute(&Command::Unknown("frob".to_string()), &mut tasks);
    assert_eq!(outcome.report, Report::UnknownCommand);
    assert!(!outcome.report.is_end());
    assert_eq!(
        outcome.lines,
        lines(&["Unknown command: 'frob'. Use add, list, complete, delete, exit."])
    );
    assert_eq!(tasks, vec![record(false, "a")]);
}

#[test]
fn respond_persists_only_a_changed_list() {
    let persisted = "[ ] a\n[x] b\n";
    let unchanged = [
        Command::List,
        Command::Complete("2".to_string()),
        Command::Complete("7".to_string()),
        Command::Complete("x".to_string()),
        Command::Delete("zzz".to_string()),
        Command::Exit,
        Command::Unknown("x".to_string()),
    ];
    for command in unchanged {
        assert_eq!(respond(&command, Some(persisted)).persist, None, "{:?}", command);
    }
    assert_eq!(
        respond(&Command::Add("c".to_string()), Some(persisted)).persist,
        Some("[ ] a\n[x] b\n[ ] c\n".to_string())
    );
    assert_eq!(
        respond(&Command::Complete("1".to_string()), Some(persisted)).persist,
        Some("[x] a\n[x] b\n".to_string())
    );
    assert_eq!(
        respond(&Command::Delete("b".to_string()), Some(persisted)).persist,
        Some("[ ] a\n".to_string())
    );
    assert_eq!(
        respond(&Command::Delete("a".to_string()), Some("[ ] a\n")).persist,
        Some("".to_string())
    );
}

#[test]
fn respond_to_list_with_nothing_persisted() {
    assert_eq!(
        respond(&Command::List, None),
        Response {
            report: Report::Listed,
            lines: lines(&["No tasks found. Add some tasks!"]),
            persist: None,
        }
    );
}

#[test]
fn respond_to_add_with_nothing_persisted() {
    assert_eq!(
        respond(&Command::Add("first".to_string()), None),
        Response {
            report: Report::Added,
            lines: lines(&[
                "Adding task: first",
                "--- TODO LIST ---",
                "1: [ ] first",
                "-----------------",
            ]),
            persist: Some("[ ] first\n".to_string()),
        }
    );
}

#[test]
fn respond_normalises_malformed_lines_when_it_saves() {
    let response = respond(&Command::Add("new".to_string()), Some("plain\n[x]tight"));
    assert_eq!(response.persist, Some("[ ] plain\n[x] tight\n[ ] new\n".to_string()));
}
