use todo_list::store::{load, read_tasks, save};
use todo_list::task::Task;

fn record(done: bool, text: &str) -> Task {
    Task { done, text: text.to_string() }
}

#[test]
fn save_writes_one_closed_line_for_each_task() {
    assert_eq!(save(&Vec::new()), "");
    assert_eq!(save(&vec![record(false, "buy milk")]), "[ ] buy milk\n");
    assert_eq!(
        save(&vec![record(false, "buy milk"), record(true, "write report")]),
        "[ ] buy milk\n[x] write report\n"
    );
    assert_eq!(save(&vec![record(true, "")]), "[x] \n");
}

#[test]
fn read_tasks_splits_at_newlines() {
    assert_eq!(read_tasks(""), Vec::<Task>::new());
    assert_eq!(
        read_tasks("[ ] buy milk\n[x] write report\n"),
        vec![record(false, "buy milk"), record(true, "write report")]
    );
}

#[test]
fn read_tasks_takes_a_last_line_without_newline() {
    assert_eq!(
        read_tasks("[ ] a\n[x] b"),
        vec![record(false, "a"), record(true, "b")]
    );
    assert_eq!(read_tasks("[x] only"), vec![record(true, "only")]);
}

#[test]
fn read_tasks_keeps_empty_lines() {
    assert_eq!(read_tasks("\n"), vec![record(false, "")]);
    assert_eq!(
        read_tasks("[ ] a\n\n[ ] b\n"),
        vec![record(false, "a"), record(false, ""), record(false, "b")]
    );
    assert_eq!(read_tasks("\n\n"), vec![record(false, ""), record(false, "")]);
}

#[test]
fn read_tasks_is_lenient_with_malformed_lines() {
    assert_eq!(
        read_tasks("no marker\n[x] fine\n[?] odd\n"),
        vec![record(false, "no marker"), record(true, "fine"), record(false, "[?] odd")]
    );
}

#[test]
fn read_tasks_splits_at_newlines_only() {
    assert_eq!(read_tasks("[ ] a\r\n"), vec![record(false, "a\r")]);
    assert_eq!(read_tasks("[ ] a\u{2028}b\n"), vec![record(false, "a\u{2028}b")]);
}

#[test]
fn read_tasks_counts_characters_not_bytes() {
    assert_eq!(
        read_tasks("[x] café\n[ ] 日本語\nété\n"),
        vec![record(true, "café"), record(false, "日本語"), record(false, "été")]
    );
}

#[test]
fn load_of_nothing_is_empty() {
    assert_eq!(load(None), Vec::<Task>::new());
    assert_eq!(load(Some("")), Vec::<Task>::new());
}

#[test]
fn load_reads_what_is_persisted() {
    assert_eq!(load(Some("[x] a\n")), vec![record(true, "a")]);
}

#[test]
fn round_trip() {
    let lists = vec![
        vec![],
        vec![record(false, "")],
        vec![record(true, "")],
        vec![record(false, "buy milk"), record(true, "write report")],
        vec![record(false, "[x] looks done"), record(true, "[ ] looks open")],
        vec![record(false, " lead"), record(true, "trail "), record(false, "\ttab")],
        vec![record(true, "ends with return\r"), record(false, "日本語 ✓")],
        vec![record(false, ""), record(false, ""), record(true, "")],
    ];
    for tasks in lists {
        assert_eq!(load(Some(&save(&tasks))), tasks);
    }
}

#[test]
fn round_trip_fails_on_an_embedded_newline() {
    let tasks = vec![record(true, "two\nlines")];
    assert_eq!(
        load(Some(&save(&tasks))),
        vec![record(true, "two"), record(false, "lines")]
    );
}

#[test]
fn load_and_save_a_long_list() {
    let mut tasks = Vec::new();
    let mut i = 0;
    while i < 20_000 {
        tasks.push(record(i % 3 == 0, &format!("task number {} with some text à la carte", i)));
        i += 1;
    }
    let text = save(&tasks);
    assert_eq!(text.lines().count(), 20_000);
    assert_eq!(load(Some(&text)), tasks);
}
