//! The numbered listing of the tasks.

use crate::decimal::{decimal_digits, push_numeral};
use crate::task::{encode_line, Record, Task};
use vstd::prelude::*;

verus! {

/// The only line of the listing of an empty list.
pub open spec fn no_tasks_line() -> Seq<char> {
    "No tasks found. Add some tasks!"@
}

/// The line above the tasks of a listing.
pub open spec fn header_line() -> Seq<char> {
    "--- TODO LIST ---"@
}

/// The line below the tasks of a listing.
pub open spec fn footer_line() -> Seq<char> {
    "-----------------"@
}

/// The line of a task in a listing: its number, a colon and a space, then the
/// task's line as it is persisted.
pub open spec fn entry(number: nat, task: Record) -> Seq<char> {
    decimal_digits(number) + ": "@ + encode_line(task)
}

/// The lines of the tasks in a listing. A task's number is its place in the
/// list, counted from one.
pub open spec fn entries(tasks: Seq<Record>) -> Seq<Seq<char>> {
    Seq::new(tasks.len(), |i: int| entry((i + 1) as nat, tasks[i]))
}

/// The listing of a list: one line that says so where the list is empty, else
/// the header, the tasks in order, and the footer.
pub open spec fn listing(tasks: Seq<Record>) -> Seq<Seq<char>> {
    if tasks.len() == 0 {
        seq![no_tasks_line()]
    } else {
        seq![header_line()] + entries(tasks) + seq![footer_line()]
    }
}

/// Appends the listing of `tasks` to `lines`.
pub fn push_listing(lines: &mut Vec<String>, tasks: &Vec<Task>)
    ensures
        final(lines).deep_view() == old(lines).deep_view() + listing(tasks.deep_view()),
{
    let ghost before = lines.deep_view();
    if tasks.len() == 0 {
        lines.push("No tasks found. Add some tasks!".to_owned());
        return;
    }
    lines.push("--- TODO LIST ---".to_owned());
    let mut i: usize = 0;
    while i < tasks.len()
        invariant
            i <= tasks.len(),
            lines.deep_view() == before + seq![header_line()] + entries(tasks.deep_view()).take(
                i as int,
            ),
        decreases tasks.len() - i,
    {
        let ghost shown = lines.deep_view();
        let mut line = String::new();
        push_numeral(&mut line, i + 1);
        line.append(": ");
        tasks[i].push_line(&mut line);
        lines.push(line);
        assert(lines.deep_view() =~= shown.push(line@));
        assert(entries(tasks.deep_view()).take(i + 1) =~= entries(tasks.deep_view()).take(
            i as int,
        ).push(line@));
        i += 1;
    }
    let ghost shown = lines.deep_view();
    lines.push("-----------------".to_owned());
    assert(lines.deep_view() =~= shown.push(footer_line()));
}

/// The listing of `tasks`.
pub fn list_tasks(tasks: &Vec<Task>) -> (lines: Vec<String>)
    ensures
        lines.deep_view() == listing(tasks.deep_view()),
{
    let mut lines: Vec<String> = Vec::new();
    push_listing(&mut lines, tasks);
    lines
}

} // verus!
