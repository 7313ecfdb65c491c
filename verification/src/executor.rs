//! The commands at work on the list.

use crate::command::{lemma_parts_of_line, parse, Command, CommandView};
use crate::decimal::{decimal_digits, lemma_parse_numeral, parse_number, read_number};
use crate::listing::{entries, entry, footer_line, listing, push_listing};
use crate::report::{message, message_lines, Report};
use crate::store::{
    decode_store, encode_store, lemma_loaded_list_is_single_lines, lemma_save_load_round_trip,
    load, save, single_lines, stored,
};
use crate::task::{completed, open_task, Record, Task};
use crate::text::{chars_of, contains, contains_chars};
use vstd::prelude::*;

verus! {

/// The place of the first task whose text holds `query`, counted from zero, or
/// the length of the list where no text holds it.
pub open spec fn first_match(tasks: Seq<Record>, query: Seq<char>) -> nat
    decreases tasks.len(),
{
    if tasks.len() > 0 && !contains(tasks[0].text, query) {
        1 + first_match(tasks.drop_first(), query)
    } else {
        0
    }
}

/// The list after a task with this text was added: the task stands at the
/// end and is not done.
pub open spec fn after_add(tasks: Seq<Record>, text: Seq<char>) -> Seq<Record> {
    tasks.push(open_task(text))
}

/// How marking the task with this number ends.
pub open spec fn complete_report(tasks: Seq<Record>, number: nat) -> Report {
    if number == 0 || number > tasks.len() {
        Report::OutOfRange
    } else if tasks[number - 1].done {
        Report::AlreadyCompleted
    } else {
        Report::Completed
    }
}

/// The list after the task with this number was marked as done. Only a task
/// of the list that is not done changes: it becomes done and keeps its text.
pub open spec fn after_complete(tasks: Seq<Record>, number: nat) -> Seq<Record> {
    if complete_report(tasks, number) == Report::Completed {
        tasks.update(number - 1, completed(tasks[number - 1]))
    } else {
        tasks
    }
}

/// How removing a task that holds `query` ends.
pub open spec fn delete_report(tasks: Seq<Record>, query: Seq<char>) -> Report {
    if first_match(tasks, query) < tasks.len() {
        Report::Removed
    } else {
        Report::NotFound
    }
}

/// The list after the first task whose text holds `query` was removed; the
/// list itself where no text holds it.
pub open spec fn after_delete(tasks: Seq<Record>, query: Seq<char>) -> Seq<Record> {
    if first_match(tasks, query) < tasks.len() {
        tasks.remove(first_match(tasks, query) as int)
    } else {
        tasks
    }
}

/// A run of `at` tasks whose texts do not hold `query` that ends at the end of
/// the list or before a task whose text holds it is all that comes before the
/// first match.
pub proof fn lemma_first_match(tasks: Seq<Record>, query: Seq<char>, at: int)
    requires
        0 <= at <= tasks.len(),
        forall|j: int| 0 <= j < at ==> !contains((#[trigger] tasks[j]).text, query),
        at < tasks.len() ==> contains(tasks[at].text, query),
    ensures
        first_match(tasks, query) == at,
    decreases at,
{
    if at > 0 {
        lemma_first_match(tasks.drop_first(), query, at - 1);
    }
}

/// No task before the first match holds `query`, and the task at the first
/// match does: of several tasks that hold it, the one that stands first is
/// the match.
pub proof fn lemma_first_match_is_first(tasks: Seq<Record>, query: Seq<char>)
    ensures
        first_match(tasks, query) <= tasks.len(),
        forall|j: int|
            0 <= j < first_match(tasks, query) ==> !contains((#[trigger] tasks[j]).text, query),
        first_match(tasks, query) < tasks.len() ==> contains(
            tasks[first_match(tasks, query) as int].text,
            query,
        ),
    decreases tasks.len(),
{
    if tasks.len() > 0 && !contains(tasks[0].text, query) {
        let rest = tasks.drop_first();
        lemma_first_match_is_first(rest, query);
        assert forall|j: int| 0 <= j < first_match(tasks, query) implies !contains(
            (#[trigger] tasks[j]).text,
            query,
        ) by {
            if j > 0 {
                assert(tasks[j] == rest[j - 1]);
            }
        }
    }
}

/// Appends to the list a task with this text, not done.
pub fn add_task(tasks: &mut Vec<Task>, text: &str)
    ensures
        final(tasks).deep_view() == after_add(old(tasks).deep_view(), text@),
{
    tasks.push(Task::new(text));
}

/// Marks as done the task with this number, counted from one. A number that
/// no task has, and a task that is done already, leave the list as it was.
pub fn complete_task(tasks: &mut Vec<Task>, number: usize) -> (report: Report)
    ensures
        report == complete_report(old(tasks).deep_view(), number as nat),
        final(tasks).deep_view() == after_complete(old(tasks).deep_view(), number as nat),
        !report.changes_list() ==> final(tasks).deep_view() == old(tasks).deep_view(),
{
    if number == 0 || number > tasks.len() {
        return Report::OutOfRange;
    }
    let at: usize = number - 1;
    if tasks[at].done {
        return Report::AlreadyCompleted;
    }
    let marked = Task { done: true, text: tasks[at].text.clone() };
    tasks.set(at, marked);
    Report::Completed
}

/// Removes the first task whose text holds `query`. Where no text holds it
/// the list stays as it was.
pub fn delete_task(tasks: &mut Vec<Task>, query: &str) -> (report: Report)
    ensures
        report == delete_report(old(tasks).deep_view(), query@),
        final(tasks).deep_view() == after_delete(old(tasks).deep_view(), query@),
        !report.changes_list() ==> final(tasks).deep_view() == old(tasks).deep_view(),
{
    let needle = chars_of(query);
    let mut at: usize = 0;
    while at < tasks.len()
        invariant
            at <= tasks.len(),
            needle@ == query@,
            *tasks == *old(tasks),
            forall|j: int|
                0 <= j < at ==> !contains((#[trigger] tasks.deep_view()[j]).text, query@),
        decreases tasks.len() - at,
    {
        let hay = chars_of(tasks[at].text.as_str());
        if contains_chars(&hay, &needle) {
            proof {
                lemma_first_match(tasks.deep_view(), query@, at as int);
            }
            tasks.remove(at);
            return Report::Removed;
        }
        at += 1;
    }
    proof {
        lemma_first_match(tasks.deep_view(), query@, at as int);
    }
    Report::NotFound
}

/// What a command did: how it ended, and the lines to show for it.
#[derive(Debug, PartialEq, Eq)]
pub struct Outcome {
    pub report: Report,
    pub lines: Vec<String>,
}

/// What a command did to the persisted list.
#[derive(Debug, PartialEq, Eq)]
pub struct Response {
    /// How the command ended.
    pub report: Report,
    /// The lines to show for it.
    pub lines: Vec<String>,
    /// The text to persist in place of what was persisted before, where the
    /// list has changed; `None` where nothing is to be written.
    pub persist: Option<String>,
}

/// The number that a `Complete` command names, where its text is a number.
pub open spec fn number_of(command: CommandView) -> Option<nat> {
    match command {
        CommandView::Complete(id) => parse_number(id),
        _ => None,
    }
}

/// The text that a command was given.
pub open spec fn subject_of(command: CommandView) -> Seq<char> {
    match command {
        CommandView::Add(text) => text,
        CommandView::Complete(id) => id,
        CommandView::Delete(query) => query,
        CommandView::Unknown(keyword) => keyword,
        _ => Seq::empty(),
    }
}

/// Whether a command looks at the list. `Exit`, an unknown command and a
/// `Complete` whose text is no number do not.
pub open spec fn reads_list(command: CommandView) -> bool {
    match command {
        CommandView::Add(_) | CommandView::List | CommandView::Delete(_) => true,
        CommandView::Complete(id) => parse_number(id) is Some,
        _ => false,
    }
}

/// How a command ends on a list.
pub open spec fn report_of(tasks: Seq<Record>, command: CommandView) -> Report {
    match command {
        CommandView::Add(_) => Report::Added,
        CommandView::List => Report::Listed,
        CommandView::Complete(id) => match parse_number(id) {
            Some(number) => complete_report(tasks, number),
            None => Report::InvalidId,
        },
        CommandView::Delete(query) => delete_report(tasks, query),
        CommandView::Exit => Report::Farewell,
        CommandView::Unknown(_) => Report::UnknownCommand,
    }
}

/// The list after a command.
pub open spec fn next_tasks(tasks: Seq<Record>, command: CommandView) -> Seq<Record> {
    match command {
        CommandView::Add(text) => after_add(tasks, text),
        CommandView::Complete(id) => match parse_number(id) {
            Some(number) => after_complete(tasks, number),
            None => tasks,
        },
        CommandView::Delete(query) => after_delete(tasks, query),
        _ => tasks,
    }
}

/// The lines shown for a command: the message of its report, then the listing
/// of the list as the command left it, where the report calls for one.
pub open spec fn reply(tasks: Seq<Record>, command: CommandView) -> Seq<Seq<char>> {
    let report = report_of(tasks, command);
    let number = match number_of(command) {
        Some(number) => number,
        None => 0,
    };
    let said = message(report, subject_of(command), number);
    if report.shows_list() {
        said + listing(next_tasks(tasks, command))
    } else {
        said
    }
}

/// The text to persist after a command: that of the new list where the
/// command changed it, nothing otherwise.
pub open spec fn next_text(tasks: Seq<Record>, command: CommandView) -> Option<Seq<char>> {
    if report_of(tasks, command).changes_list() {
        Some(encode_store(next_tasks(tasks, command)))
    } else {
        None
    }
}

/// Whether a command looks at the list.
pub fn needs_list(command: &Command) -> (needed: bool)
    ensures
        needed == reads_list(command@),
{
    match command {
        Command::Add(_) | Command::List | Command::Delete(_) => true,
        Command::Complete(id) => read_number(id.as_str()).is_some(),
        _ => false,
    }
}

/// Executes a command on the list. A `Complete` whose text is no number is
/// turned down before the list is looked at.
pub fn execute(command: &Command, tasks: &mut Vec<Task>) -> (outcome: Outcome)
    ensures
        outcome.report == report_of(old(tasks).deep_view(), command@),
        outcome.lines.deep_view() == reply(old(tasks).deep_view(), command@),
        final(tasks).deep_view() == next_tasks(old(tasks).deep_view(), command@),
        !outcome.report.changes_list() ==> final(tasks).deep_view() == old(tasks).deep_view(),
{
    let mut number: usize = 0;
    let report = match command {
        Command::Add(text) => {
            add_task(tasks, text.as_str());
            Report::Added
        },
        Command::List => Report::Listed,
        Command::Complete(id) => match read_number(id.as_str()) {
            Some(n) => {
                number = n;
                complete_task(tasks, n)
            },
            None => Report::InvalidId,
        },
        Command::Delete(query) => delete_task(tasks, query.as_str()),
        Command::Exit => Report::Farewell,
        Command::Unknown(_) => Report::UnknownCommand,
    };
    let subject: &str = match command {
        Command::Add(text) => text.as_str(),
        Command::Complete(id) => id.as_str(),
        Command::Delete(query) => query.as_str(),
        Command::Unknown(keyword) => keyword.as_str(),
        _ => "",
    };
    proof {
        reveal_strlit("");
    }
    let mut lines = message_lines(report, subject, number);
    if report.is_shown() {
        push_listing(&mut lines, tasks);
    }
    Outcome { report, lines }
}

/// Answers a command from what is persisted: loads the list, executes the
/// command, and gives the text to persist where the list has changed.
/// `persisted` is `None` where nothing was persisted yet.
pub fn respond(command: &Command, persisted: Option<&str>) -> (response: Response)
    ensures
        response.report == report_of(stored(persisted.deep_view()), command@),
        response.lines.deep_view() == reply(stored(persisted.deep_view()), command@),
        response.persist.deep_view() == next_text(stored(persisted.deep_view()), command@),
{
    let mut tasks = load(persisted);
    let outcome = execute(command, &mut tasks);
    let persist = if outcome.report.is_change() {
        Some(save(&tasks))
    } else {
        None
    };
    Response { report: outcome.report, lines: outcome.lines, persist }
}

/// Marking a task that is done already leaves the list as it is, persists
/// nothing and says that the task was done; and that is how marking a task
/// ends the second time.
pub proof fn lemma_complete_twice(tasks: Seq<Record>, id: Seq<char>)
    ensures
        ({
            let command = CommandView::Complete(id);
            let once = next_tasks(tasks, command);
            &&& report_of(tasks, command) == Report::AlreadyCompleted ==> {
                &&& once == tasks
                &&& next_text(tasks, command) is None
                &&& reply(tasks, command) == seq!["Task already completed."@] + listing(tasks)
            }
            &&& report_of(tasks, command) == Report::Completed ==> report_of(once, command)
                == Report::AlreadyCompleted
            &&& next_tasks(once, command) == once
        }),
{
}

/// `Delete` removes one task, the first whose text holds the query, and keeps
/// the others in their order, later matches among them; where no text holds
/// the query it removes none.
pub proof fn lemma_delete_removes_first_match_only(tasks: Seq<Record>, query: Seq<char>)
    ensures
        ({
            let command = CommandView::Delete(query);
            let next = next_tasks(tasks, command);
            let at = first_match(tasks, query) as int;
            &&& report_of(tasks, command) == Report::Removed ==> {
                &&& 0 <= at < tasks.len()
                &&& contains(tasks[at].text, query)
                &&& forall|j: int| 0 <= j < at ==> !contains((#[trigger] tasks[j]).text, query)
                &&& next.len() == tasks.len() - 1
                &&& forall|j: int| 0 <= j < at ==> #[trigger] next[j] == tasks[j]
                &&& forall|j: int| at <= j < next.len() ==> #[trigger] next[j] == tasks[j + 1]
            }
            &&& report_of(tasks, command) == Report::NotFound ==> {
                &&& next == tasks
                &&& forall|j: int|
                    0 <= j < tasks.len() ==> !contains((#[trigger] tasks[j]).text, query)
            }
            &&& report_of(tasks, command) == Report::Removed || report_of(tasks, command)
                == Report::NotFound
        }),
{
    lemma_first_match_is_first(tasks, query);
}

/// After a task was added, the listing shows it last, under the highest
/// number, and not done.
pub proof fn lemma_added_task_is_listed_last(tasks: Seq<Record>, text: Seq<char>)
    ensures
        ({
            let grown = next_tasks(tasks, CommandView::Add(text));
            let shown = reply(grown, CommandView::List);
            &&& grown.len() == tasks.len() + 1
            &&& shown.len() == grown.len() + 2
            &&& shown[grown.len() as int] == entry(grown.len(), open_task(text))
            &&& shown.last() == footer_line()
            &&& entry(grown.len(), open_task(text)) == decimal_digits(grown.len()) + ": "@ + seq![
                '[',
                ' ',
                ']',
                ' ',
            ] + text
        }),
{
    let grown = next_tasks(tasks, CommandView::Add(text));
    assert(entry(grown.len(), open_task(text)) =~= decimal_digits(grown.len()) + ": "@ + seq![
        '[',
        ' ',
        ']',
        ' ',
    ] + text);
}

/// The number under which a listing shows a task names that task: given to
/// `Complete` as the listing writes it, it marks the task at that place and
/// no other.
pub proof fn lemma_listed_number_names_its_task(tasks: Seq<Record>, place: int)
    requires
        0 <= place < tasks.len(),
        place < usize::MAX,
    ensures
        ({
            let number = (place + 1) as nat;
            let command = CommandView::Complete(decimal_digits(number));
            let next = next_tasks(tasks, command);
            &&& entries(tasks)[place] == entry(number, tasks[place])
            &&& report_of(tasks, command) == complete_report(tasks, number)
            &&& next.len() == tasks.len()
            &&& next[place] == completed(tasks[place])
            &&& forall|i: int| 0 <= i < tasks.len() && i != place ==> next[i] == tasks[i]
        }),
{
    lemma_parse_numeral((place + 1) as nat);
}

/// A command that does not look at the list ends the same way on every list,
/// and changes none.
pub proof fn lemma_unread_list(command: CommandView, one: Seq<Record>, other: Seq<Record>)
    requires
        !reads_list(command),
    ensures
        report_of(one, command) == report_of(other, command),
        reply(one, command) == reply(other, command),
        next_tasks(one, command) == one,
        next_text(one, command) is None,
{
}

/// What a command persists is what the next command loads: no command puts a
/// newline into a text unless it was given one.
pub proof fn lemma_persisted_list_is_loaded(tasks: Seq<Record>, command: CommandView)
    requires
        single_lines(tasks),
        !subject_of(command).contains('\n'),
    ensures
        single_lines(next_tasks(tasks, command)),
        next_text(tasks, command) matches Some(text) ==> decode_store(text) == next_tasks(
            tasks,
            command,
        ),
{
    lemma_save_load_round_trip(next_tasks(tasks, command));
}

/// One step of a session, from whatever is persisted and for every line
/// without a newline: the text that the step persists loads as the list that
/// the command left.
pub proof fn lemma_session_step(persisted: Option<Seq<char>>, line: Seq<char>)
    requires
        !line.contains('\n'),
    ensures
        ({
            let tasks = stored(persisted);
            let command = parse(line);
            next_text(tasks, command) matches Some(text) ==> stored(Some(text)) == next_tasks(
                tasks,
                command,
            )
        }),
{
    lemma_loaded_list_is_single_lines(persisted);
    lemma_parts_of_line(line);
    lemma_persisted_list_is_loaded(stored(persisted), parse(line));
}

} // verus!
