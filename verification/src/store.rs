//! The persisted list: one line for each task, each line closed by a newline.

use crate::task::{decode_line, encode_line, lemma_line_round_trip, Record, Task};
use crate::text::{chars_of, split_chars};
use vstd::prelude::*;

verus! {

/// The text of a list: the line of each task in order, each closed by a
/// newline.
pub open spec fn encode_store(tasks: Seq<Record>) -> Seq<char>
    decreases tasks.len(),
{
    if tasks.len() == 0 {
        Seq::empty()
    } else {
        encode_line(tasks.first()) + seq!['\n'] + encode_store(tasks.drop_first())
    }
}

/// The number of characters before the first newline of `text`, or its length
/// if it holds none.
pub open spec fn line_len(text: Seq<char>) -> nat
    decreases text.len(),
{
    if text.len() > 0 && text[0] != '\n' {
        1 + line_len(text.drop_first())
    } else {
        0
    }
}

/// The lines of `text`. A newline closes a line; what follows the last
/// newline is a line too unless it is empty.
pub open spec fn lines(text: Seq<char>) -> Seq<Seq<char>>
    decreases text.len(),
{
    if text.len() == 0 {
        Seq::empty()
    } else {
        let end = line_len(text) as int;
        if end < text.len() {
            seq![text.take(end)] + lines(text.skip(end + 1))
        } else {
            seq![text]
        }
    }
}

/// The list that a text holds: the task of each of its lines.
pub open spec fn decode_store(text: Seq<char>) -> Seq<Record> {
    lines(text).map_values(|line: Seq<char>| decode_line(line))
}

/// The list that is persisted: empty where nothing was persisted yet.
pub open spec fn stored(persisted: Option<Seq<char>>) -> Seq<Record> {
    match persisted {
        Some(text) => decode_store(text),
        None => Seq::empty(),
    }
}

/// No text of the list holds a newline.
pub open spec fn single_lines(tasks: Seq<Record>) -> bool {
    forall|i: int| 0 <= i < tasks.len() ==> !(#[trigger] tasks[i]).text.contains('\n')
}

/// A run of `end` characters without a newline that ends at the end of `text`
/// or before a newline is the first line.
pub proof fn lemma_line_len(text: Seq<char>, end: int)
    requires
        0 <= end <= text.len(),
        forall|j: int| 0 <= j < end ==> #[trigger] text[j] != '\n',
        end < text.len() ==> text[end] == '\n',
    ensures
        line_len(text) == end,
    decreases end,
{
    if end > 0 {
        lemma_line_len(text.drop_first(), end - 1);
    }
}

/// The first line ends within the text; it holds no newline, and where the
/// text goes on after it, a newline follows it.
pub proof fn lemma_first_line(text: Seq<char>)
    ensures
        line_len(text) <= text.len(),
        forall|j: int| 0 <= j < line_len(text) ==> #[trigger] text[j] != '\n',
        line_len(text) < text.len() ==> text[line_len(text) as int] == '\n',
    decreases text.len(),
{
    if text.len() > 0 && text[0] != '\n' {
        let rest = text.drop_first();
        lemma_first_line(rest);
        assert forall|j: int| 0 <= j < line_len(text) implies #[trigger] text[j] != '\n' by {
            if j > 0 {
                assert(text[j] == rest[j - 1]);
            }
        }
    }
}

/// No line of a text holds a newline.
pub proof fn lemma_lines_hold_no_newline(text: Seq<char>)
    ensures
        forall|i: int| 0 <= i < lines(text).len() ==> !(#[trigger] lines(text)[i]).contains('\n'),
    decreases text.len(),
{
    if text.len() > 0 {
        lemma_first_line(text);
        let end = line_len(text) as int;
        if end < text.len() {
            let rest = text.skip(end + 1);
            lemma_lines_hold_no_newline(rest);
            assert forall|i: int| 0 <= i < lines(text).len() implies !(#[trigger] lines(
                text,
            )[i]).contains('\n') by {
                if i > 0 {
                    assert(lines(text)[i] == lines(rest)[i - 1]);
                }
            }
        }
    }
}

/// No text of a list that was loaded holds a newline, whatever was persisted.
pub proof fn lemma_loaded_list_is_single_lines(persisted: Option<Seq<char>>)
    ensures
        single_lines(stored(persisted)),
{
    if let Some(text) = persisted {
        lemma_lines_hold_no_newline(text);
    }
}

/// The text of a list that grew by one task at its end.
pub proof fn lemma_encode_push(tasks: Seq<Record>, task: Record)
    ensures
        encode_store(tasks.push(task)) == encode_store(tasks) + encode_line(task) + seq!['\n'],
    decreases tasks.len(),
{
    let grown = tasks.push(task);
    if tasks.len() == 0 {
        assert(grown.drop_first() =~= tasks);
    } else {
        assert(grown.drop_first() =~= tasks.drop_first().push(task));
        lemma_encode_push(tasks.drop_first(), task);
    }
}

/// A text that opens with a line and its newline holds the task of that line,
/// then the list of the rest.
pub proof fn lemma_decode_first(line: Seq<char>, rest: Seq<char>)
    requires
        !line.contains('\n'),
    ensures
        decode_store(line + seq!['\n'] + rest) == seq![decode_line(line)] + decode_store(rest),
{
    let text = line + seq!['\n'] + rest;
    let end = line.len() as int;
    lemma_line_len(text, end);
    assert(text.take(end) =~= line);
    assert(text.skip(end + 1) =~= rest);
}

/// Loading what was saved gives the list back, provided that no text of the
/// list holds a newline.
pub proof fn lemma_save_load_round_trip(tasks: Seq<Record>)
    requires
        single_lines(tasks),
    ensures
        decode_store(encode_store(tasks)) == tasks,
        stored(Some(encode_store(tasks))) == tasks,
    decreases tasks.len(),
{
    if tasks.len() > 0 {
        let first = tasks.first();
        let rest = tasks.drop_first();
        lemma_decode_first(encode_line(first), encode_store(rest));
        lemma_line_round_trip(first);
        lemma_save_load_round_trip(rest);
    }
}

/// The text that persists `tasks`.
pub fn save(tasks: &Vec<Task>) -> (text: String)
    ensures
        text@ == encode_store(tasks.deep_view()),
{
    proof {
        reveal_strlit("\n");
    }
    let mut text = String::new();
    let mut i: usize = 0;
    while i < tasks.len()
        invariant
            i <= tasks.len(),
            text@ == encode_store(tasks.deep_view().take(i as int)),
            "\n"@ == seq!['\n'],
        decreases tasks.len() - i,
    {
        let ghost before = tasks.deep_view().take(i as int);
        tasks[i].push_line(&mut text);
        text.append("\n");
        proof {
            lemma_encode_push(before, tasks[i as int]@);
            assert(tasks.deep_view().take(i + 1) =~= before.push(tasks[i as int]@));
        }
        i += 1;
    }
    assert(tasks.deep_view().take(i as int) =~= tasks.deep_view());
    text
}

/// The list that `text` holds. Every text holds a list: a line without a
/// marker is a task that is not done.
pub fn read_tasks(text: &str) -> (tasks: Vec<Task>)
    ensures
        tasks.deep_view() == decode_store(text@),
{
    let chars = chars_of(text);
    let mut tasks: Vec<Task> = Vec::new();
    let mut rest: &str = text;
    let mut start: usize = 0;
    while start < chars.len()
        invariant
            start <= chars.len(),
            chars@ == text@,
            rest@ == text@.skip(start as int),
            decode_store(text@) == tasks.deep_view() + decode_store(rest@),
        decreases chars.len() - start,
    {
        let ghost unread = rest@;
        let mut end: usize = start;
        while end < chars.len() && chars[end] != '\n'
            invariant
                start <= end <= chars.len(),
                forall|j: int| start <= j < end ==> #[trigger] chars@[j] != '\n',
            decreases chars.len() - end,
        {
            end += 1;
        }
        proof {
            lemma_line_len(unread, end - start);
        }
        let (line, after) = split_chars(rest, end - start);
        let task = Task::from_line(line);
        tasks.push(task);
        if end < chars.len() {
            rest = split_chars(after, 1).1;
            assert(rest@ =~= unread.skip(end - start + 1));
            start = end + 1;
        } else {
            rest = after;
            start = end;
            assert(line@ =~= unread);
        }
    }
    tasks
}

/// The list that is persisted: the list of the text, or the empty list where
/// nothing was persisted yet.
pub fn load(persisted: Option<&str>) -> (tasks: Vec<Task>)
    ensures
        tasks.deep_view() == stored(persisted.deep_view()),
{
    match persisted {
        Some(text) => read_tasks(text),
        None => Vec::new(),
    }
}

} // verus!
