//! A task and the line that stands for it in the persisted list.

use crate::text::{chars_of, matches_at, occurs_at, split_chars};
use vstd::prelude::*;

verus! {

/// What a task is: whether it is done, and its text.
pub struct Record {
    pub done: bool,
    pub text: Seq<char>,
}

/// A task of the list. Its number is its place in the list, counted from one,
/// and is not part of it.
#[derive(Debug, PartialEq, Eq)]
pub struct Task {
    pub done: bool,
    pub text: String,
}

impl View for Task {
    type V = Record;

    open spec fn view(&self) -> Record {
        Record { done: self.done, text: self.text@ }
    }
}

impl Clone for Task {
    fn clone(&self) -> (task: Task)
        ensures
            task@ == self@,
    {
        Task { done: self.done, text: self.text.clone() }
    }
}

impl DeepView for Task {
    type V = Record;

    open spec fn deep_view(&self) -> Record {
        self@
    }
}

/// The three characters that open a line: `[x]` for a task that is done,
/// `[ ]` for one that is not.
pub open spec fn marker(done: bool) -> Seq<char> {
    if done {
        seq!['[', 'x', ']']
    } else {
        seq!['[', ' ', ']']
    }
}

/// A new task: not done, with the given text.
pub open spec fn open_task(text: Seq<char>) -> Record {
    Record { done: false, text }
}

/// The same task, done.
pub open spec fn completed(task: Record) -> Record {
    Record { done: true, text: task.text }
}

/// The line of a task: its marker, one space, and its text as it is.
pub open spec fn encode_line(task: Record) -> Seq<char> {
    marker(task.done) + seq![' '] + task.text
}

/// What follows a marker, less the separating space where there is one.
pub open spec fn text_after_marker(line: Seq<char>) -> Seq<char> {
    if line.len() > 3 && line[3] == ' ' {
        line.skip(4)
    } else {
        line.skip(3)
    }
}

/// The task of a line. A line that opens with a marker gives the marker's
/// state and the text after it; any other line is a task that is not done,
/// and the whole line is its text.
pub open spec fn decode_line(line: Seq<char>) -> Record {
    if occurs_at(line, marker(true), 0) {
        Record { done: true, text: text_after_marker(line) }
    } else if occurs_at(line, marker(false), 0) {
        Record { done: false, text: text_after_marker(line) }
    } else {
        Record { done: false, text: line }
    }
}

/// Decoding the line of a task gives the task back, whatever its text.
pub proof fn lemma_line_round_trip(task: Record)
    ensures
        decode_line(encode_line(task)) == task,
{
    let line = encode_line(task);
    assert(line.subrange(0, 3) =~= marker(task.done));
    assert(line.skip(4) =~= task.text);
}

impl Task {
    /// A new task: not done, with the given text.
    pub fn new(text: &str) -> (task: Task)
        ensures
            task@ == open_task(text@),
    {
        Task { done: false, text: text.to_owned() }
    }

    /// Appends the task's line to `out`.
    pub fn push_line(&self, out: &mut String)
        ensures
            final(out)@ == old(out)@ + encode_line(self@),
    {
        proof {
            reveal_strlit("[x] ");
            reveal_strlit("[ ] ");
        }
        if self.done {
            out.append("[x] ");
        } else {
            out.append("[ ] ");
        }
        out.append(self.text.as_str());
    }

    /// The task's line.
    pub fn to_line(&self) -> (line: String)
        ensures
            line@ == encode_line(self@),
    {
        let mut line = String::new();
        self.push_line(&mut line);
        line
    }

    /// The task of a line.
    pub fn from_line(line: &str) -> (task: Task)
        ensures
            task@ == decode_line(line@),
    {
        proof {
            reveal_strlit("[x]");
            reveal_strlit("[ ]");
        }
        let chars = chars_of(line);
        let done_marker = chars_of("[x]");
        let open_marker = chars_of("[ ]");
        assert(done_marker@ =~= marker(true));
        assert(open_marker@ =~= marker(false));
        let done = matches_at(&chars, &done_marker, 0);
        if done || matches_at(&chars, &open_marker, 0) {
            let start: usize = if chars.len() > 3 && chars[3] == ' ' {
                4
            } else {
                3
            };
            Task { done, text: split_chars(line, start).1.to_owned() }
        } else {
            Task { done: false, text: line.to_owned() }
        }
    }
}

} // verus!
