//! How a command ended, and the message that says so.

use crate::decimal::{decimal_digits, push_numeral};
use vstd::prelude::*;

verus! {

/// How a command ended.
#[derive(Clone, Copy, Debug, PartialEq, Eq, Structural)]
pub enum Report {
    /// A task was appended.
    Added,
    /// The list was shown.
    Listed,
    /// A task was marked as done.
    Completed,
    /// The task was done already; the list stays as it was.
    AlreadyCompleted,
    /// No task has the number given; the list stays as it was.
    OutOfRange,
    /// What was given for a number is none; the list was not looked at.
    InvalidId,
    /// A task was removed.
    Removed,
    /// No task holds the text given; the list stays as it was.
    NotFound,
    /// The session ends.
    Farewell,
    /// The line held no command.
    UnknownCommand,
}

impl Report {
    /// The list has changed and is to be persisted.
    pub open spec fn changes_list(self) -> bool {
        self == Report::Added || self == Report::Completed || self == Report::Removed
    }

    /// The message is followed by a listing.
    pub open spec fn shows_list(self) -> bool {
        self.changes_list() || self == Report::Listed || self == Report::AlreadyCompleted
    }

    /// No further command is read.
    pub open spec fn ends_session(self) -> bool {
        self == Report::Farewell
    }

    /// Whether the list has changed and is to be persisted.
    pub fn is_change(self) -> (b: bool)
        ensures
            b == self.changes_list(),
    {
        match self {
            Report::Added | Report::Completed | Report::Removed => true,
            _ => false,
        }
    }

    /// Whether the message is followed by a listing.
    pub fn is_shown(self) -> (b: bool)
        ensures
            b == self.shows_list(),
    {
        match self {
            Report::Added
            | Report::Completed
            | Report::Removed
            | Report::Listed
            | Report::AlreadyCompleted => true,
            _ => false,
        }
    }

    /// Whether no further command is to be read.
    pub fn is_end(self) -> (b: bool)
        ensures
            b == self.ends_session(),
    {
        match self {
            Report::Farewell => true,
            _ => false,
        }
    }
}

/// The line that asks for a command.
pub open spec fn prompt_line() -> Seq<char> {
    "Enter a command (add, list, complete, delete, exit):"@
}

/// The message of a report. `subject` is the text that the command was given:
/// the new task's text, the text looked for, or the unknown keyword. `number`
/// is the number of the task that was marked. A listing alone has no message.
pub open spec fn message(report: Report, subject: Seq<char>, number: nat) -> Seq<Seq<char>> {
    match report {
        Report::Added => seq!["Adding task: "@ + subject],
        Report::Listed => Seq::empty(),
        Report::Completed => seq!["Task "@ + decimal_digits(number) + " completed."@],
        Report::AlreadyCompleted => seq!["Task already completed."@],
        Report::OutOfRange => seq!["Task ID not in range. Please enter a valid task ID."@],
        Report::InvalidId => seq!["Invalid task ID. Please provide a number."@],
        Report::Removed => seq!["Task containing '"@ + subject + "' was removed."@],
        Report::NotFound => seq!["No task containing '"@ + subject + "' was found."@],
        Report::Farewell => seq!["Exiting"@],
        Report::UnknownCommand => seq![
            "Unknown command: '"@ + subject + "'. Use add, list, complete, delete, exit."@,
        ],
    }
}

/// The line that asks for a command.
pub fn prompt() -> (line: &'static str)
    ensures
        line@ == prompt_line(),
{
    "Enter a command (add, list, complete, delete, exit):"
}

/// The text `before`, then `subject`, then `after`.
fn framed(before: &str, subject: &str, after: &str) -> (line: String)
    ensures
        line@ == before@ + subject@ + after@,
{
    let mut line = before.to_owned();
    line.append(subject);
    line.append(after);
    line
}

/// The message of a report, as lines.
pub fn message_lines(report: Report, subject: &str, number: usize) -> (lines: Vec<String>)
    ensures
        lines.deep_view() == message(report, subject@, number as nat),
{
    let mut lines: Vec<String> = Vec::new();
    match report {
        Report::Added => {
            let mut line = "Adding task: ".to_owned();
            line.append(subject);
            lines.push(line);
        },
        Report::Listed => {},
        Report::Completed => {
            let mut line = "Task ".to_owned();
            push_numeral(&mut line, number);
            line.append(" completed.");
            lines.push(line);
        },
        Report::AlreadyCompleted => {
            lines.push("Task already completed.".to_owned());
        },
        Report::OutOfRange => {
            lines.push("Task ID not in range. Please enter a valid task ID.".to_owned());
        },
        Report::InvalidId => {
            lines.push("Invalid task ID. Please provide a number.".to_owned());
        },
        Report::Removed => {
            lines.push(framed("Task containing '", subject, "' was removed."));
        },
        Report::NotFound => {
            lines.push(framed("No task containing '", subject, "' was found."));
        },
        Report::Farewell => {
            lines.push("Exiting".to_owned());
        },
        Report::UnknownCommand => {
            lines.push(
                framed("Unknown command: '", subject, "'. Use add, list, complete, delete, exit."),
            );
        },
    }
    lines
}

} // verus!
