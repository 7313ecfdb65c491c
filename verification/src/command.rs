//! Commands and the lines that they are typed as.

use crate::text::{
    chars_of, leading_word, lemma_leading_bounds, matches_at, skip_whitespace, skip_word,
    split_chars, trim_start,
};
use vstd::prelude::*;

verus! {

/// A command, as parsed from one line of input.
#[derive(Debug, PartialEq, Eq)]
pub enum Command {
    /// Append a task with this text.
    Add(String),
    /// Show the list.
    List,
    /// Mark as done the task whose number this text gives. The text is kept as
    /// typed: it is read as a number when the command is executed.
    Complete(String),
    /// Remove the first task whose text holds this text.
    Delete(String),
    /// End the session.
    Exit,
    /// A line whose first word is no command; the word is kept.
    Unknown(String),
}

/// A command over character sequences.
pub enum CommandView {
    Add(Seq<char>),
    List,
    Complete(Seq<char>),
    Delete(Seq<char>),
    Exit,
    Unknown(Seq<char>),
}

impl View for Command {
    type V = CommandView;

    open spec fn view(&self) -> CommandView {
        match self {
            Command::Add(text) => CommandView::Add(text@),
            Command::List => CommandView::List,
            Command::Complete(id) => CommandView::Complete(id@),
            Command::Delete(query) => CommandView::Delete(query@),
            Command::Exit => CommandView::Exit,
            Command::Unknown(keyword) => CommandView::Unknown(keyword@),
        }
    }
}

impl DeepView for Command {
    type V = CommandView;

    open spec fn deep_view(&self) -> CommandView {
        self@
    }
}

impl Clone for Command {
    fn clone(&self) -> (command: Command)
        ensures
            command@ == self@,
    {
        match self {
            Command::Add(text) => Command::Add(text.clone()),
            Command::List => Command::List,
            Command::Complete(id) => Command::Complete(id.clone()),
            Command::Delete(query) => Command::Delete(query.clone()),
            Command::Exit => Command::Exit,
            Command::Unknown(keyword) => Command::Unknown(keyword.clone()),
        }
    }
}

/// The keyword of a line: its first word, that is the characters between its
/// leading whitespace and the next whitespace. Empty where the line holds no
/// word.
pub open spec fn keyword_of(line: Seq<char>) -> Seq<char> {
    let rest = trim_start(line);
    rest.take(leading_word(rest) as int)
}

/// The query of a line: what follows its keyword, less the whitespace between
/// the two. Whitespace at the end of the line stays.
pub open spec fn query_of(line: Seq<char>) -> Seq<char> {
    let rest = trim_start(line);
    trim_start(rest.skip(leading_word(rest) as int))
}

/// The command that a line stands for. Keywords are matched exactly, in lower
/// case. `list` and `exit` take no query, and one that is given is ignored.
pub open spec fn parse(line: Seq<char>) -> CommandView {
    let keyword = keyword_of(line);
    let query = query_of(line);
    if keyword == "add"@ {
        CommandView::Add(query)
    } else if keyword == "list"@ {
        CommandView::List
    } else if keyword == "complete"@ {
        CommandView::Complete(query)
    } else if keyword == "delete"@ {
        CommandView::Delete(query)
    } else if keyword == "exit"@ {
        CommandView::Exit
    } else {
        CommandView::Unknown(keyword)
    }
}

/// The command of one step of a session: that of the line that was read, or
/// `Exit` where the input has ended.
pub open spec fn parse_input_spec(input: Option<Seq<char>>) -> CommandView {
    match input {
        Some(line) => parse(line),
        None => CommandView::Exit,
    }
}

/// The keyword and the query of a line are parts of the line: neither holds a
/// newline unless the line does.
pub proof fn lemma_parts_of_line(line: Seq<char>)
    requires
        !line.contains('\n'),
    ensures
        !keyword_of(line).contains('\n'),
        !query_of(line).contains('\n'),
{
    lemma_leading_bounds(line);
    let rest = trim_start(line);
    lemma_leading_bounds(rest);
    let tail = rest.skip(leading_word(rest) as int);
    lemma_leading_bounds(tail);
}

/// Whether the characters of `chars` from `from` up to `to` spell `word`.
fn spells(chars: &Vec<char>, from: usize, to: usize, word: &str) -> (same: bool)
    requires
        from <= to <= chars.len(),
    ensures
        same == (chars@.subrange(from as int, to as int) == word@),
{
    let letters = chars_of(word);
    if to - from != letters.len() {
        return false;
    }
    matches_at(chars, &letters, from)
}

/// Parses one line of input, given without its line ending.
pub fn parse_command(line: &str) -> (command: Command)
    ensures
        command@ == parse(line@),
{
    let chars = chars_of(line);
    let begin = skip_whitespace(&chars, 0);
    let end = skip_word(&chars, begin);
    let rest = skip_whitespace(&chars, end);
    proof {
        let trimmed = trim_start(line@);
        assert(line@.skip(0) =~= line@);
        assert(keyword_of(line@) =~= line@.subrange(begin as int, end as int));
        assert(trimmed.skip(end - begin) =~= line@.skip(end as int));
        assert(query_of(line@) =~= line@.skip(rest as int));
    }
    if spells(&chars, begin, end, "add") {
        Command::Add(split_chars(line, rest).1.to_owned())
    } else if spells(&chars, begin, end, "list") {
        Command::List
    } else if spells(&chars, begin, end, "complete") {
        Command::Complete(split_chars(line, rest).1.to_owned())
    } else if spells(&chars, begin, end, "delete") {
        Command::Delete(split_chars(line, rest).1.to_owned())
    } else if spells(&chars, begin, end, "exit") {
        Command::Exit
    } else {
        Command::Unknown(line.substring_char(begin, end).to_owned())
    }
}

/// The command of one step of a session: that of the line that was read, or
/// `Exit` where the input has ended.
pub fn parse_input(input: Option<&str>) -> (command: Command)
    ensures
        command@ == parse_input_spec(input.deep_view()),
{
    match input {
        Some(line) => parse_command(line),
        None => Command::Exit,
    }
}

} // verus!
