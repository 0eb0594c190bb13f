//! The commands of the chat loop.
//!
//! A line of input is trimmed first. A few words and the lines that start with
//! `:save:` or `:load:` control the session; every other line is a message for
//! the model.

use vstd::prelude::*;
use vstd::string::*;
use crate::text::{starts_with, str_eq, strip_repeated, trim, trim_start_matches, trimmed};

verus! {

/// What a line of input asks for.
#[derive(Debug, PartialEq, Eq)]
pub enum Command {
    /// Leave the chat loop (`exit` or `:b`).
    Exit,
    /// Empty the transcript (`clear` or `:c`).
    Clear,
    /// Clear the screen; the session stays as it is (`:cls`).
    ClearScreen,
    /// Take back the last exchange (`:revert`).
    Revert,
    /// Save the transcript under a name (`:save:<name>`).
    Save(String),
    /// Load the transcript saved under a name (`:load:<name>`).
    Load(String),
    /// Send the text to the model.
    Send(String),
}

/// A [`Command`] with its strings as character sequences.
pub enum CommandView {
    Exit,
    Clear,
    ClearScreen,
    Revert,
    Save(Seq<char>),
    Load(Seq<char>),
    Send(Seq<char>),
}

impl View for Command {
    type V = CommandView;

    open spec fn view(&self) -> CommandView {
        match self {
            Command::Exit => CommandView::Exit,
            Command::Clear => CommandView::Clear,
            Command::ClearScreen => CommandView::ClearScreen,
            Command::Revert => CommandView::Revert,
            Command::Save(name) => CommandView::Save(name@),
            Command::Load(name) => CommandView::Load(name@),
            Command::Send(text) => CommandView::Send(text@),
        }
    }
}

/// The name that follows the prefix of a save or load command: what is left
/// of the line after the prefix, however often it is repeated, trimmed.
pub open spec fn command_name(line: Seq<char>, prefix: Seq<char>) -> Seq<char> {
    trimmed(strip_repeated(line, prefix))
}

/// The command that a line of input stands for.
pub open spec fn command_of(line: Seq<char>) -> CommandView {
    let t = trimmed(line);
    if t == "exit"@ || t == ":b"@ {
        CommandView::Exit
    } else if t == "clear"@ || t == ":c"@ {
        CommandView::Clear
    } else if t == ":cls"@ {
        CommandView::ClearScreen
    } else if t == ":revert"@ {
        CommandView::Revert
    } else if ":save:"@.is_prefix_of(t) {
        CommandView::Save(command_name(t, ":save:"@))
    } else if ":load:"@.is_prefix_of(t) {
        CommandView::Load(command_name(t, ":load:"@))
    } else {
        CommandView::Send(t)
    }
}

/// Reads a line of input as a command.
pub fn parse_command(line: &str) -> (command: Command)
    ensures
        command@ == command_of(line@),
{
    let t = trim(line);
    let word = t.as_str();
    if str_eq(word, "exit") || str_eq(word, ":b") {
        Command::Exit
    } else if str_eq(word, "clear") || str_eq(word, ":c") {
        Command::Clear
    } else if str_eq(word, ":cls") {
        Command::ClearScreen
    } else if str_eq(word, ":revert") {
        Command::Revert
    } else if starts_with(word, ":save:") {
        let rest = trim_start_matches(word, ":save:");
        Command::Save(trim(rest.as_str()))
    } else if starts_with(word, ":load:") {
        let rest = trim_start_matches(word, ":load:");
        Command::Load(trim(rest.as_str()))
    } else {
        Command::Send(t)
    }
}

} // verus!
