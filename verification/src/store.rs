//! The session store's file format and names.
//!
//! A saved session is a text of two lines per turn: the role, then the
//! content, each ended by a newline. Reading is strict: a text that is not of
//! this form (a last line without its newline, or a role without a content
//! line) is corrupt as a whole, and no part of it is recovered. Since a turn
//! takes exactly two lines, only turns without a newline in role and content
//! come back as they were saved.

use vstd::prelude::*;
use vstd::string::*;
use crate::chat::{turns, Message, Turn};
use crate::lines::{
    closed_lines, lemma_lines_concat, lemma_sep_free_is_open, open_line, sep_free,
};
use crate::decoder::texts;
use crate::text::{chars_of, push_char};

verus! {

/// Why a session could not be loaded.
#[derive(Debug, Clone, Copy, PartialEq, Eq, Structural)]
pub enum SessionError {
    /// There is no session of that name.
    NotFound,
    /// The stored text is not a sequence of turns.
    Corrupt,
}

/// The two lines that store one turn.
pub open spec fn turn_text(turn: Turn) -> Seq<char> {
    turn.role.push('\n') + turn.content.push('\n')
}

/// The text that stores a transcript.
pub open spec fn session_text(transcript: Seq<Turn>) -> Seq<char>
    decreases transcript.len(),
{
    if transcript.len() == 0 {
        Seq::empty()
    } else {
        session_text(transcript.drop_last()) + turn_text(transcript.last())
    }
}

/// The turns that an even number of lines make: role and content in turn.
pub open spec fn turns_of_lines(lines: Seq<Seq<char>>) -> Seq<Turn> {
    Seq::new(
        (lines.len() / 2) as nat,
        |i: int| Turn { role: lines[2 * i], content: lines[2 * i + 1] },
    )
}

/// The transcript that a stored text holds; `None` where the text is corrupt.
pub open spec fn stored_transcript(text: Seq<char>) -> Option<Seq<Turn>> {
    let lines = closed_lines(text, '\n');
    if open_line(text, '\n').len() == 0 && lines.len() % 2 == 0 {
        Some(turns_of_lines(lines))
    } else {
        None
    }
}

/// Whether every turn can be stored and read back: no role and no content
/// holds a newline.
pub open spec fn storable(transcript: Seq<Turn>) -> bool {
    forall|i: int|
        0 <= i < transcript.len() ==> sep_free((#[trigger] transcript[i]).role, '\n') && sep_free(
            transcript[i].content,
            '\n',
        )
}

/// The lines of a stored transcript without a newline inside its turns: two
/// for each turn, and no line left open.
pub proof fn lemma_session_lines(transcript: Seq<Turn>)
    requires
        storable(transcript),
    ensures
        open_line(session_text(transcript), '\n').len() == 0,
        closed_lines(session_text(transcript), '\n').len() == 2 * transcript.len(),
        forall|i: int|
            0 <= i < transcript.len() ==> closed_lines(session_text(transcript), '\n')[2 * i]
                == (#[trigger] transcript[i]).role && closed_lines(
                session_text(transcript),
                '\n',
            )[2 * i + 1] == transcript[i].content,
    decreases transcript.len(),
{
    if transcript.len() > 0 {
        let before = transcript.drop_last();
        let last = transcript.last();
        assert forall|i: int| 0 <= i < before.len() implies sep_free(
            (#[trigger] before[i]).role,
            '\n',
        ) && sep_free(before[i].content, '\n') by {
            assert(before[i] == transcript[i]);
        }
        lemma_session_lines(before);
        let head = session_text(before);
        let role_line = last.role.push('\n');
        let content_line = last.content.push('\n');
        let none = Seq::<char>::empty();
        let no_lines = Seq::<Seq<char>>::empty();
        // one line of the role
        lemma_sep_free_is_open(last.role, '\n');
        assert(role_line.drop_last() == last.role);
        assert(closed_lines(role_line, '\n') == seq![last.role]) by {
            assert(no_lines.push(last.role) == seq![last.role]);
        }
        assert(open_line(role_line, '\n') == none);
        // one line of the content
        lemma_sep_free_is_open(last.content, '\n');
        assert(content_line.drop_last() == last.content);
        assert(closed_lines(content_line, '\n') == seq![last.content]) by {
            assert(no_lines.push(last.content) == seq![last.content]);
        }
        assert(open_line(content_line, '\n') == none);
        // both behind what was there
        lemma_lines_concat(role_line, content_line, '\n');
        assert(none + content_line == content_line);
        lemma_lines_concat(head, role_line + content_line, '\n');
        assert(open_line(head, '\n') == none);
        assert(none + (role_line + content_line) == role_line + content_line);
        let all = closed_lines(session_text(transcript), '\n');
        assert(all == closed_lines(head, '\n') + (seq![last.role] + seq![last.content]));
        assert forall|i: int| 0 <= i < transcript.len() implies all[2 * i] == (
        #[trigger] transcript[i]).role && all[2 * i + 1] == transcript[i].content by {
            if i < before.len() {
                assert(before[i] == transcript[i]);
                assert(all[2 * i] == closed_lines(head, '\n')[2 * i]);
                assert(all[2 * i + 1] == closed_lines(head, '\n')[2 * i + 1]);
            }
        }
    }
}

/// Saving and loading give the transcript back: the text that stores a
/// transcript without newlines in its roles and contents is read as that
/// transcript.
pub proof fn lemma_save_load_roundtrip(transcript: Seq<Turn>)
    requires
        storable(transcript),
    ensures
        stored_transcript(session_text(transcript)) == Some(transcript),
{
    lemma_session_lines(transcript);
    let lines = closed_lines(session_text(transcript), '\n');
    assert(turns_of_lines(lines) =~= transcript);
}

/// Writes a transcript as the text that stores it.
pub fn render_session(messages: &Vec<Message>) -> (text: String)
    ensures
        text@ == session_text(turns(messages@)),
{
    let mut text = String::new();
    let mut i: usize = 0;
    while i < messages.len()
        invariant
            i <= messages.len(),
            text@ == session_text(turns(messages@.take(i as int))),
        decreases messages.len() - i,
    {
        let ghost before = turns(messages@.take(i as int));
        let ghost now = turns(messages@.take(i + 1));
        let ghost head = text@;
        text.append(messages[i].role.as_str());
        push_char(&mut text, '\n');
        text.append(messages[i].content.as_str());
        push_char(&mut text, '\n');
        proof {
            assert(now.drop_last() == before);
            assert(now.last() == messages@[i as int]@);
            assert(text@ == head + turn_text(now.last()));
        }
        i += 1;
    }
    assert(messages@.take(messages@.len() as int) == messages@);
    text
}

/// Reads a stored text back into the turns it holds.
///
/// Fails with [`SessionError::Corrupt`] exactly where the text is not a
/// sequence of role and content lines, each ended by a newline.
pub fn parse_session(text: &str) -> (loaded: Result<Vec<Message>, SessionError>)
    ensures
        match loaded {
            Ok(messages) => stored_transcript(text@) == Some(turns(messages@)),
            Err(e) => e == SessionError::Corrupt && stored_transcript(text@) is None,
        },
{
    let chars = chars_of(text);
    let mut messages: Vec<Message> = Vec::new();
    let mut role: Option<String> = None;
    let mut line = String::new();
    let mut i: usize = 0;
    while i < chars.len()
        invariant
            i <= chars.len(),
            chars@ == text@,
            line@ == open_line(chars@.take(i as int), '\n'),
            closed_lines(chars@.take(i as int), '\n').len() == 2 * messages@.len() + (if role
                is Some {
                1int
            } else {
                0int
            }),
            role matches Some(r) ==> r@ == closed_lines(chars@.take(i as int), '\n').last(),
            forall|k: int|
                0 <= k < messages@.len() ==> (#[trigger] messages@[k])@ == (Turn {
                    role: closed_lines(chars@.take(i as int), '\n')[2 * k],
                    content: closed_lines(chars@.take(i as int), '\n')[2 * k + 1],
                }),
        decreases chars.len() - i,
    {
        let c: char = chars[i];
        let ghost seen = chars@.take(i as int);
        let ghost next = chars@.take(i + 1);
        proof {
            assert(next.drop_last() == seen);
            assert(next.last() == c);
        }
        if c == '\n' {
            let mut done = String::new();
            core::mem::swap(&mut line, &mut done);
            match role {
                Some(r) => {
                    messages.push(Message { role: r, content: done });
                    role = None;
                },
                None => {
                    role = Some(done);
                },
            }
        } else {
            push_char(&mut line, c);
        }
        i += 1;
    }
    proof {
        assert(chars@.take(chars@.len() as int) == chars@);
    }
    if line.as_str().is_empty() && role.is_none() {
        proof {
            assert(turns_of_lines(closed_lines(text@, '\n')) =~= turns(messages@));
        }
        Ok(messages)
    } else {
        Err(SessionError::Corrupt)
    }
}

/// What is kept on disk.
#[derive(Debug, Clone, Copy, PartialEq, Eq, Structural)]
pub enum Slot {
    /// A saved session, under its name.
    History,
    /// The catalog of models.
    Models,
    /// The catalog of prompts.
    Prompts,
    /// The list of things to do.
    Todos,
}

/// The folders, below the user's data directory, that hold a slot's file.
pub open spec fn slot_folders(slot: Slot, windows: bool) -> Seq<Seq<char>> {
    match slot {
        Slot::History => if windows {
            seq!["SmallTool"@, "History"@]
        } else {
            seq!["small_tools"@, "history"@]
        },
        Slot::Models => if windows {
            seq!["SmallTool"@]
        } else {
            seq!["small_tools"@]
        },
        Slot::Prompts => if windows {
            seq!["SmallTool"@]
        } else {
            seq!["todo_list"@]
        },
        Slot::Todos => if windows {
            seq!["TodoList"@]
        } else {
            seq!["todo_list"@]
        },
    }
}

/// The name of a slot's file; only a saved session's depends on `name`.
pub open spec fn slot_file(slot: Slot, name: Seq<char>) -> Seq<char> {
    match slot {
        Slot::History => name + ".md"@,
        Slot::Models => "models.json"@,
        Slot::Prompts => "prompts.json"@,
        Slot::Todos => "data.json"@,
    }
}

/// The path of a slot's file, part by part: the folders below the user's data
/// directory, then the file. Without a data directory the file lies where the
/// program runs, and the path is the file's name alone.
pub open spec fn slot_path(slot: Slot, windows: bool, in_data_dir: bool, name: Seq<char>) -> Seq<
    Seq<char>,
> {
    if in_data_dir {
        slot_folders(slot, windows).push(slot_file(slot, name))
    } else {
        seq![slot_file(slot, name)]
    }
}

/// The name of a slot's file.
pub fn file_name(slot: Slot, name: &str) -> (file: String)
    ensures
        file@ == slot_file(slot, name@),
{
    match slot {
        Slot::History => {
            let mut file = name.to_owned();
            file.append(".md");
            file
        },
        Slot::Models => "models.json".to_owned(),
        Slot::Prompts => "prompts.json".to_owned(),
        Slot::Todos => "data.json".to_owned(),
    }
}

/// The path of a slot's file, part by part, below the user's data directory
/// where there is one.
pub fn path_parts(slot: Slot, windows: bool, in_data_dir: bool, name: &str) -> (parts: Vec<String>)
    ensures
        texts(parts@) == slot_path(slot, windows, in_data_dir, name@),
{
    let mut parts: Vec<String> = Vec::new();
    if in_data_dir {
        match slot {
            Slot::History => {
                if windows {
                    parts.push("SmallTool".to_owned());
                    parts.push("History".to_owned());
                } else {
                    parts.push("small_tools".to_owned());
                    parts.push("history".to_owned());
                }
            },
            Slot::Models => {
                if windows {
                    parts.push("SmallTool".to_owned());
                } else {
                    parts.push("small_tools".to_owned());
                }
            },
            Slot::Prompts => {
                if windows {
                    parts.push("SmallTool".to_owned());
                } else {
                    parts.push("todo_list".to_owned());
                }
            },
            Slot::Todos => {
                if windows {
                    parts.push("TodoList".to_owned());
                } else {
                    parts.push("todo_list".to_owned());
                }
            },
        }
    }
    parts.push(file_name(slot, name));
    assert(texts(parts@) =~= slot_path(slot, windows, in_data_dir, name@));
    parts
}

} // verus!
