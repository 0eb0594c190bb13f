//! The list of things to do.
//!
//! An entry has a title, a content, the time it was made and the time it is
//! due, both in seconds since 1970. Times are read from the clock and written
//! as text by `chrono`.

use vstd::prelude::*;
use vstd::string::*;
use crate::text::{lowercase, str_eq, to_lowercase, trim, trim_end, trim_end_of, trimmed};

verus! {

/// Seconds in a day.
pub const DAY: i64 = 86_400;

/// The form in which times are written.
pub open spec fn time_pattern() -> Seq<char> {
    "%Y-%m-%d %H:%M:%S"@
}

/// The text that `chrono` writes for a time in the form `pattern`, in UTC;
/// `None` for a time that its calendar cannot hold.
pub uninterp spec fn time_text(seconds: i64, pattern: Seq<char>) -> Option<Seq<char>>;

/// Writes a time as text: `DateTime::from_timestamp(seconds, 0)`, then
/// `DateTime::format` with `pattern`. The contract names the outcome; it says
/// neither which times the calendar holds nor what the text is.
#[verifier::external_body]
fn format_time(seconds: i64, pattern: &str) -> (text: Option<String>)
    requires
        pattern@ == time_pattern(),
    ensures
        match text {
            Some(t) => time_text(seconds, pattern@) == Some(t@),
            None => time_text(seconds, pattern@) is None,
        },
{
    match chrono::DateTime::from_timestamp(seconds, 0) {
        Some(time) => Some(time.format(pattern).to_string()),
        None => None,
    }
}

/// Reads the clock: `chrono::Local::now().timestamp()`. Nothing is promised of
/// the result.
#[verifier::external_body]
fn clock_seconds() -> (seconds: i64) {
    chrono::Local::now().timestamp()
}

/// One thing to do.
#[derive(Debug, PartialEq, Eq)]
pub struct Todo {
    pub title: String,
    pub content: String,
    /// When the entry was made, in seconds since 1970.
    pub create_time: i64,
    /// When the entry is due, in seconds since 1970.
    pub dead_line: i64,
}

impl Default for Todo {
    fn default() -> (todo: Todo)
        ensures
            todo.title@.len() == 0,
            todo.content@.len() == 0,
            todo.create_time == 0,
            todo.dead_line == 0,
    {
        Todo { title: String::new(), content: String::new(), create_time: 0, dead_line: 0 }
    }
}

/// The list of things to do, in the order they were added.
#[derive(Debug, PartialEq, Eq)]
pub struct Todos {
    pub todos: Vec<Todo>,
}

impl Default for Todos {
    fn default() -> (list: Todos)
        ensures
            list.todos@.len() == 0,
    {
        Todos { todos: Vec::new() }
    }
}

/// Why an entry could not be changed.
#[derive(Debug, Clone, Copy, PartialEq, Eq, Structural)]
pub enum TodoError {
    /// The title given is empty.
    EmptyTitle,
    /// No entry has the title given.
    NotFound,
    /// The time an entry would be due lies beyond what a time can hold.
    DeadlineOutOfRange,
}

/// The operations of the list's menu.
#[derive(Debug, Clone, Copy, PartialEq, Eq, Structural)]
pub enum Handler {
    Insert,
    Edit,
    Remove,
    Show,
}

/// The time `days` days after `now`; `None` where that is beyond what a time
/// can hold.
pub open spec fn due(now: i64, days: i64) -> Option<i64> {
    if i64::MIN <= now + days * DAY <= i64::MAX {
        Some((now + days * DAY) as i64)
    } else {
        None
    }
}

/// The position of the first entry whose title, changed by `key`, is `title`;
/// the length where there is none.
pub open spec fn position(
    todos: Seq<Todo>,
    title: Seq<char>,
    key: spec_fn(Seq<char>) -> Seq<char>,
) -> int
    decreases todos.len(),
{
    if todos.len() == 0 || key(todos[0].title@) == title {
        0
    } else {
        1 + position(todos.skip(1), title, key)
    }
}

/// A title as it is.
pub open spec fn exact() -> spec_fn(Seq<char>) -> Seq<char> {
    |title: Seq<char>| title
}

/// A title without the whitespace around it.
pub open spec fn trimming() -> spec_fn(Seq<char>) -> Seq<char> {
    |title: Seq<char>| trimmed(title)
}

/// A position before which no entry matches, and which holds a match or is
/// the length, is `position`.
pub proof fn lemma_position_is(
    todos: Seq<Todo>,
    title: Seq<char>,
    key: spec_fn(Seq<char>) -> Seq<char>,
    n: int,
)
    requires
        0 <= n <= todos.len(),
        forall|j: int| 0 <= j < n ==> key((#[trigger] todos[j]).title@) != title,
        n < todos.len() ==> key(todos[n].title@) == title,
    ensures
        position(todos, title, key) == n,
    decreases n,
{
    if n > 0 {
        let rest = todos.skip(1);
        assert forall|j: int| 0 <= j < n - 1 implies key((#[trigger] rest[j]).title@) != title by {
            assert(rest[j] == todos[j + 1]);
        }
        assert(n < todos.len() ==> rest[n - 1] == todos[n]);
        assert(key(todos[0].title@) != title);
        lemma_position_is(rest, title, key, n - 1);
    }
}

/// The time `days` days after `now`, where a time can hold it.
pub fn deadline_after(now: i64, days: i64) -> (deadline: Option<i64>)
    ensures
        deadline == due(now, days),
{
    let total: i128 = now as i128 + (days as i128) * 86_400;
    if total < i64::MIN as i128 || total > i64::MAX as i128 {
        None
    } else {
        Some(total as i64)
    }
}

impl Handler {
    /// The operation that a keyword stands for; anything unknown shows the
    /// list.
    pub open spec fn of_keyword(word: Seq<char>) -> Handler {
        if word == "1"@ || word == "insert"@ || word == "add"@ {
            Handler::Insert
        } else if word == "2"@ || word == "edit"@ {
            Handler::Edit
        } else if word == "3"@ || word == "remove"@ || word == "delete"@ {
            Handler::Remove
        } else {
            Handler::Show
        }
    }

    /// Whether a keyword stands for an operation.
    pub open spec fn is_known(word: Seq<char>) -> bool {
        ||| Handler::of_keyword(word) != Handler::Show
        ||| word == "4"@
        ||| word == "show"@
        ||| word == "list"@
    }

    /// Whether a keyword leaves the list's menu.
    pub open spec fn is_quit(word: Seq<char>) -> bool {
        word == "q"@ || word == "quit"@ || word == "exit"@
    }

    /// The operation that a keyword stands for, and whether the keyword is a
    /// known one.
    pub fn from_keyword(word: &str) -> (found: (Handler, bool))
        ensures
            found.0 == Handler::of_keyword(word@),
            found.1 == Handler::is_known(word@),
    {
        if str_eq(word, "1") || str_eq(word, "insert") || str_eq(word, "add") {
            (Handler::Insert, true)
        } else if str_eq(word, "2") || str_eq(word, "edit") {
            (Handler::Edit, true)
        } else if str_eq(word, "3") || str_eq(word, "remove") || str_eq(word, "delete") {
            (Handler::Remove, true)
        } else {
            (Handler::Show, str_eq(word, "4") || str_eq(word, "show") || str_eq(word, "list"))
        }
    }

    /// Reads a line of input as an operation: trimmed, and in any case of
    /// letters. The flag says whether the line was a known keyword; where it
    /// was not, the list is shown.
    pub fn analyse_flag(flag: &String) -> (found: (Handler, bool))
        ensures
            found.0 == Handler::of_keyword(lowercase(trimmed(flag@))),
            found.1 == Handler::is_known(lowercase(trimmed(flag@))),
    {
        let word = to_lowercase(trim(flag.as_str()).as_str());
        Handler::from_keyword(word.as_str())
    }

    /// Whether a keyword leaves the list's menu.
    pub fn quits_on(word: &str) -> (quit: bool)
        ensures
            quit == Handler::is_quit(word@),
    {
        str_eq(word, "q") || str_eq(word, "quit") || str_eq(word, "exit")
    }

    /// Whether a line of input leaves the list's menu: trimmed, and in any case
    /// of letters.
    pub fn quits(flag: &String) -> (quit: bool)
        ensures
            quit == Handler::is_quit(lowercase(trimmed(flag@))),
    {
        let word = to_lowercase(trim(flag.as_str()).as_str());
        Handler::quits_on(word.as_str())
    }
}

impl Todo {
    /// The times of the entry as text: when it was made, and when it is due.
    /// `None` where the calendar cannot hold one of them.
    pub fn show(&self) -> (times: Option<(String, String)>)
        ensures
            match times {
                Some((made, due)) => {
                    &&& time_text(self.create_time, time_pattern()) == Some(made@)
                    &&& time_text(self.dead_line, time_pattern()) == Some(due@)
                },
                None => time_text(self.create_time, time_pattern()) is None || time_text(
                    self.dead_line,
                    time_pattern(),
                ) is None,
            },
    {
        match format_time(self.create_time, "%Y-%m-%d %H:%M:%S") {
            Some(made) => match format_time(self.dead_line, "%Y-%m-%d %H:%M:%S") {
                Some(due) => Some((made, due)),
                None => None,
            },
            None => None,
        }
    }
}

impl Todos {
    /// The position of the first entry whose trimmed title is `title`.
    pub fn find_trimmed(&self, title: &str) -> (found: Option<usize>)
        ensures
            match found {
                Some(i) => i == position(self.todos@, title@, trimming()) && i < self.todos@.len(),
                None => position(self.todos@, title@, trimming()) == self.todos@.len(),
            },
    {
        let mut i: usize = 0;
        while i < self.todos.len()
            invariant
                i <= self.todos.len(),
                forall|j: int|
                    0 <= j < i ==> trimming()((#[trigger] self.todos@[j]).title@) != title@,
            decreases self.todos.len() - i,
        {
            if str_eq(trim(self.todos[i].title.as_str()).as_str(), title) {
                proof {
                    lemma_position_is(self.todos@, title@, trimming(), i as int);
                }
                return Some(i);
            }
            i += 1;
        }
        proof {
            lemma_position_is(self.todos@, title@, trimming(), i as int);
        }
        None
    }

    /// The position of the first entry whose title is `title`.
    pub fn find_exact(&self, title: &str) -> (found: Option<usize>)
        ensures
            match found {
                Some(i) => i == position(self.todos@, title@, exact()) && i < self.todos@.len(),
                None => position(self.todos@, title@, exact()) == self.todos@.len(),
            },
    {
        let mut i: usize = 0;
        while i < self.todos.len()
            invariant
                i <= self.todos.len(),
                forall|j: int| 0 <= j < i ==> exact()((#[trigger] self.todos@[j]).title@) != title@,
            decreases self.todos.len() - i,
        {
            if str_eq(self.todos[i].title.as_str(), title) {
                proof {
                    lemma_position_is(self.todos@, title@, exact(), i as int);
                }
                return Some(i);
            }
            i += 1;
        }
        proof {
            lemma_position_is(self.todos@, title@, exact(), i as int);
        }
        None
    }

    /// Adds an entry made at `now` and due `days` days later. Title and
    /// content lose their trailing whitespace. Where the time it would be due
    /// is beyond what a time can hold, nothing is added.
    pub fn insert_todo(&mut self, title: &str, content: &str, now: i64, days: i32) -> (done: Result<
        (),
        TodoError,
    >)
        ensures
            match due(now, days as i64) {
                Some(deadline) => {
                    &&& done is Ok
                    &&& final(self).todos@ == old(self).todos@.push(final(self).todos@.last())
                    &&& final(self).todos@.last().title@ == trim_end(title@)
                    &&& final(self).todos@.last().content@ == trim_end(content@)
                    &&& final(self).todos@.last().create_time == now
                    &&& final(self).todos@.last().dead_line == deadline
                },
                None => {
                    &&& done == Err::<(), TodoError>(TodoError::DeadlineOutOfRange)
                    &&& final(self).todos@ == old(self).todos@
                },
            },
    {
        match deadline_after(now, days as i64) {
            Some(dead_line) => {
                self.todos.push(
                    Todo {
                        title: trim_end_of(title),
                        content: trim_end_of(content),
                        create_time: now,
                        dead_line,
                    },
                );
                Ok(())
            },
            None => Err(TodoError::DeadlineOutOfRange),
        }
    }

    /// Adds an entry made now, by the clock, and due `days` days later.
    /// Whatever the clock says, either one entry with this title and content
    /// joins the list at its end, or nothing changes.
    pub fn insert_now(&mut self, title: &str, content: &str, days: i32) -> (done: Result<
        (),
        TodoError,
    >)
        ensures
            done is Ok ==> {
                &&& final(self).todos@ == old(self).todos@.push(final(self).todos@.last())
                &&& final(self).todos@.last().title@ == trim_end(title@)
                &&& final(self).todos@.last().content@ == trim_end(content@)
                &&& due(final(self).todos@.last().create_time, days as i64) == Some(
                    final(self).todos@.last().dead_line,
                )
            },
            done is Err ==> {
                &&& done == Err::<(), TodoError>(TodoError::DeadlineOutOfRange)
                &&& final(self).todos@ == old(self).todos@
            },
    {
        let now = clock_seconds();
        self.insert_todo(title, content, now, days)
    }

    /// Removes the first entry whose trimmed title is `title` without its
    /// trailing whitespace, and returns it.
    ///
    /// An empty title is refused; where no entry matches, nothing changes.
    pub fn remove_todo(&mut self, title: &str) -> (removed: Result<Todo, TodoError>)
        ensures
            ({
                let wanted = trim_end(title@);
                let at = position(old(self).todos@, wanted, trimming());
                if wanted.len() == 0 {
                    &&& removed matches Err(TodoError::EmptyTitle)
                    &&& final(self).todos@ == old(self).todos@
                } else if at == old(self).todos@.len() {
                    &&& removed matches Err(TodoError::NotFound)
                    &&& final(self).todos@ == old(self).todos@
                } else {
                    &&& 0 <= at < old(self).todos@.len()
                    &&& removed matches Ok(todo) && todo == old(self).todos@[at]
                    &&& final(self).todos@ == old(self).todos@.remove(at)
                }
            }),
    {
        let wanted = trim_end_of(title);
        if wanted.as_str().is_empty() {
            return Err(TodoError::EmptyTitle);
        }
        match self.find_trimmed(wanted.as_str()) {
            Some(i) => Ok(self.todos.remove(i)),
            None => Err(TodoError::NotFound),
        }
    }

    /// Rewrites the first entry whose title is `title` without its trailing
    /// whitespace: it gets the content, is made anew at `now`, and is due
    /// `days` days later. Its place in the list stays.
    ///
    /// Where no entry has the title, or the time it would be due is beyond
    /// what a time can hold, nothing changes.
    pub fn edit_todo(&mut self, title: &str, content: &str, now: i64, days: u32) -> (done: Result<
        (),
        TodoError,
    >)
        ensures
            ({
                let wanted = trim_end(title@);
                let at = position(old(self).todos@, wanted, exact());
                if at == old(self).todos@.len() {
                    &&& done == Err::<(), TodoError>(TodoError::NotFound)
                    &&& final(self).todos@ == old(self).todos@
                } else if due(now, days as i64) is None {
                    &&& done == Err::<(), TodoError>(TodoError::DeadlineOutOfRange)
                    &&& 0 <= at < old(self).todos@.len()
                    &&& final(self).todos@ == old(self).todos@
                } else {
                    &&& done is Ok
                    &&& 0 <= at < old(self).todos@.len()
                    &&& final(self).todos@ == old(self).todos@.update(at, final(self).todos@[at])
                    &&& final(self).todos@[at].title@ == wanted
                    &&& final(self).todos@[at].content@ == trim_end(content@)
                    &&& final(self).todos@[at].create_time == now
                    &&& Some(final(self).todos@[at].dead_line) == due(now, days as i64)
                }
            }),
    {
        let wanted = trim_end_of(title);
        match self.find_exact(wanted.as_str()) {
            Some(i) => match deadline_after(now, days as i64) {
                Some(dead_line) => {
                    self.todos.set(
                        i,
                        Todo {
                            title: wanted,
                            content: trim_end_of(content),
                            create_time: now,
                            dead_line,
                        },
                    );
                    Ok(())
                },
                None => Err(TodoError::DeadlineOutOfRange),
            },
            None => Err(TodoError::NotFound),
        }
    }

    /// Rewrites an entry as [`Todos::edit_todo`] does, made anew now, by the
    /// clock.
    ///
    /// Where no entry has the title, nothing changes and
    /// [`TodoError::NotFound`] is returned, whatever the clock says. Where one
    /// has it, the clock decides: either the entry is rewritten in its place,
    /// due `days` days after the time it was made anew, or that time lies
    /// beyond what a time can hold and nothing changes. With no days to add,
    /// the clock cannot make it fail.
    pub fn edit_now(&mut self, title: &str, content: &str, days: u32) -> (done: Result<
        (),
        TodoError,
    >)
        ensures
            ({
                let wanted = trim_end(title@);
                let at = position(old(self).todos@, wanted, exact());
                if at == old(self).todos@.len() {
                    &&& done == Err::<(), TodoError>(TodoError::NotFound)
                    &&& final(self).todos@ == old(self).todos@
                } else {
                    &&& 0 <= at < old(self).todos@.len()
                    &&& days == 0 ==> done is Ok
                    &&& match done {
                        Ok(_) => {
                            let edited = final(self).todos@[at];
                            &&& final(self).todos@ == old(self).todos@.update(at, edited)
                            &&& edited.title@ == wanted
                            &&& edited.content@ == trim_end(content@)
                            &&& Some(edited.dead_line) == due(edited.create_time, days as i64)
                        },
                        Err(e) => {
                            &&& e == TodoError::DeadlineOutOfRange
                            &&& days > 0
                            &&& final(self).todos@ == old(self).todos@
                        },
                    }
                }
            }),
    {
        let now = clock_seconds();
        self.edit_todo(title, content, now, days)
    }
}

} // verus!
