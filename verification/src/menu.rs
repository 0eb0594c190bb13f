//! The main menu: which tool to start.

use vstd::prelude::*;
use vstd::string::*;
use crate::text::{lowercase, str_eq, to_lowercase, trim, trimmed};

verus! {

/// The choices of the main menu.
#[derive(Debug, Clone, Copy, PartialEq, Eq, Structural)]
pub enum Menu {
    /// The list of things to do.
    Todo,
    /// The chat.
    Chat,
    /// The menu once more.
    Show,
}

impl Menu {
    /// The choice that a keyword stands for; anything unknown shows the menu
    /// again.
    pub open spec fn of_keyword(word: Seq<char>) -> Menu {
        if word == "1"@ || word == "todo_list"@ {
            Menu::Todo
        } else if word == "2"@ || word == "chat"@ {
            Menu::Chat
        } else {
            Menu::Show
        }
    }

    /// The choice that a keyword stands for; anything unknown shows the menu
    /// again.
    pub fn from_keyword(word: &str) -> (choice: Menu)
        ensures
            choice == Menu::of_keyword(word@),
    {
        if str_eq(word, "1") || str_eq(word, "todo_list") {
            Menu::Todo
        } else if str_eq(word, "2") || str_eq(word, "chat") {
            Menu::Chat
        } else {
            Menu::Show
        }
    }

    /// Reads a line of input as a menu choice: trimmed, and in any case of
    /// letters.
    pub fn form_handler(str: &String) -> (choice: Menu)
        ensures
            choice == Menu::of_keyword(lowercase(trimmed(str@))),
    {
        let word = to_lowercase(trim(str.as_str()).as_str());
        Menu::from_keyword(word.as_str())
    }
}

} // verus!
