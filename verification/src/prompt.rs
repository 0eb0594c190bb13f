//! The catalog of prompt templates.

use vstd::prelude::*;
use vstd::string::*;
use crate::text::{lowercase, str_eq, to_lowercase, trim, trimmed};

verus! {

/// A prompt template: the role that the assistant is to take, and the text
/// that opens the conversation.
#[derive(Debug, PartialEq, Eq)]
pub struct Prompt {
    pub role: String,
    pub content: String,
}

impl Clone for Prompt {
    fn clone(&self) -> (copy: Prompt)
        ensures
            copy == *self,
    {
        Prompt { role: self.role.clone(), content: self.content.clone() }
    }
}

/// The prompts of a catalog, in the order they were added.
#[derive(Debug, PartialEq, Eq)]
pub struct PromptList {
    pub prompts: Vec<Prompt>,
}

impl Clone for PromptList {
    fn clone(&self) -> (copy: PromptList)
        ensures
            copy.prompts@ == self.prompts@,
    {
        let mut prompts: Vec<Prompt> = Vec::new();
        let mut i: usize = 0;
        while i < self.prompts.len()
            invariant
                i <= self.prompts.len(),
                prompts@ == self.prompts@.take(i as int),
            decreases self.prompts.len() - i,
        {
            prompts.push(self.prompts[i].clone());
            assert(self.prompts@.take(i + 1) == self.prompts@.take(i as int).push(
                self.prompts@[i as int],
            ));
            i += 1;
        }
        assert(self.prompts@.take(self.prompts@.len() as int) == self.prompts@);
        PromptList { prompts }
    }
}

impl PromptList {
    /// An empty catalog.
    pub fn new() -> (list: PromptList)
        ensures
            list.prompts@.len() == 0,
    {
        PromptList { prompts: Vec::new() }
    }

    /// Adds `prompt` at the end.
    pub fn add_prompt(&mut self, prompt: Prompt)
        ensures
            final(self).prompts@ == old(self).prompts@.push(prompt),
    {
        self.prompts.push(prompt);
    }

    /// Replaces the prompt at `index` by `prompt`. Returns whether there was
    /// one; where there was none, nothing changes.
    pub fn edit_prompt(&mut self, index: usize, prompt: Prompt) -> (done: bool)
        ensures
            done == (index < old(self).prompts@.len()),
            done ==> final(self).prompts@ == old(self).prompts@.update(index as int, prompt),
            !done ==> final(self).prompts@ == old(self).prompts@,
    {
        if index < self.prompts.len() {
            self.prompts.set(index, prompt);
            true
        } else {
            false
        }
    }

    /// Removes the prompt at `index`; those behind it move up. Returns whether
    /// there was one; where there was none, nothing changes.
    pub fn delete_prompt(&mut self, index: usize) -> (done: bool)
        ensures
            done == (index < old(self).prompts@.len()),
            done ==> final(self).prompts@ == old(self).prompts@.remove(index as int),
            !done ==> final(self).prompts@ == old(self).prompts@,
    {
        if index < self.prompts.len() {
            self.prompts.remove(index);
            true
        } else {
            false
        }
    }

    /// The prompt at `index`, if there is one.
    pub fn get_prompt(&self, index: usize) -> (prompt: Option<&Prompt>)
        ensures
            (prompt is Some) == (index < self.prompts@.len()),
            prompt matches Some(p) ==> *p == self.prompts@[index as int],
    {
        if index < self.prompts.len() {
            Some(&self.prompts[index])
        } else {
            None
        }
    }
}

impl Prompt {
    /// The prompt that two lines of input describe: each is trimmed.
    pub fn from_input(role: &str, content: &str) -> (prompt: Prompt)
        ensures
            prompt.role@ == trimmed(role@),
            prompt.content@ == trimmed(content@),
    {
        Prompt { role: trim(role), content: trim(content) }
    }
}

/// The choices of the prompt menu.
#[derive(Debug, Clone, Copy, PartialEq, Eq, Structural)]
pub enum Menu {
    Add,
    Edit,
    Delete,
    Choose,
    Back,
}

impl Menu {
    /// The choice that a keyword stands for; anything unknown goes back.
    pub open spec fn of_keyword(word: Seq<char>) -> Menu {
        if word == "1"@ || word == "add"@ {
            Menu::Add
        } else if word == "2"@ || word == "edit"@ {
            Menu::Edit
        } else if word == "3"@ || word == "delete"@ {
            Menu::Delete
        } else if word == "4"@ || word == "choose"@ {
            Menu::Choose
        } else {
            Menu::Back
        }
    }

    /// The choice that a keyword stands for; anything unknown goes back.
    pub fn from_keyword(word: &str) -> (choice: Menu)
        ensures
            choice == Menu::of_keyword(word@),
    {
        if str_eq(word, "1") || str_eq(word, "add") {
            Menu::Add
        } else if str_eq(word, "2") || str_eq(word, "edit") {
            Menu::Edit
        } else if str_eq(word, "3") || str_eq(word, "delete") {
            Menu::Delete
        } else if str_eq(word, "4") || str_eq(word, "choose") {
            Menu::Choose
        } else {
            Menu::Back
        }
    }

    /// Reads a line of input as a menu choice: trimmed, and in any case of
    /// letters.
    pub fn form_handler(str: &String) -> (choice: Menu)
        ensures
            choice == Menu::of_keyword(lowercase(trimmed(str@))),
    {
        let word = to_lowercase(trim(str.as_str()).as_str());
        Menu::from_keyword(word.as_str())
    }
}

} // verus!
