//! The catalog of model endpoints.

use vstd::prelude::*;
use vstd::string::*;
use crate::text::{lowercase, str_eq, to_lowercase, trim, trimmed};

verus! {

/// One model endpoint: where to send requests, with which key, for which
/// model, and whether it is the one to use by default.
#[derive(Debug, PartialEq, Eq)]
pub struct Model {
    pub api_key: String,
    pub model_name: String,
    pub url: String,
    pub default: bool,
}

impl Clone for Model {
    fn clone(&self) -> (copy: Model)
        ensures
            copy == *self,
    {
        Model {
            api_key: self.api_key.clone(),
            model_name: self.model_name.clone(),
            url: self.url.clone(),
            default: self.default,
        }
    }
}

impl Default for Model {
    fn default() -> (model: Model)
        ensures
            model.api_key@.len() == 0,
            model.model_name@.len() == 0,
            model.url@.len() == 0,
            !model.default,
    {
        Model {
            api_key: String::new(),
            model_name: String::new(),
            url: String::new(),
            default: false,
        }
    }
}

/// The models of a catalog, in the order they were added.
#[derive(Debug, PartialEq, Eq)]
pub struct ModelList {
    pub models: Vec<Model>,
}

impl Clone for ModelList {
    fn clone(&self) -> (copy: ModelList)
        ensures
            copy.models@ == self.models@,
    {
        let mut models: Vec<Model> = Vec::new();
        let mut i: usize = 0;
        while i < self.models.len()
            invariant
                i <= self.models.len(),
                models@ == self.models@.take(i as int),
            decreases self.models.len() - i,
        {
            models.push(self.models[i].clone());
            assert(self.models@.take(i + 1) == self.models@.take(i as int).push(
                self.models@[i as int],
            ));
            i += 1;
        }
        assert(self.models@.take(self.models@.len() as int) == self.models@);
        ModelList { models }
    }
}

/// `models` with the default flag set on the one at `index` and cleared on all
/// the others.
pub open spec fn with_default(models: Seq<Model>, index: int) -> Seq<Model> {
    Seq::new(
        models.len(),
        |i: int|
            Model {
                api_key: models[i].api_key,
                model_name: models[i].model_name,
                url: models[i].url,
                default: i == index,
            },
    )
}

/// The position of the first model flagged as default; the length where there
/// is none.
pub open spec fn first_default(models: Seq<Model>) -> int
    decreases models.len(),
{
    if models.len() == 0 || models[0].default {
        0
    } else {
        1 + first_default(models.skip(1))
    }
}

/// A position before which no model is the default, and which holds a default
/// model or is the length, is `first_default`.
pub proof fn lemma_first_default_is(models: Seq<Model>, n: int)
    requires
        0 <= n <= models.len(),
        forall|j: int| 0 <= j < n ==> !(#[trigger] models[j]).default,
        n < models.len() ==> models[n].default,
    ensures
        first_default(models) == n,
    decreases n,
{
    if n > 0 {
        let rest = models.skip(1);
        assert forall|j: int| 0 <= j < n - 1 implies !(#[trigger] rest[j]).default by {
            assert(rest[j] == models[j + 1]);
        }
        assert(n < models.len() ==> rest[n - 1] == models[n]);
        assert(!models[0].default);
        lemma_first_default_is(rest, n - 1);
    }
}

impl ModelList {
    /// An empty catalog.
    pub fn new() -> (list: ModelList)
        ensures
            list.models@.len() == 0,
    {
        ModelList { models: Vec::new() }
    }

    /// Adds `model` at the end.
    pub fn add_model(&mut self, model: Model)
        ensures
            final(self).models@ == old(self).models@.push(model),
    {
        self.models.push(model);
    }

    /// Replaces the model at `index` by `model`. Returns whether there was one;
    /// where there was none, nothing changes.
    pub fn edit_model(&mut self, index: usize, model: Model) -> (done: bool)
        ensures
            done == (index < old(self).models@.len()),
            done ==> final(self).models@ == old(self).models@.update(index as int, model),
            !done ==> final(self).models@ == old(self).models@,
    {
        if index < self.models.len() {
            self.models.set(index, model);
            true
        } else {
            false
        }
    }

    /// Removes the model at `index`; those behind it move up. Returns whether
    /// there was one; where there was none, nothing changes.
    pub fn delete_model(&mut self, index: usize) -> (done: bool)
        ensures
            done == (index < old(self).models@.len()),
            done ==> final(self).models@ == old(self).models@.remove(index as int),
            !done ==> final(self).models@ == old(self).models@,
    {
        if index < self.models.len() {
            self.models.remove(index);
            true
        } else {
            false
        }
    }

    /// The model at `index`, if there is one.
    pub fn get_model(&self, index: usize) -> (model: Option<&Model>)
        ensures
            (model is Some) == (index < self.models@.len()),
            model matches Some(m) ==> *m == self.models@[index as int],
    {
        if index < self.models.len() {
            Some(&self.models[index])
        } else {
            None
        }
    }

    /// Makes the model at `index` the only default one. Returns whether there
    /// was one; where there was none, nothing changes.
    pub fn set_default(&mut self, index: usize) -> (done: bool)
        ensures
            done == (index < old(self).models@.len()),
            done ==> final(self).models@ == with_default(old(self).models@, index as int),
            !done ==> final(self).models@ == old(self).models@,
    {
        if index < self.models.len() {
            let n: usize = self.models.len();
            let mut i: usize = 0;
            while i < n
                invariant
                    i <= n == self.models@.len() == old(self).models@.len(),
                    index < n,
                    forall|j: int|
                        0 <= j < i ==> #[trigger] self.models@[j] == with_default(
                            old(self).models@,
                            index as int,
                        )[j],
                    forall|j: int|
                        i <= j < n ==> #[trigger] self.models@[j] == old(self).models@[j],
                decreases n - i,
            {
                self.models[i].default = i == index;
                i += 1;
            }
            assert(self.models@ =~= with_default(old(self).models@, index as int));
            true
        } else {
            false
        }
    }

    /// The first model flagged as default, if there is one.
    pub fn get_default_model(&self) -> (model: Option<&Model>)
        ensures
            (model is Some) == (exists|j: int|
                0 <= j < self.models@.len() && (#[trigger] self.models@[j]).default),
            model matches Some(m) ==> {
                &&& m.default
                &&& 0 <= first_default(self.models@) < self.models@.len()
                &&& *m == self.models@[first_default(self.models@)]
                &&& forall|j: int|
                    0 <= j < first_default(self.models@) ==> !(#[trigger] self.models@[j]).default
            },
    {
        let mut i: usize = 0;
        while i < self.models.len()
            invariant
                i <= self.models.len(),
                forall|j: int| 0 <= j < i ==> !(#[trigger] self.models@[j]).default,
            decreases self.models.len() - i,
        {
            if self.models[i].default {
                proof {
                    lemma_first_default_is(self.models@, i as int);
                }
                return Some(&self.models[i]);
            }
            i += 1;
        }
        None
    }
}

impl Model {
    /// The model that three lines of input describe: each is trimmed.
    pub fn from_input(api_key: &str, model_name: &str, url: &str, default: bool) -> (model: Model)
        ensures
            model.api_key@ == trimmed(api_key@),
            model.model_name@ == trimmed(model_name@),
            model.url@ == trimmed(url@),
            model.default == default,
    {
        Model { api_key: trim(api_key), model_name: trim(model_name), url: trim(url), default }
    }
}

impl ModelList {
    /// Whether the model at `index` is flagged as default; `false` where there
    /// is none. Deleting such a model asks for a confirmation first.
    pub fn is_default(&self, index: usize) -> (flagged: bool)
        ensures
            flagged == (index < self.models@.len() && self.models@[index as int].default),
    {
        index < self.models.len() && self.models[index].default
    }

    /// Replaces the model at `index` by the one that three lines of input
    /// describe; the default flag stays as it was. Returns whether there was a
    /// model at `index`; where there was none, nothing changes.
    pub fn edit_from_input(
        &mut self,
        index: usize,
        api_key: &str,
        model_name: &str,
        url: &str,
    ) -> (done: bool)
        ensures
            done == (index < old(self).models@.len()),
            !done ==> final(self).models@ == old(self).models@,
            done ==> {
                let edited = final(self).models@[index as int];
                &&& final(self).models@ == old(self).models@.update(index as int, edited)
                &&& edited.api_key@ == trimmed(api_key@)
                &&& edited.model_name@ == trimmed(model_name@)
                &&& edited.url@ == trimmed(url@)
                &&& edited.default == old(self).models@[index as int].default
            },
    {
        if index < self.models.len() {
            let default = self.models[index].default;
            self.edit_model(index, Model::from_input(api_key, model_name, url, default))
        } else {
            false
        }
    }
}

/// The choices of the model menu.
#[derive(Debug, Clone, Copy, PartialEq, Eq, Structural)]
pub enum Menu {
    Add,
    Edit,
    Delete,
    Choose,
    SetDefault,
    Back,
}

impl Menu {
    /// The choice that a keyword stands for; anything unknown goes back.
    pub open spec fn of_keyword(word: Seq<char>) -> Menu {
        if word == "1"@ || word == "add"@ {
            Menu::Add
        } else if word == "2"@ || word == "edit"@ {
            Menu::Edit
        } else if word == "3"@ || word == "delete"@ {
            Menu::Delete
        } else if word == "4"@ || word == "choose"@ {
            Menu::Choose
        } else if word == "5"@ || word == "default"@ {
            Menu::SetDefault
        } else {
            Menu::Back
        }
    }

    /// The choice that a keyword stands for; anything unknown goes back.
    pub fn from_keyword(word: &str) -> (choice: Menu)
        ensures
            choice == Menu::of_keyword(word@),
    {
        if str_eq(word, "1") || str_eq(word, "add") {
            Menu::Add
        } else if str_eq(word, "2") || str_eq(word, "edit") {
            Menu::Edit
        } else if str_eq(word, "3") || str_eq(word, "delete") {
            Menu::Delete
        } else if str_eq(word, "4") || str_eq(word, "choose") {
            Menu::Choose
        } else if str_eq(word, "5") || str_eq(word, "default") {
            Menu::SetDefault
        } else {
            Menu::Back
        }
    }

    /// Reads a line of input as a menu choice: trimmed, and in any case of
    /// letters.
    pub fn form_handler(str: &String) -> (choice: Menu)
        ensures
            choice == Menu::of_keyword(lowercase(trimmed(str@))),
    {
        let word = to_lowercase(trim(str.as_str()).as_str());
        Menu::from_keyword(word.as_str())
    }
}

} // verus!
