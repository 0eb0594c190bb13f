//! The conversation: its turns, the session that owns them, and what the
//! session's commands do to the transcript.
//!
//! Nothing here touches the network or the disk. A send is cut in two: the
//! session first takes the user's text and gives the request to make, and
//! later takes the reply to commit. Between the two the caller talks to the
//! endpoint; where that fails, the reply is never committed and the user's turn
//! stays in the transcript unanswered.

use vstd::prelude::*;
use vstd::string::*;
use crate::model::{first_default, lemma_first_default_is, Model, ModelList};
use crate::prompt::Prompt;
use crate::store::{
    lemma_save_load_roundtrip, parse_session, render_session, session_text, storable,
    stored_transcript, SessionError,
};
use crate::text::{str_eq, to_lowercase, lowercase, trim, trimmed};

verus! {

/// One turn of a conversation.
#[derive(Debug, PartialEq, Eq)]
pub struct Message {
    pub role: String,
    pub content: String,
}

/// A turn with its strings as character sequences.
pub struct Turn {
    pub role: Seq<char>,
    pub content: Seq<char>,
}

impl View for Message {
    type V = Turn;

    open spec fn view(&self) -> Turn {
        Turn { role: self.role@, content: self.content@ }
    }
}

impl Clone for Message {
    fn clone(&self) -> (copy: Message)
        ensures
            copy == *self,
    {
        Message { role: self.role.clone(), content: self.content.clone() }
    }
}

impl Default for Message {
    fn default() -> (message: Message)
        ensures
            message@ == (Turn { role: Seq::empty(), content: Seq::empty() }),
    {
        Message { role: String::new(), content: String::new() }
    }
}

/// The turns that messages stand for.
pub open spec fn turns(messages: Seq<Message>) -> Seq<Turn> {
    Seq::new(messages.len(), |i: int| messages[i]@)
}

/// The turn that a user's text makes.
pub open spec fn user_turn(text: Seq<char>) -> Turn {
    Turn { role: "user"@, content: text }
}

/// The turn that a reply makes.
pub open spec fn assistant_turn(reply: Seq<char>) -> Turn {
    Turn { role: "assistant"@, content: reply }
}

/// A transcript without its last two turns.
pub open spec fn reverted(transcript: Seq<Turn>) -> Seq<Turn> {
    transcript.take(transcript.len() - 2)
}

/// A copy of `messages`.
pub fn clone_messages(messages: &Vec<Message>) -> (copy: Vec<Message>)
    ensures
        copy@ == messages@,
{
    let mut copy: Vec<Message> = Vec::new();
    let mut i: usize = 0;
    while i < messages.len()
        invariant
            i <= messages.len(),
            copy@ == messages@.take(i as int),
        decreases messages.len() - i,
    {
        copy.push(messages[i].clone());
        assert(messages@.take(i + 1) == messages@.take(i as int).push(messages@[i as int]));
        i += 1;
    }
    assert(messages@.take(messages@.len() as int) == messages@);
    copy
}

/// The transcript of a conversation, as it is sent with each request.
#[derive(Debug, PartialEq, Eq)]
pub struct RequestBody {
    pub messages: Vec<Message>,
    /// Whether replies are asked for as a stream.
    pub stream: bool,
}

impl Default for RequestBody {
    fn default() -> (body: RequestBody)
        ensures
            body.messages@.len() == 0,
            !body.stream,
    {
        RequestBody { messages: Vec::new(), stream: false }
    }
}

/// What went wrong with a command. None of these ends the session.
#[derive(Debug, Clone, Copy, PartialEq, Eq, Structural)]
pub enum ChatError {
    /// The message was blank.
    EmptyInput,
    /// The request did not reach the endpoint.
    TransportError,
    /// The endpoint answered with a status that is no success.
    HttpStatusError(u16),
    /// The reply broke off while it was read.
    StreamReadError,
    /// There is no exchange to take back.
    NothingToRevert,
    /// There is no saved session of that name.
    SessionNotFound,
    /// The saved session cannot be read as turns.
    SessionCorrupt,
}

/// The request that a send makes: where it goes, what authorizes it, and the
/// body's three members.
#[derive(Debug, PartialEq, Eq)]
pub struct ChatRequest {
    pub url: String,
    /// The value of the `Content-Type` header.
    pub content_type: String,
    /// The value of the `Authorization` header.
    pub authorization: String,
    pub model: String,
    pub messages: Vec<Message>,
    pub stream: bool,
}

/// A chat session: the transcript and the endpoint it talks to.
#[derive(Debug, PartialEq, Eq)]
pub struct App {
    /// The name that the assistant goes by; `user` until a prompt names it.
    pub assistant_name: String,
    /// The endpoint that the session talks to.
    pub model: Model,
    /// The catalog that the session was made with.
    pub models: ModelList,
    /// The transcript, as it is sent with each request.
    pub request_body: RequestBody,
}

/// The position of the model that a session uses where the catalog is not
/// empty: the first default one, else the first.
pub open spec fn preferred(models: Seq<Model>) -> int {
    if first_default(models) < models.len() {
        first_default(models)
    } else {
        0
    }
}

/// Whether a status code stands for success.
pub fn is_success(status: u16) -> (ok: bool)
    ensures
        ok == (200 <= status < 300),
{
    200 <= status && status < 300
}

impl App {
    /// The transcript, turn by turn.
    pub open spec fn transcript(&self) -> Seq<Turn> {
        turns(self.request_body.messages@)
    }

    /// Whether `other` has the same endpoint, catalog and assistant name, and
    /// asks for replies in the same way.
    pub open spec fn same_setup(&self, other: &App) -> bool {
        &&& self.model == other.model
        &&& self.models == other.models
        &&& self.assistant_name == other.assistant_name
        &&& self.request_body.stream == other.request_body.stream
    }

    /// A session with an empty transcript.
    ///
    /// Its endpoint is the catalog's first default model, or the first model
    /// where none is the default. With an empty catalog it is the model
    /// `deepseek-chat` at `fallback_url` with `fallback_api_key`.
    pub fn new(models: ModelList, fallback_url: String, fallback_api_key: String) -> (app: App)
        ensures
            app.assistant_name@ == "user"@,
            app.request_body.messages@.len() == 0,
            app.request_body.stream,
            app.models == models,
            models.models@.len() > 0 ==> app.model == models.models@[preferred(models.models@)],
            models.models@.len() == 0 ==> {
                &&& app.model.url == fallback_url
                &&& app.model.api_key == fallback_api_key
                &&& app.model.model_name@ == "deepseek-chat"@
                &&& !app.model.default
            },
    {
        let model = if models.models.len() == 0 {
            Model {
                api_key: fallback_api_key,
                model_name: "deepseek-chat".to_owned(),
                url: fallback_url,
                default: false,
            }
        } else {
            match models.get_default_model() {
                Some(m) => m.clone(),
                None => {
                    proof {
                        lemma_first_default_is(models.models@, models.models@.len() as int);
                    }
                    models.models[0].clone()
                },
            }
        };
        App {
            assistant_name: "user".to_owned(),
            model,
            models,
            request_body: RequestBody { messages: Vec::new(), stream: true },
        }
    }

    /// The name under which replies are shown: the assistant's name, or
    /// `🤖 Assistant` where no prompt has given it one.
    pub fn reply_label(&self) -> (label: String)
        ensures
            label@ == if self.assistant_name@ == "user"@ {
                "🤖 Assistant"@
            } else {
                self.assistant_name@
            },
    {
        if str_eq(self.assistant_name.as_str(), "user") {
            "🤖 Assistant".to_owned()
        } else {
            self.assistant_name.clone()
        }
    }

    /// Starts the conversation over with a prompt: the transcript becomes the
    /// prompt's content as the user's first turn, and the assistant takes the
    /// prompt's role as its name.
    pub fn use_prompt(&mut self, prompt: &Prompt)
        ensures
            final(self).transcript() == seq![user_turn(prompt.content@)],
            final(self).assistant_name == prompt.role,
            final(self).model == old(self).model,
            final(self).models == old(self).models,
            final(self).request_body.stream == old(self).request_body.stream,
    {
        self.request_body.messages.clear();
        self.request_body.messages.push(
            Message { role: "user".to_owned(), content: prompt.content.clone() },
        );
        self.assistant_name = prompt.role.clone();
        assert(self.transcript() =~= seq![user_turn(prompt.content@)]);
    }

    /// Takes the user's text for a send.
    ///
    /// A text that is blank once trimmed is refused with
    /// [`ChatError::EmptyInput`] and changes nothing. Otherwise the trimmed text
    /// joins the transcript as the user's turn, and the request to make is
    /// returned: it carries the whole transcript, the endpoint's model name and
    /// the wish for a streamed reply.
    pub fn begin_send(&mut self, user_text: &str) -> (request: Result<ChatRequest, ChatError>)
        ensures
            final(self).model == old(self).model,
            final(self).models == old(self).models,
            final(self).assistant_name == old(self).assistant_name,
            trimmed(user_text@).len() == 0 ==> {
                &&& request == Err::<ChatRequest, ChatError>(ChatError::EmptyInput)
                &&& final(self).request_body == old(self).request_body
            },
            trimmed(user_text@).len() > 0 ==> {
                &&& request is Ok
                &&& final(self).request_body.messages@ == old(self).request_body.messages@.push(
                    final(self).request_body.messages@.last(),
                )
                &&& final(self).request_body.messages@.last()@ == user_turn(trimmed(user_text@))
                &&& final(self).request_body.stream
                &&& request->Ok_0.url == final(self).model.url
                &&& request->Ok_0.content_type@ == "application/json"@
                &&& request->Ok_0.authorization@ == "Bearer "@ + final(self).model.api_key@
                &&& request->Ok_0.model == final(self).model.model_name
                &&& request->Ok_0.messages@ == final(self).request_body.messages@
                &&& request->Ok_0.stream
            },
    {
        let text = trim(user_text);
        if text.as_str().is_empty() {
            return Err(ChatError::EmptyInput);
        }
        self.request_body.messages.push(Message { role: "user".to_owned(), content: text });
        self.request_body.stream = true;
        let mut authorization = "Bearer ".to_owned();
        authorization.append(self.model.api_key.as_str());
        Ok(
            ChatRequest {
                url: self.model.url.clone(),
                content_type: "application/json".to_owned(),
                authorization,
                model: self.model.model_name.clone(),
                messages: clone_messages(&self.request_body.messages),
                stream: true,
            },
        )
    }

    /// Commits a reply: it joins the transcript as the assistant's turn.
    pub fn commit_reply(&mut self, reply: String)
        ensures
            final(self).same_setup(old(self)),
            final(self).request_body.messages@ == old(self).request_body.messages@.push(
                final(self).request_body.messages@.last(),
            ),
            final(self).request_body.messages@.last()@ == assistant_turn(reply@),
    {
        self.request_body.messages.push(Message { role: "assistant".to_owned(), content: reply });
    }

    /// Empties the transcript.
    pub fn clear(&mut self)
        ensures
            final(self).same_setup(old(self)),
            final(self).request_body.messages@.len() == 0,
    {
        self.request_body.messages.clear();
    }

    /// Takes back the last exchange: the last two turns leave the transcript.
    /// With fewer than two turns nothing changes and
    /// [`ChatError::NothingToRevert`] is returned.
    pub fn revert(&mut self) -> (done: Result<(), ChatError>)
        ensures
            final(self).same_setup(old(self)),
            old(self).request_body.messages@.len() >= 2 ==> {
                &&& done is Ok
                &&& final(self).request_body.messages@ == old(self).request_body.messages@.take(
                    old(self).request_body.messages@.len() - 2,
                )
            },
            old(self).request_body.messages@.len() < 2 ==> {
                &&& done == Err::<(), ChatError>(ChatError::NothingToRevert)
                &&& final(self).request_body == old(self).request_body
            },
    {
        if self.request_body.messages.len() < 2 {
            return Err(ChatError::NothingToRevert);
        }
        self.request_body.messages.pop();
        self.request_body.messages.pop();
        assert(self.request_body.messages@ == old(self).request_body.messages@.take(
            old(self).request_body.messages@.len() - 2,
        ));
        Ok(())
    }

    /// The text to store for a save; `None` where the transcript is empty and
    /// there is nothing to write.
    ///
    /// Where no role and no content holds a newline, loading the text gives
    /// the transcript back.
    pub fn save(&self) -> (text: Option<String>)
        ensures
            (text is None) == (self.request_body.messages@.len() == 0),
            text matches Some(t) ==> t@ == session_text(self.transcript()),
            text matches Some(t) ==> storable(self.transcript()) ==> stored_transcript(t@) == Some(
                self.transcript(),
            ),
    {
        if self.request_body.messages.len() == 0 {
            None
        } else {
            proof {
                if storable(self.transcript()) {
                    lemma_save_load_roundtrip(self.transcript());
                }
            }
            Some(render_session(&self.request_body.messages))
        }
    }

    /// Loads a session from what the store holds under its name: the stored
    /// text, or the reason why there is none.
    ///
    /// A text that holds a transcript replaces the session's transcript as a
    /// whole. Where nothing is stored, or the text is corrupt, the transcript
    /// stays as it is and the error says which.
    pub fn load_history_file(&mut self, stored: Result<&str, SessionError>) -> (done: Result<
        (),
        ChatError,
    >)
        ensures
            final(self).same_setup(old(self)),
            match stored {
                Ok(text) => match stored_transcript(text@) {
                    Some(transcript) => done is Ok && final(self).transcript() == transcript,
                    None => {
                        &&& done == Err::<(), ChatError>(ChatError::SessionCorrupt)
                        &&& final(self).request_body == old(self).request_body
                    },
                },
                Err(SessionError::NotFound) => {
                    &&& done == Err::<(), ChatError>(ChatError::SessionNotFound)
                    &&& final(self).request_body == old(self).request_body
                },
                Err(SessionError::Corrupt) => {
                    &&& done == Err::<(), ChatError>(ChatError::SessionCorrupt)
                    &&& final(self).request_body == old(self).request_body
                },
            },
    {
        match stored {
            Ok(text) => match parse_session(text) {
                Ok(messages) => {
                    self.request_body.messages = messages;
                    Ok(())
                },
                Err(_) => Err(ChatError::SessionCorrupt),
            },
            Err(SessionError::NotFound) => Err(ChatError::SessionNotFound),
            Err(SessionError::Corrupt) => Err(ChatError::SessionCorrupt),
        }
    }
}

/// Taking back an exchange right after it was committed gives the transcript
/// that was there before the send.
pub proof fn lemma_revert_undoes_send(transcript: Seq<Turn>, text: Seq<char>, reply: Seq<char>)
    ensures
        reverted(transcript.push(user_turn(text)).push(assistant_turn(reply))) == transcript,
{
}

/// Two exchanges are taken back by two reverts; one revert takes back the
/// second only.
pub proof fn lemma_revert_twice(
    transcript: Seq<Turn>,
    first: Seq<char>,
    first_reply: Seq<char>,
    second: Seq<char>,
    second_reply: Seq<char>,
)
    ensures
        ({
            let after_one = transcript.push(user_turn(first)).push(assistant_turn(first_reply));
            let after_two = after_one.push(user_turn(second)).push(assistant_turn(second_reply));
            &&& reverted(after_two) == after_one
            &&& reverted(reverted(after_two)) == transcript
            &&& reverted(after_two).len() == transcript.len() + 2
            &&& reverted(reverted(after_two)).len() == transcript.len()
        }),
{
    let after_one = transcript.push(user_turn(first)).push(assistant_turn(first_reply));
    let after_two = after_one.push(user_turn(second)).push(assistant_turn(second_reply));
    assert(reverted(after_two) == after_one);
    assert(reverted(after_one) == transcript);
}

/// The choices of the chat menu.
#[derive(Debug, Clone, Copy, PartialEq, Eq, Structural)]
pub enum Menu {
    Model,
    Prompt,
    Chat,
    Back,
}

impl Menu {
    /// The choice that a keyword stands for; anything unknown goes back.
    pub open spec fn of_keyword(word: Seq<char>) -> Menu {
        if word == "1"@ || word == "model"@ {
            Menu::Model
        } else if word == "2"@ || word == "prompt"@ {
            Menu::Prompt
        } else if word == "3"@ || word == "chat"@ {
            Menu::Chat
        } else {
            Menu::Back
        }
    }

    /// The choice that a keyword stands for; anything unknown goes back.
    pub fn from_keyword(word: &str) -> (choice: Menu)
        ensures
            choice == Menu::of_keyword(word@),
    {
        if str_eq(word, "1") || str_eq(word, "model") {
            Menu::Model
        } else if str_eq(word, "2") || str_eq(word, "prompt") {
            Menu::Prompt
        } else if str_eq(word, "3") || str_eq(word, "chat") {
            Menu::Chat
        } else {
            Menu::Back
        }
    }

    /// Reads a line of input as a menu choice: trimmed, and in any case of
    /// letters.
    pub fn form_handler(str: &String) -> (choice: Menu)
        ensures
            choice == Menu::of_keyword(lowercase(trimmed(str@))),
    {
        let word = to_lowercase(trim(str.as_str()).as_str());
        Menu::from_keyword(word.as_str())
    }
}

} // verus!
