//! The chat loop as a state machine.
//!
//! The loop itself, with its reading and sending, runs outside: it hands each
//! thing that happened to [`ChatSession::step`] as an [`Event`] and does what
//! the returned [`Action`] says. The session decides; it performs nothing.
//!
//! A session waits for input, or for the response to a request, or for the
//! next chunk of a reply, or for a stored session. An event that the session
//! is not waiting for changes nothing and is answered with [`Action::Wait`].

use vstd::prelude::*;
use vstd::seq_lib::*;
use vstd::string::*;
use crate::chat::{
    assistant_turn, is_success, reverted, turns, user_turn, App, ChatError, ChatRequest, Turn,
};
use crate::command::{command_of, parse_command, Command, CommandView};
use crate::decoder::{
    ended, feed_spec, finish_spec, initial, lemma_decode_chunks, lemma_feed_concat,
    lemma_run_is_feed, records, stream_content, texts, DecoderState, StreamDecoder,
};
use crate::store::{session_text, stored_transcript, SessionError};
use crate::text::lemma_trimmed_is_tight;

verus! {

/// What a session is waiting for.
#[derive(Debug, Clone, Copy, PartialEq, Eq, Structural)]
pub enum Phase {
    /// The next line of input.
    AwaitingInput,
    /// The response to the request that was sent.
    Sending,
    /// The next chunk of the reply.
    StreamingReply,
    /// What the store holds under the name that was asked for.
    Loading,
    /// Nothing: the loop has been left.
    Exited,
}

/// Something that happened outside.
#[derive(Debug, PartialEq, Eq)]
pub enum Event {
    /// A line of input was read.
    Input(String),
    /// The input has ended or cannot be read.
    InputClosed,
    /// The endpoint answered with this status.
    Connected(u16),
    /// The request did not reach the endpoint.
    TransportFailed,
    /// A chunk of the reply arrived.
    Chunk(Vec<u8>),
    /// The reply has ended.
    StreamEnded,
    /// The reply broke off.
    StreamFailed,
    /// What the store holds: the text, or why there is none.
    Stored(Result<String, SessionError>),
}

/// An [`Event`] with its strings as character sequences.
pub enum EventView {
    Input(Seq<char>),
    InputClosed,
    Connected(u16),
    TransportFailed,
    Chunk(Seq<u8>),
    StreamEnded,
    StreamFailed,
    Stored(Result<Seq<char>, SessionError>),
}

impl View for Event {
    type V = EventView;

    open spec fn view(&self) -> EventView {
        match self {
            Event::Input(line) => EventView::Input(line@),
            Event::InputClosed => EventView::InputClosed,
            Event::Connected(status) => EventView::Connected(*status),
            Event::TransportFailed => EventView::TransportFailed,
            Event::Chunk(bytes) => EventView::Chunk(bytes@),
            Event::StreamEnded => EventView::StreamEnded,
            Event::StreamFailed => EventView::StreamFailed,
            Event::Stored(Ok(text)) => EventView::Stored(Ok(text@)),
            Event::Stored(Err(e)) => EventView::Stored(Err(*e)),
        }
    }
}

/// A request with its strings as character sequences.
pub struct RequestView {
    pub url: Seq<char>,
    pub content_type: Seq<char>,
    pub authorization: Seq<char>,
    pub model: Seq<char>,
    pub messages: Seq<Turn>,
    pub stream: bool,
}

impl View for ChatRequest {
    type V = RequestView;

    open spec fn view(&self) -> RequestView {
        RequestView {
            url: self.url@,
            content_type: self.content_type@,
            authorization: self.authorization@,
            model: self.model@,
            messages: turns(self.messages@),
            stream: self.stream,
        }
    }
}

/// What the loop is to do next.
#[derive(Debug, PartialEq, Eq)]
pub enum Action {
    /// Read the next line of input.
    ReadInput,
    /// Tell the user what went wrong, then read the next line of input.
    Report(ChatError),
    /// Send the request and report the response.
    Post(ChatRequest),
    /// Show these fragments of the reply, then read its next chunk.
    ReadChunk(Vec<String>),
    /// Show these last fragments: the reply is complete and committed. Then
    /// read the next line of input.
    Commit(Vec<String>),
    /// Clear the screen, then read the next line of input.
    ClearScreen,
    /// Write the text under the name, then read the next line of input.
    Store { name: String, text: String },
    /// Report what the store holds under the name.
    Fetch { name: String },
    /// Show the transcript that was loaded, then read the next line of input.
    Restored,
    /// Leave the loop.
    Exit,
    /// Nothing: go on waiting.
    Wait,
}

/// An [`Action`] with its strings as character sequences.
pub enum ActionView {
    ReadInput,
    Report(ChatError),
    Post(RequestView),
    ReadChunk(Seq<Seq<char>>),
    Commit(Seq<Seq<char>>),
    ClearScreen,
    Store { name: Seq<char>, text: Seq<char> },
    Fetch { name: Seq<char> },
    Restored,
    Exit,
    Wait,
}

impl View for Action {
    type V = ActionView;

    open spec fn view(&self) -> ActionView {
        match self {
            Action::ReadInput => ActionView::ReadInput,
            Action::Report(e) => ActionView::Report(*e),
            Action::Post(request) => ActionView::Post(request@),
            Action::ReadChunk(fragments) => ActionView::ReadChunk(texts(fragments@)),
            Action::Commit(fragments) => ActionView::Commit(texts(fragments@)),
            Action::ClearScreen => ActionView::ClearScreen,
            Action::Store { name, text } => ActionView::Store { name: name@, text: text@ },
            Action::Fetch { name } => ActionView::Fetch { name: name@ },
            Action::Restored => ActionView::Restored,
            Action::Exit => ActionView::Exit,
            Action::Wait => ActionView::Wait,
        }
    }
}

/// What a session knows, as far as its decisions depend on it.
pub struct SessionView {
    /// The transcript.
    pub transcript: Seq<Turn>,
    /// What the session is waiting for.
    pub phase: Phase,
    /// The decoder of the reply that is being read.
    pub decoder: DecoderState,
    /// The reply as far as it has arrived.
    pub reply: Seq<char>,
    /// The endpoint's address.
    pub url: Seq<char>,
    /// The endpoint's key.
    pub api_key: Seq<char>,
    /// The endpoint's model.
    pub model_name: Seq<char>,
}

/// The request that carries `transcript` to the session's endpoint.
pub open spec fn request_for(s: SessionView, transcript: Seq<Turn>) -> RequestView {
    RequestView {
        url: s.url,
        content_type: "application/json"@,
        authorization: "Bearer "@ + s.api_key,
        model: s.model_name,
        messages: transcript,
        stream: true,
    }
}

/// What a line of input does to a session that waits for one.
pub open spec fn on_input(s: SessionView, line: Seq<char>) -> (SessionView, ActionView) {
    match command_of(line) {
        CommandView::Exit => (SessionView { phase: Phase::Exited, ..s }, ActionView::Exit),
        CommandView::Clear => (
            SessionView { transcript: Seq::empty(), ..s },
            ActionView::ReadInput,
        ),
        CommandView::ClearScreen => (s, ActionView::ClearScreen),
        CommandView::Revert => if s.transcript.len() >= 2 {
            (SessionView { transcript: reverted(s.transcript), ..s }, ActionView::ReadInput)
        } else {
            (s, ActionView::Report(ChatError::NothingToRevert))
        },
        CommandView::Save(name) => if s.transcript.len() == 0 {
            (s, ActionView::ReadInput)
        } else {
            (s, ActionView::Store { name, text: session_text(s.transcript) })
        },
        CommandView::Load(name) => (
            SessionView { phase: Phase::Loading, ..s },
            ActionView::Fetch { name },
        ),
        CommandView::Send(text) => if text.len() == 0 {
            (s, ActionView::Report(ChatError::EmptyInput))
        } else {
            let transcript = s.transcript.push(user_turn(text));
            (
                SessionView { transcript, phase: Phase::Sending, ..s },
                ActionView::Post(request_for(s, transcript)),
            )
        },
    }
}

/// What a step of the decoder does to a session that reads a reply: the
/// fragments join the reply, and where the stream has ended the reply is
/// committed as the assistant's turn.
pub open spec fn on_fragments(s: SessionView, step: (DecoderState, Seq<Seq<char>>)) -> (
    SessionView,
    ActionView,
) {
    let reply = s.reply + step.1.flatten();
    if step.0.done {
        (
            SessionView {
                transcript: s.transcript.push(assistant_turn(reply)),
                phase: Phase::AwaitingInput,
                decoder: step.0,
                reply: Seq::empty(),
                ..s
            },
            ActionView::Commit(step.1),
        )
    } else {
        (SessionView { decoder: step.0, reply, ..s }, ActionView::ReadChunk(step.1))
    }
}

/// A session back at waiting for input, with an error to report.
pub open spec fn failed(s: SessionView, error: ChatError) -> (SessionView, ActionView) {
    (
        SessionView { phase: Phase::AwaitingInput, reply: Seq::empty(), ..s },
        ActionView::Report(error),
    )
}

/// The session after an event, and what the loop is to do next.
pub open spec fn react(s: SessionView, event: EventView) -> (SessionView, ActionView) {
    match s.phase {
        Phase::AwaitingInput => match event {
            EventView::Input(line) => on_input(s, line),
            EventView::InputClosed => (SessionView { phase: Phase::Exited, ..s }, ActionView::Exit),
            _ => (s, ActionView::Wait),
        },
        Phase::Sending => match event {
            EventView::Connected(status) => if 200 <= status < 300 {
                (
                    SessionView {
                        phase: Phase::StreamingReply,
                        decoder: initial(),
                        reply: Seq::empty(),
                        ..s
                    },
                    ActionView::ReadChunk(Seq::empty()),
                )
            } else {
                failed(s, ChatError::HttpStatusError(status))
            },
            EventView::TransportFailed => failed(s, ChatError::TransportError),
            _ => (s, ActionView::Wait),
        },
        Phase::StreamingReply => match event {
            EventView::Chunk(bytes) => on_fragments(s, feed_spec(s.decoder, bytes)),
            EventView::StreamEnded => on_fragments(s, finish_spec(s.decoder)),
            EventView::StreamFailed => failed(s, ChatError::StreamReadError),
            _ => (s, ActionView::Wait),
        },
        Phase::Loading => match event {
            EventView::Stored(Ok(text)) => match stored_transcript(text) {
                Some(transcript) => (
                    SessionView { transcript, phase: Phase::AwaitingInput, ..s },
                    ActionView::Restored,
                ),
                None => failed(s, ChatError::SessionCorrupt),
            },
            EventView::Stored(Err(SessionError::NotFound)) => failed(s, ChatError::SessionNotFound),
            EventView::Stored(Err(SessionError::Corrupt)) => failed(s, ChatError::SessionCorrupt),
            _ => (s, ActionView::Wait),
        },
        Phase::Exited => (s, ActionView::Exit),
    }
}

/// The session after a run of events.
pub open spec fn drive(s: SessionView, events: Seq<EventView>) -> SessionView
    decreases events.len(),
{
    if events.len() == 0 {
        s
    } else {
        react(drive(s, events.drop_last()), events.last()).0
    }
}

/// The chunks of a reply as the events that bring them.
pub open spec fn chunk_events(chunks: Seq<Seq<u8>>) -> Seq<EventView> {
    Seq::new(chunks.len(), |i: int| EventView::Chunk(chunks[i]))
}

/// Where a reply stands after some of its chunks: committed, if the end marker
/// was among them; otherwise still being read, with the decoder and the reply
/// that the chunks so far make.
pub proof fn lemma_reply_in_progress(s: SessionView, chunks: Seq<Seq<u8>>)
    requires
        s.phase == Phase::StreamingReply,
        s.decoder == initial(),
        s.reply.len() == 0,
    ensures
        ({
            let now = drive(s, chunk_events(chunks));
            let (decoder, fragments) = feed_spec(initial(), chunks.flatten());
            if decoder.done {
                now == (SessionView {
                    transcript: s.transcript.push(assistant_turn(fragments.flatten())),
                    phase: Phase::AwaitingInput,
                    decoder,
                    reply: Seq::empty(),
                    ..s
                })
            } else {
                now == (SessionView { decoder, reply: fragments.flatten(), ..s })
            }
        }),
    decreases chunks.len(),
{
    let none = Seq::<u8>::empty();
    if chunks.len() == 0 {
        assert(initial().pending + chunks.flatten() == none);
        assert(!ended(records(none)));
        assert(s.reply == Seq::<char>::empty());
        assert(feed_spec(initial(), chunks.flatten()).1.flatten() == Seq::<char>::empty());
    } else {
        let before = chunks.drop_last();
        let last = chunks.last();
        lemma_reply_in_progress(s, before);
        assert(chunk_events(chunks).drop_last() == chunk_events(before));
        assert(chunk_events(chunks).last() == EventView::Chunk(last));
        assert(before.push(last) == chunks);
        before.lemma_flatten_push(last);
        lemma_feed_concat(initial(), before.flatten(), last);
        let (mid, head) = feed_spec(initial(), before.flatten());
        let (end, tail) = feed_spec(mid, last);
        if mid.done {
            assert(head + tail == head);
        } else {
            lemma_flatten_concat(head, tail);
        }
    }
}

/// A reply that is read to its end is committed whole, however it was cut into
/// chunks: the session is back at waiting for input, and its transcript has
/// one more turn, the assistant's, with the content of the whole stream.
pub proof fn lemma_reply_is_committed(s: SessionView, chunks: Seq<Seq<u8>>)
    requires
        s.phase == Phase::StreamingReply,
        s.decoder == initial(),
        s.reply.len() == 0,
    ensures
        ({
            let end = drive(s, chunk_events(chunks).push(EventView::StreamEnded));
            &&& end.phase == Phase::AwaitingInput
            &&& end.transcript == s.transcript.push(
                assistant_turn(stream_content(chunks.flatten())),
            )
            &&& end.reply.len() == 0
        }),
{
    let events = chunk_events(chunks).push(EventView::StreamEnded);
    assert(events.drop_last() == chunk_events(chunks));
    assert(events.last() == EventView::StreamEnded);
    lemma_reply_in_progress(s, chunks);
    lemma_run_is_feed(chunks);
    lemma_decode_chunks(chunks);
    let (decoder, fragments) = feed_spec(initial(), chunks.flatten());
    if decoder.done {
        assert(fragments + Seq::<Seq<char>>::empty() == fragments);
    } else {
        lemma_flatten_concat(fragments, finish_spec(decoder).1);
    }
}

/// A send that fails, at whichever point, leaves the transcript as the send
/// began it: the user's turn stays, no assistant's turn joins it.
pub proof fn lemma_failed_send_keeps_transcript(s: SessionView, event: EventView)
    requires
        s.phase == Phase::Sending || s.phase == Phase::StreamingReply,
        react(s, event).1 is Report,
    ensures
        react(s, event).0.transcript == s.transcript,
        react(s, event).0.phase == Phase::AwaitingInput,
{
}

/// A command that is refused changes nothing: a blank message, a revert with
/// fewer than two turns, a load of a name under which nothing is stored or
/// something corrupt.
pub proof fn lemma_refused_command_changes_nothing(s: SessionView, event: EventView)
    requires
        s.phase == Phase::AwaitingInput || s.phase == Phase::Loading,
        react(s, event).1 is Report,
    ensures
        react(s, event).0.transcript == s.transcript,
        react(s, event).0.phase == Phase::AwaitingInput,
{
}

/// Driving a session through two runs of events is driving it through both
/// in a row.
pub proof fn lemma_drive_concat(s: SessionView, first: Seq<EventView>, second: Seq<EventView>)
    ensures
        drive(s, first + second) == drive(drive(s, first), second),
    decreases second.len(),
{
    if second.len() == 0 {
        assert(first + second == first);
    } else {
        lemma_drive_concat(s, first, second.drop_last());
        assert((first + second).drop_last() == first + second.drop_last());
        assert((first + second).last() == second.last());
    }
}

/// An exchange that completes and is then taken back leaves the transcript as
/// it was before the message was sent: the user's turn and the assistant's
/// turn both leave.
pub proof fn lemma_revert_undoes_exchange(
    s: SessionView,
    message: Seq<char>,
    status: u16,
    chunks: Seq<Seq<u8>>,
    revert: Seq<char>,
)
    requires
        s.phase == Phase::AwaitingInput,
        command_of(message) is Send,
        command_of(message)->Send_0.len() > 0,
        200 <= status < 300,
        command_of(revert) == CommandView::Revert,
    ensures
        ({
            let exchange = seq![EventView::Input(message), EventView::Connected(status)]
                + chunk_events(chunks).push(EventView::StreamEnded);
            let after = drive(s, exchange);
            let end = drive(s, exchange.push(EventView::Input(revert)));
            &&& after.phase == Phase::AwaitingInput
            &&& after.transcript == s.transcript.push(user_turn(command_of(message)->Send_0)).push(
                assistant_turn(stream_content(chunks.flatten())),
            )
            &&& end.phase == Phase::AwaitingInput
            &&& end.transcript == s.transcript
        }),
{
    let opening = seq![EventView::Input(message), EventView::Connected(status)];
    let reply = chunk_events(chunks).push(EventView::StreamEnded);
    let exchange = opening + reply;
    let none = Seq::<EventView>::empty();
    // the message is sent and the endpoint answers
    assert(opening.drop_last() == seq![EventView::Input(message)]);
    assert(opening.drop_last().drop_last() == none);
    assert(drive(s, none) == s);
    let sent = react(s, EventView::Input(message)).0;
    assert(drive(s, opening.drop_last()) == sent);
    let streaming = react(sent, EventView::Connected(status)).0;
    assert(drive(s, opening) == streaming);
    // the reply is read to its end
    lemma_drive_concat(s, opening, reply);
    lemma_reply_is_committed(streaming, chunks);
    // and taken back
    let after = drive(s, exchange);
    let all = exchange.push(EventView::Input(revert));
    assert(all.drop_last() == exchange);
    assert(all.last() == EventView::Input(revert));
    assert(reverted(after.transcript) == s.transcript);
}

/// A chat session and what it is waiting for.
pub struct ChatSession {
    app: App,
    phase: Phase,
    decoder: StreamDecoder,
    reply: String,
}

impl View for ChatSession {
    type V = SessionView;

    closed spec fn view(&self) -> SessionView {
        SessionView {
            transcript: self.app.transcript(),
            phase: self.phase,
            decoder: self.decoder@,
            reply: self.reply@,
            url: self.app.model.url@,
            api_key: self.app.model.api_key@,
            model_name: self.app.model.model_name@,
        }
    }
}

/// Appends each of `fragments` to `reply`.
pub fn append_all(reply: &mut String, fragments: &Vec<String>)
    ensures
        final(reply)@ == old(reply)@ + texts(fragments@).flatten(),
{
    let mut i: usize = 0;
    assert(texts(fragments@.take(0)) == Seq::<Seq<char>>::empty());
    assert(old(reply)@ + Seq::<char>::empty() == old(reply)@);
    while i < fragments.len()
        invariant
            i <= fragments.len(),
            reply@ == old(reply)@ + texts(fragments@.take(i as int)).flatten(),
        decreases fragments.len() - i,
    {
        let ghost before = texts(fragments@.take(i as int));
        reply.append(fragments[i].as_str());
        proof {
            assert(texts(fragments@.take(i + 1)) == before.push(fragments@[i as int]@));
            before.lemma_flatten_push(fragments@[i as int]@);
            assert(old(reply)@ + before.flatten() + fragments@[i as int]@ == old(reply)@ + (
            before.flatten() + fragments@[i as int]@));
        }
        i += 1;
    }
    assert(fragments@.take(fragments@.len() as int) == fragments@);
}

impl ChatSession {
    /// The session itself: transcript, endpoint and assistant name.
    pub closed spec fn app_spec(&self) -> App {
        self.app
    }

    /// A session around `app` that waits for input.
    pub fn new(app: App) -> (session: ChatSession)
        ensures
            session.app_spec() == app,
            session@.phase == Phase::AwaitingInput,
            session@.transcript == app.transcript(),
            session@.decoder == initial(),
            session@.reply.len() == 0,
            session@.url == app.model.url@,
            session@.api_key == app.model.api_key@,
            session@.model_name == app.model.model_name@,
    {
        ChatSession {
            app,
            phase: Phase::AwaitingInput,
            decoder: StreamDecoder::new(),
            reply: String::new(),
        }
    }

    /// The session itself: transcript, endpoint and assistant name.
    pub fn app(&self) -> (app: &App)
        ensures
            *app == self.app_spec(),
            app.transcript() == self@.transcript,
    {
        &self.app
    }

    /// Gives the session itself back, as it is now.
    pub fn into_app(self) -> (app: App)
        ensures
            app == self.app_spec(),
    {
        self.app
    }

    /// What the session is waiting for.
    pub fn phase(&self) -> (phase: Phase)
        ensures
            phase == self@.phase,
    {
        self.phase
    }

    /// Takes an event and says what to do next.
    ///
    /// The endpoint, the catalog and the assistant's name stay as they are; the
    /// transcript, the phase and the reply in progress change as [`react`]
    /// says.
    pub fn step(&mut self, event: Event) -> (action: Action)
        ensures
            (final(self)@, action@) == react(old(self)@, event@),
            final(self).app_spec().model == old(self).app_spec().model,
            final(self).app_spec().models == old(self).app_spec().models,
            final(self).app_spec().assistant_name == old(self).app_spec().assistant_name,
    {
        match self.phase {
            Phase::AwaitingInput => match event {
                Event::Input(line) => self.take_input(line),
                Event::InputClosed => {
                    self.phase = Phase::Exited;
                    Action::Exit
                },
                _ => Action::Wait,
            },
            Phase::Sending => match event {
                Event::Connected(status) => {
                    if is_success(status) {
                        self.phase = Phase::StreamingReply;
                        self.decoder = StreamDecoder::new();
                        self.reply = String::new();
                        let none: Vec<String> = Vec::new();
                        assert(texts(none@) == Seq::<Seq<char>>::empty());
                        Action::ReadChunk(none)
                    } else {
                        self.fail(ChatError::HttpStatusError(status))
                    }
                },
                Event::TransportFailed => self.fail(ChatError::TransportError),
                _ => Action::Wait,
            },
            Phase::StreamingReply => match event {
                Event::Chunk(bytes) => {
                    let fragments = self.decoder.feed(bytes.as_slice());
                    self.take_fragments(fragments)
                },
                Event::StreamEnded => {
                    let fragments = self.decoder.finish();
                    self.take_fragments(fragments)
                },
                Event::StreamFailed => self.fail(ChatError::StreamReadError),
                _ => Action::Wait,
            },
            Phase::Loading => match event {
                Event::Stored(stored) => {
                    let loaded = match &stored {
                        Ok(text) => self.app.load_history_file(Ok(text.as_str())),
                        Err(e) => self.app.load_history_file(Err(*e)),
                    };
                    match loaded {
                        Ok(()) => {
                            self.phase = Phase::AwaitingInput;
                            Action::Restored
                        },
                        Err(e) => self.fail(e),
                    }
                },
                _ => Action::Wait,
            },
            Phase::Exited => Action::Exit,
        }
    }

    /// Goes back to waiting for input with an error to report; what there was
    /// of a reply is dropped.
    fn fail(&mut self, error: ChatError) -> (action: Action)
        ensures
            (final(self)@, action@) == failed(old(self)@, error),
            final(self).app == old(self).app,
    {
        self.phase = Phase::AwaitingInput;
        self.reply = String::new();
        Action::Report(error)
    }

    /// Applies the command that a line of input stands for.
    fn take_input(&mut self, line: String) -> (action: Action)
        requires
            old(self).phase == Phase::AwaitingInput,
        ensures
            (final(self)@, action@) == on_input(old(self)@, line@),
            final(self).app.model == old(self).app.model,
            final(self).app.models == old(self).app.models,
            final(self).app.assistant_name == old(self).app.assistant_name,
    {
        match parse_command(line.as_str()) {
            Command::Exit => {
                self.phase = Phase::Exited;
                Action::Exit
            },
            Command::Clear => {
                self.app.clear();
                assert(self.app.transcript() == Seq::<Turn>::empty());
                Action::ReadInput
            },
            Command::ClearScreen => Action::ClearScreen,
            Command::Revert => {
                let ghost before = self.app.request_body.messages@;
                match self.app.revert() {
                    Ok(()) => {
                        assert(self.app.transcript() == reverted(turns(before)));
                        Action::ReadInput
                    },
                    Err(e) => Action::Report(e),
                }
            },
            Command::Save(name) => match self.app.save() {
                Some(text) => Action::Store { name, text },
                None => Action::ReadInput,
            },
            Command::Load(name) => {
                self.phase = Phase::Loading;
                Action::Fetch { name }
            },
            Command::Send(text) => {
                proof {
                    lemma_trimmed_is_tight(line@);
                }
                let ghost before = self.app.request_body.messages@;
                match self.app.begin_send(text.as_str()) {
                    Ok(request) => {
                        self.phase = Phase::Sending;
                        proof {
                            let now = self.app.request_body.messages@;
                            assert(now.drop_last() == before);
                            assert(turns(now) == turns(before).push(user_turn(text@)));
                        }
                        Action::Post(request)
                    },
                    Err(e) => Action::Report(e),
                }
            },
        }
    }

    /// Adds fragments to the reply, and commits the reply where the stream has
    /// ended.
    fn take_fragments(&mut self, fragments: Vec<String>) -> (action: Action)
        requires
            old(self).phase == Phase::StreamingReply,
        ensures
            (final(self)@, action@) == on_fragments(
                old(self)@,
                (old(self).decoder@, texts(fragments@)),
            ),
            final(self).decoder == old(self).decoder,
            final(self).app.model == old(self).app.model,
            final(self).app.models == old(self).app.models,
            final(self).app.assistant_name == old(self).app.assistant_name,
    {
        append_all(&mut self.reply, &fragments);
        if self.decoder.is_done() {
            let mut reply = String::new();
            core::mem::swap(&mut self.reply, &mut reply);
            let ghost before = self.app.request_body.messages@;
            self.app.commit_reply(reply);
            self.phase = Phase::AwaitingInput;
            proof {
                let now = self.app.request_body.messages@;
                assert(now.drop_last() == before);
                assert(turns(now) == turns(before).push(assistant_turn(reply@)));
            }
            Action::Commit(fragments)
        } else {
            Action::ReadChunk(fragments)
        }
    }
}

} // verus!
