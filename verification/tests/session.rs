use small_tools::chat::{App, ChatError, Message};
use small_tools::model::{Model, ModelList};
use small_tools::session::{append_all, Action, ChatSession, Event, Phase};
use small_tools::store::SessionError;

fn message(role: &str, content: &str) -> Message {
    Message { role: role.to_string(), content: content.to_string() }
}

fn session_with(transcript: Vec<Message>) -> ChatSession {
    let models = ModelList {
        models: vec![Model {
            api_key: "k".to_string(),
            model_name: "m".to_string(),
            url: "https://e.example".to_string(),
            default: true,
        }],
    };
    let mut app = App::new(models, String::new(), String::new());
    app.request_body.messages = transcript;
    ChatSession::new(app)
}

fn input(line: &str) -> Event {
    Event::Input(line.to_string())
}

fn chunk(bytes: &str) -> Event {
    Event::Chunk(bytes.as_bytes().to_vec())
}

fn record(content: &str) -> String {
    format!("data: {{\"model\":\"m\",\"choices\":[{{\"delta\":{{\"content\":\"{}\"}},\"index\":0}}]}}\n", content)
}

fn transcript(session: &ChatSession) -> &Vec<Message> {
    &session.app().request_body.messages
}

fn streaming(transcript_before: Vec<Message>, text: &str) -> ChatSession {
    let mut session = session_with(transcript_before);
    assert!(matches!(session.step(input(text)), Action::Post(_)));
    assert_eq!(session.step(Event::Connected(200)), Action::ReadChunk(vec![]));
    assert_eq!(session.phase(), Phase::StreamingReply);
    session
}

#[test]
fn a_new_session_waits_for_input() {
    let session = session_with(vec![message("user", "a")]);
    assert_eq!(session.phase(), Phase::AwaitingInput);
    assert_eq!(transcript(&session), &vec![message("user", "a")]);
}

#[test]
fn a_send_runs_from_input_to_commit() {
    let mut session = session_with(vec![]);
    let action = session.step(input(" hi \n"));
    match action {
        Action::Post(request) => {
            assert_eq!(request.url, "https://e.example");
            assert_eq!(request.authorization, "Bearer k");
            assert_eq!(request.content_type, "application/json");
            assert_eq!(request.model, "m");
            assert_eq!(request.messages, vec![message("user", "hi")]);
            assert!(request.stream);
        }
        other => panic!("unexpected {:?}", other),
    }
    assert_eq!(session.phase(), Phase::Sending);
    assert_eq!(transcript(&session), &vec![message("user", "hi")]);

    assert_eq!(session.step(Event::Connected(200)), Action::ReadChunk(vec![]));
    assert_eq!(session.phase(), Phase::StreamingReply);

    assert_eq!(session.step(chunk(&record("He"))), Action::ReadChunk(vec!["He".to_string()]));
    assert_eq!(session.step(chunk(&record("llo"))), Action::ReadChunk(vec!["llo".to_string()]));
    assert_eq!(transcript(&session), &vec![message("user", "hi")]);
    assert_eq!(session.step(chunk("data: [DONE]\n")), Action::Commit(vec![]));
    assert_eq!(session.phase(), Phase::AwaitingInput);
    assert_eq!(transcript(&session), &vec![message("user", "hi"), message("assistant", "Hello")]);
}

#[test]
fn the_reply_does_not_depend_on_the_chunks() {
    let stream = format!("{}{}: ping\n{}data: [DONE]\n", record("He"), record("l"), record("lo"));
    let bytes = stream.as_bytes();
    for size in 1..=bytes.len() {
        let mut session = streaming(vec![], "hi");
        let mut shown = String::new();
        for piece in bytes.chunks(size) {
            match session.step(Event::Chunk(piece.to_vec())) {
                Action::ReadChunk(fragments) => shown.push_str(&fragments.concat()),
                Action::Commit(fragments) => shown.push_str(&fragments.concat()),
                Action::Wait => {}
                other => panic!("unexpected {:?}", other),
            }
        }
        let _ = session.step(Event::StreamEnded);
        assert_eq!(shown, "Hello", "chunks of {}", size);
        assert_eq!(session.phase(), Phase::AwaitingInput);
        assert_eq!(
            transcript(&session),
            &vec![message("user", "hi"), message("assistant", "Hello")],
            "chunks of {}",
            size
        );
    }
}

#[test]
fn a_reply_without_end_marker_is_committed_at_the_end_of_the_stream() {
    let mut session = streaming(vec![], "hi");
    assert_eq!(session.step(chunk(&record("all"))), Action::ReadChunk(vec!["all".to_string()]));
    let open = record(" of it");
    assert_eq!(session.step(chunk(&open[..open.len() - 1])), Action::ReadChunk(vec![]));
    assert_eq!(session.step(Event::StreamEnded), Action::Commit(vec![" of it".to_string()]));
    assert_eq!(transcript(&session), &vec![message("user", "hi"), message("assistant", "all of it")]);
    assert_eq!(session.phase(), Phase::AwaitingInput);
}

#[test]
fn an_empty_reply_is_committed_empty() {
    let mut session = streaming(vec![], "hi");
    assert_eq!(session.step(Event::StreamEnded), Action::Commit(vec![]));
    assert_eq!(transcript(&session), &vec![message("user", "hi"), message("assistant", "")]);
}

#[test]
fn what_follows_the_end_marker_is_not_read() {
    let mut session = streaming(vec![], "hi");
    let tail = format!("{}data: [DONE]\n{}", record("kept"), record("dropped"));
    assert_eq!(session.step(chunk(&tail)), Action::Commit(vec!["kept".to_string()]));
    assert_eq!(session.step(chunk(&record("late"))), Action::Wait);
    assert_eq!(session.step(Event::StreamEnded), Action::Wait);
    assert_eq!(transcript(&session), &vec![message("user", "hi"), message("assistant", "kept")]);
}

#[test]
fn a_reply_does_not_leak_into_the_next() {
    let mut session = streaming(vec![], "one");
    assert_eq!(session.step(chunk(&record("first"))), Action::ReadChunk(vec!["first".to_string()]));
    assert_eq!(session.step(Event::StreamFailed), Action::Report(ChatError::StreamReadError));
    assert!(matches!(session.step(input("two")), Action::Post(_)));
    assert_eq!(session.step(Event::Connected(200)), Action::ReadChunk(vec![]));
    let open = record("second");
    assert_eq!(session.step(chunk(&open[..10])), Action::ReadChunk(vec![]));
    assert_eq!(session.step(Event::StreamFailed), Action::Report(ChatError::StreamReadError));
    assert!(matches!(session.step(input("three")), Action::Post(_)));
    assert_eq!(session.step(Event::Connected(200)), Action::ReadChunk(vec![]));
    assert_eq!(session.step(chunk(&record("third"))), Action::ReadChunk(vec!["third".to_string()]));
    assert_eq!(session.step(Event::StreamEnded), Action::Commit(vec![]));
    assert_eq!(
        transcript(&session),
        &vec![message("user", "one"), message("user", "two"), message("user", "three"), message("assistant", "third")]
    );
}

#[test]
fn a_blank_message_is_refused() {
    for blank in ["", "\n", "   ", "\t \r\n"] {
        let mut session = session_with(vec![message("user", "a")]);
        assert_eq!(session.step(input(blank)), Action::Report(ChatError::EmptyInput));
        assert_eq!(session.phase(), Phase::AwaitingInput);
        assert_eq!(transcript(&session), &vec![message("user", "a")]);
    }
}

#[test]
fn a_request_that_fails_leaves_the_users_turn() {
    let mut session = session_with(vec![]);
    assert!(matches!(session.step(input("hi")), Action::Post(_)));
    assert_eq!(session.step(Event::TransportFailed), Action::Report(ChatError::TransportError));
    assert_eq!(session.phase(), Phase::AwaitingInput);
    assert_eq!(transcript(&session), &vec![message("user", "hi")]);
}

#[test]
fn a_status_that_is_no_success_fails_the_send() {
    for status in [199, 300, 301, 400, 401, 404, 429, 500, 503, 0, 65535] {
        let mut session = session_with(vec![]);
        assert!(matches!(session.step(input("hi")), Action::Post(_)));
        assert_eq!(
            session.step(Event::Connected(status)),
            Action::Report(ChatError::HttpStatusError(status))
        );
        assert_eq!(session.phase(), Phase::AwaitingInput);
        assert_eq!(transcript(&session), &vec![message("user", "hi")]);
    }
}

#[test]
fn every_success_status_starts_the_reply() {
    for status in [200, 201, 204, 299] {
        let mut session = session_with(vec![]);
        assert!(matches!(session.step(input("hi")), Action::Post(_)));
        assert_eq!(session.step(Event::Connected(status)), Action::ReadChunk(vec![]));
        assert_eq!(session.phase(), Phase::StreamingReply);
    }
}

#[test]
fn a_reply_that_breaks_off_is_dropped() {
    let mut session = streaming(vec![message("user", "a"), message("assistant", "b")], "hi");
    assert_eq!(session.step(chunk(&record("par"))), Action::ReadChunk(vec!["par".to_string()]));
    assert_eq!(session.step(Event::StreamFailed), Action::Report(ChatError::StreamReadError));
    assert_eq!(session.phase(), Phase::AwaitingInput);
    assert_eq!(
        transcript(&session),
        &vec![message("user", "a"), message("assistant", "b"), message("user", "hi")]
    );
}

#[test]
fn clear_and_clear_screen() {
    let mut session = session_with(vec![message("user", "a"), message("assistant", "b")]);
    assert_eq!(session.step(input(":cls")), Action::ClearScreen);
    assert_eq!(transcript(&session).len(), 2);
    assert_eq!(session.step(input(":c")), Action::ReadInput);
    assert!(transcript(&session).is_empty());
    assert_eq!(session.step(input("clear")), Action::ReadInput);
    assert!(transcript(&session).is_empty());
    assert_eq!(session.phase(), Phase::AwaitingInput);
}

#[test]
fn revert_by_command() {
    let mut session = session_with(vec![message("user", "a"), message("assistant", "b"), message("user", "c")]);
    assert_eq!(session.step(input(":revert")), Action::ReadInput);
    assert_eq!(transcript(&session), &vec![message("user", "a")]);
    assert_eq!(session.step(input(":revert")), Action::Report(ChatError::NothingToRevert));
    assert_eq!(transcript(&session), &vec![message("user", "a")]);
    assert_eq!(transcript(&session).len(), 1);
}

#[test]
fn revert_after_a_send_restores_the_transcript() {
    let mut session = streaming(vec![message("user", "a"), message("assistant", "b")], "hi");
    assert_eq!(session.step(chunk(&format!("{}data: [DONE]\n", record("yo")))), Action::Commit(vec!["yo".to_string()]));
    assert_eq!(transcript(&session).len(), 4);
    assert_eq!(session.step(input(":revert")), Action::ReadInput);
    assert_eq!(transcript(&session), &vec![message("user", "a"), message("assistant", "b")]);
}

#[test]
fn save_by_command() {
    let mut session = session_with(vec![message("user", "a"), message("assistant", "b")]);
    assert_eq!(
        session.step(input(":save: talk ")),
        Action::Store { name: "talk".to_string(), text: "user\na\nassistant\nb\n".to_string() }
    );
    assert_eq!(session.phase(), Phase::AwaitingInput);
    assert_eq!(transcript(&session).len(), 2);
    let mut empty = session_with(vec![]);
    assert_eq!(empty.step(input(":save:talk")), Action::ReadInput);
    assert_eq!(empty.phase(), Phase::AwaitingInput);
}

#[test]
fn load_by_command() {
    let mut session = session_with(vec![message("user", "old")]);
    assert_eq!(session.step(input(":load:talk")), Action::Fetch { name: "talk".to_string() });
    assert_eq!(session.phase(), Phase::Loading);
    assert_eq!(session.step(Event::Stored(Ok("user\nnew\n".to_string()))), Action::Restored);
    assert_eq!(session.phase(), Phase::AwaitingInput);
    assert_eq!(transcript(&session), &vec![message("user", "new")]);
}

#[test]
fn load_of_a_missing_name_changes_nothing() {
    let mut session = session_with(vec![message("user", "old")]);
    assert_eq!(session.step(input(":load:missing")), Action::Fetch { name: "missing".to_string() });
    assert_eq!(
        session.step(Event::Stored(Err(SessionError::NotFound))),
        Action::Report(ChatError::SessionNotFound)
    );
    assert_eq!(session.phase(), Phase::AwaitingInput);
    assert_eq!(transcript(&session), &vec![message("user", "old")]);
}

#[test]
fn load_of_a_corrupt_text_changes_nothing() {
    for stored in [Ok("user\nnew".to_string()), Ok("user\n".to_string()), Err(SessionError::Corrupt)] {
        let mut session = session_with(vec![message("user", "old")]);
        assert!(matches!(session.step(input(":load:x")), Action::Fetch { .. }));
        assert_eq!(session.step(Event::Stored(stored)), Action::Report(ChatError::SessionCorrupt));
        assert_eq!(session.phase(), Phase::AwaitingInput);
        assert_eq!(transcript(&session), &vec![message("user", "old")]);
    }
}

#[test]
fn exit_ends_the_session() {
    for line in ["exit", ":b", " :b\n"] {
        let mut session = session_with(vec![message("user", "a")]);
        assert_eq!(session.step(input(line)), Action::Exit);
        assert_eq!(session.phase(), Phase::Exited);
        assert_eq!(session.step(input("hi")), Action::Exit);
        assert_eq!(session.step(Event::Connected(200)), Action::Exit);
        assert_eq!(session.phase(), Phase::Exited);
        assert_eq!(transcript(&session), &vec![message("user", "a")]);
    }
    let mut session = session_with(vec![]);
    assert_eq!(session.step(Event::InputClosed), Action::Exit);
    assert_eq!(session.phase(), Phase::Exited);
}

#[test]
fn events_that_are_not_awaited_change_nothing() {
    let mut session = session_with(vec![message("user", "a")]);
    for event in [
        Event::Connected(200),
        Event::TransportFailed,
        chunk(&record("x")),
        Event::StreamEnded,
        Event::StreamFailed,
        Event::Stored(Ok("user\nb\n".to_string())),
        Event::Stored(Err(SessionError::NotFound)),
    ] {
        assert_eq!(session.step(event), Action::Wait);
        assert_eq!(session.phase(), Phase::AwaitingInput);
        assert_eq!(transcript(&session), &vec![message("user", "a")]);
    }
    assert!(matches!(session.step(input("hi")), Action::Post(_)));
    for event in [input("more"), Event::InputClosed, chunk(&record("x")), Event::StreamEnded, Event::StreamFailed] {
        assert_eq!(session.step(event), Action::Wait);
        assert_eq!(session.phase(), Phase::Sending);
    }
    assert_eq!(session.step(Event::Connected(200)), Action::ReadChunk(vec![]));
    for event in [input(":c"), Event::InputClosed, Event::Connected(500), Event::TransportFailed] {
        assert_eq!(session.step(event), Action::Wait);
        assert_eq!(session.phase(), Phase::StreamingReply);
    }
    assert_eq!(transcript(&session), &vec![message("user", "a"), message("user", "hi")]);
}

#[test]
fn fragments_are_appended_in_order() {
    let mut reply = "so far: ".to_string();
    append_all(&mut reply, &vec!["a".to_string(), String::new(), "bc".to_string()]);
    assert_eq!(reply, "so far: abc");
    append_all(&mut reply, &vec![]);
    assert_eq!(reply, "so far: abc");
}
