use small_tools::chat::{clone_messages, is_success, App, ChatError, Menu, Message, RequestBody};
use small_tools::model::{Model, ModelList};
use small_tools::prompt::Prompt;
use small_tools::store::SessionError;

fn model(name: &str, default: bool) -> Model {
    Model {
        api_key: format!("key-{}", name),
        model_name: name.to_string(),
        url: format!("https://{}.example/v1", name),
        default,
    }
}

fn message(role: &str, content: &str) -> Message {
    Message { role: role.to_string(), content: content.to_string() }
}

fn app() -> App {
    App::new(ModelList { models: vec![model("m", false)] }, String::new(), String::new())
}

fn app_with(transcript: Vec<Message>) -> App {
    let mut app = app();
    app.request_body.messages = transcript;
    app
}

#[test]
fn a_new_session_is_empty_and_streams() {
    let app = app();
    assert_eq!(app.assistant_name, "user");
    assert!(app.request_body.messages.is_empty());
    assert!(app.request_body.stream);
    assert_eq!(app.model, model("m", false));
    assert_eq!(app.models, ModelList { models: vec![model("m", false)] });
}

#[test]
fn a_new_session_takes_the_default_model() {
    let models = ModelList { models: vec![model("a", false), model("b", true), model("c", true)] };
    let app = App::new(models, "u".to_string(), "k".to_string());
    assert_eq!(app.model, model("b", true));
}

#[test]
fn a_new_session_takes_the_first_model_without_a_default() {
    let models = ModelList { models: vec![model("a", false), model("b", false)] };
    let app = App::new(models, "u".to_string(), "k".to_string());
    assert_eq!(app.model, model("a", false));
}

#[test]
fn a_new_session_falls_back_without_a_catalog() {
    let app = App::new(ModelList::new(), "https://fallback".to_string(), "secret".to_string());
    assert_eq!(
        app.model,
        Model {
            api_key: "secret".to_string(),
            model_name: "deepseek-chat".to_string(),
            url: "https://fallback".to_string(),
            default: false,
        }
    );
    assert!(app.models.models.is_empty());
}

#[test]
fn defaults_are_empty() {
    assert_eq!(Message::default(), message("", ""));
    let body = RequestBody::default();
    assert!(body.messages.is_empty());
    assert!(!body.stream);
}

#[test]
fn send_of_nothing_is_refused_and_changes_nothing() {
    for blank in ["", " ", "\n", " \t\r\n ", "\u{3000}\u{a0}"] {
        let mut app = app_with(vec![message("user", "a"), message("assistant", "b")]);
        app.request_body.stream = false;
        assert_eq!(app.begin_send(blank), Err(ChatError::EmptyInput), "text {:?}", blank);
        assert_eq!(app.request_body.messages, vec![message("user", "a"), message("assistant", "b")]);
        assert!(!app.request_body.stream);
    }
    let mut app = app();
    assert_eq!(app.begin_send(""), Err(ChatError::EmptyInput));
    assert_eq!(app.request_body.messages.len(), 0);
}

#[test]
fn send_adds_the_users_turn_and_gives_the_request() {
    let mut app = app_with(vec![message("user", "a"), message("assistant", "b")]);
    app.request_body.stream = false;
    let request = app.begin_send("  how are you?\n").unwrap();
    let transcript = vec![message("user", "a"), message("assistant", "b"), message("user", "how are you?")];
    assert_eq!(app.request_body.messages, transcript);
    assert!(app.request_body.stream);
    assert_eq!(request.url, "https://m.example/v1");
    assert_eq!(request.content_type, "application/json");
    assert_eq!(request.authorization, "Bearer key-m");
    assert_eq!(request.model, "m");
    assert_eq!(request.messages, transcript);
    assert!(request.stream);
}

#[test]
fn commit_adds_the_assistants_turn() {
    let mut app = app();
    app.begin_send("hi").unwrap();
    app.commit_reply("Hello".to_string());
    assert_eq!(app.request_body.messages, vec![message("user", "hi"), message("assistant", "Hello")]);
    app.commit_reply(String::new());
    assert_eq!(app.request_body.messages.len(), 3);
    assert_eq!(app.request_body.messages[2], message("assistant", ""));
}

#[test]
fn a_send_that_is_not_committed_leaves_the_users_turn() {
    let mut app = app();
    app.begin_send("hi").unwrap();
    app.begin_send("anyone?").unwrap();
    assert_eq!(app.request_body.messages, vec![message("user", "hi"), message("user", "anyone?")]);
}

#[test]
fn revert_takes_back_the_last_exchange() {
    let mut app = app_with(vec![message("user", "a"), message("assistant", "b")]);
    let before = clone_messages(&app.request_body.messages);
    app.begin_send("c").unwrap();
    app.commit_reply("d".to_string());
    assert_eq!(app.request_body.messages.len(), 4);
    assert_eq!(app.revert(), Ok(()));
    assert_eq!(app.request_body.messages, before);
}

#[test]
fn two_reverts_take_back_two_exchanges() {
    let mut app = app_with(vec![message("system", "s")]);
    app.begin_send("one").unwrap();
    app.commit_reply("1".to_string());
    app.begin_send("two").unwrap();
    app.commit_reply("2".to_string());
    assert_eq!(app.request_body.messages.len(), 5);
    assert_eq!(app.revert(), Ok(()));
    assert_eq!(app.request_body.messages.len(), 3);
    assert_eq!(app.request_body.messages[2], message("assistant", "1"));
    assert_eq!(app.revert(), Ok(()));
    assert_eq!(app.request_body.messages, vec![message("system", "s")]);
}

#[test]
fn revert_of_one_turn_is_refused() {
    let mut app = app_with(vec![message("user", "a")]);
    assert_eq!(app.revert(), Err(ChatError::NothingToRevert));
    assert_eq!(app.request_body.messages, vec![message("user", "a")]);
}

#[test]
fn revert_of_nothing_is_refused() {
    let mut app = app();
    assert_eq!(app.revert(), Err(ChatError::NothingToRevert));
    assert!(app.request_body.messages.is_empty());
}

#[test]
fn revert_of_exactly_two_turns_empties_the_transcript() {
    let mut app = app_with(vec![message("user", "a"), message("assistant", "b")]);
    assert_eq!(app.revert(), Ok(()));
    assert!(app.request_body.messages.is_empty());
}

#[test]
fn clear_empties_the_transcript() {
    let mut app = app_with(vec![message("user", "a"), message("assistant", "b"), message("user", "c")]);
    app.clear();
    assert!(app.request_body.messages.is_empty());
    app.clear();
    assert!(app.request_body.messages.is_empty());
    assert_eq!(app.model, model("m", false));
}

#[test]
fn save_of_nothing_writes_nothing() {
    assert_eq!(app().save(), None);
}

#[test]
fn save_gives_the_text_to_store() {
    let app = app_with(vec![message("user", "a"), message("assistant", "b")]);
    assert_eq!(app.save(), Some("user\na\nassistant\nb\n".to_string()));
}

#[test]
fn load_replaces_the_transcript() {
    let mut app = app_with(vec![message("user", "old")]);
    assert_eq!(app.load_history_file(Ok("user\nnew\nassistant\nreply\n")), Ok(()));
    assert_eq!(app.request_body.messages, vec![message("user", "new"), message("assistant", "reply")]);
    assert_eq!(app.load_history_file(Ok("")), Ok(()));
    assert!(app.request_body.messages.is_empty());
}

#[test]
fn load_of_a_missing_session_changes_nothing() {
    let mut app = app_with(vec![message("user", "kept")]);
    assert_eq!(app.load_history_file(Err(SessionError::NotFound)), Err(ChatError::SessionNotFound));
    assert_eq!(app.request_body.messages, vec![message("user", "kept")]);
}

#[test]
fn load_of_a_corrupt_session_changes_nothing() {
    let mut app = app_with(vec![message("user", "kept")]);
    assert_eq!(app.load_history_file(Ok("user\nno newline")), Err(ChatError::SessionCorrupt));
    assert_eq!(app.request_body.messages, vec![message("user", "kept")]);
    assert_eq!(app.load_history_file(Ok("only a role\n")), Err(ChatError::SessionCorrupt));
    assert_eq!(app.request_body.messages, vec![message("user", "kept")]);
    assert_eq!(app.load_history_file(Err(SessionError::Corrupt)), Err(ChatError::SessionCorrupt));
    assert_eq!(app.request_body.messages, vec![message("user", "kept")]);
}

#[test]
fn save_then_load_restores_the_session() {
    let transcript = vec![message("user", "a"), message("assistant", "b: c"), message("user", "")];
    let saved = app_with(clone_messages(&transcript)).save().unwrap();
    let mut other = app_with(vec![message("user", "something else")]);
    assert_eq!(other.load_history_file(Ok(&saved)), Ok(()));
    assert_eq!(other.request_body.messages, transcript);
}

#[test]
fn a_prompt_starts_the_conversation_over() {
    let mut app = app_with(vec![message("user", "a"), message("assistant", "b")]);
    app.use_prompt(&Prompt { role: "teacher".to_string(), content: "You teach.".to_string() });
    assert_eq!(app.request_body.messages, vec![message("user", "You teach.")]);
    assert_eq!(app.assistant_name, "teacher");
    assert_eq!(app.reply_label(), "teacher");
}

#[test]
fn replies_are_labelled() {
    let mut app = app();
    assert_eq!(app.reply_label(), "🤖 Assistant");
    app.assistant_name = "User".to_string();
    assert_eq!(app.reply_label(), "User");
}

#[test]
fn success_is_two_hundred_to_two_ninety_nine() {
    for status in 0..=u16::MAX {
        assert_eq!(is_success(status), (200..300).contains(&status), "status {}", status);
    }
}

#[test]
fn messages_are_copied() {
    let transcript = vec![message("user", "a"), message("assistant", "b")];
    assert_eq!(clone_messages(&transcript), transcript);
    assert_eq!(clone_messages(&vec![]), vec![]);
    assert_eq!(message("r", "c").clone(), message("r", "c"));
}

#[test]
fn chat_menu_choices() {
    for (line, choice) in [
        ("1", Menu::Model),
        ("model", Menu::Model),
        (" MODEL \n", Menu::Model),
        ("2", Menu::Prompt),
        ("Prompt", Menu::Prompt),
        ("3\n", Menu::Chat),
        ("cHaT", Menu::Chat),
        ("0", Menu::Back),
        ("quit", Menu::Back),
        ("exit", Menu::Back),
        ("", Menu::Back),
        ("4", Menu::Back),
        ("models", Menu::Back),
        ("mo del", Menu::Back),
    ] {
        assert_eq!(Menu::form_handler(&line.to_string()), choice, "line {:?}", line);
    }
    assert_eq!(Menu::from_keyword("model"), Menu::Model);
    assert_eq!(Menu::from_keyword("MODEL"), Menu::Back);
    assert_eq!(Menu::from_keyword(" 1"), Menu::Back);
}
