use chat_core::keys::{KeyAction, KeyInput};
use chat_core::state::{App, MessageKind, ScreenMode};

fn type_text(app: &mut App, text: &str) {
    for c in text.chars() {
        let action = app.handle_key(KeyInput::Char(c));
        assert!(matches!(action, KeyAction::Continue));
    }
}

fn chat_app() -> App {
    let mut app = App::new();
    let action = app.handle_key(KeyInput::Enter);
    assert!(matches!(action, KeyAction::Continue));
    assert!(matches!(app.mode, ScreenMode::Chat));
    app
}

#[test]
fn fresh_start_shows_splash_and_seeded_messages() {
    let app = App::new();
    assert!(matches!(app.mode, ScreenMode::Splash));
    assert_eq!(app.transcript.len(), 2);
    assert_eq!(app.transcript[0].kind, MessageKind::System);
    assert_eq!(app.transcript[0].content, "Welcome to CLI CODE.");
    assert_eq!(app.transcript[1].kind, MessageKind::System);
    assert_eq!(
        app.transcript[1].content,
        "I am ready to assist. Type anything to chat with Google Gemini."
    );
    assert_eq!(app.input, "");
    assert!(!app.awaiting_reply);
}

#[test]
fn splash_enter_submits_first_prompt() {
    let mut app = App::new();
    type_text(&mut app, "hi");
    let action = app.handle_key(KeyInput::Enter);
    assert!(matches!(app.mode, ScreenMode::Chat));
    assert_eq!(app.transcript.len(), 4);
    assert_eq!(app.transcript[2].kind, MessageKind::User);
    assert_eq!(app.transcript[2].content, "hi");
    assert_eq!(app.transcript[3].kind, MessageKind::Thinking);
    assert_eq!(app.transcript[3].content, "Consulting Gemini...");
    match action {
        KeyAction::Enqueue(prompt) => assert_eq!(prompt, "hi"),
        other => panic!("expected an enqueued prompt, got {:?}", other),
    }
}

#[test]
fn splash_enter_with_empty_input_just_switches() {
    let mut app = App::new();
    let action = app.handle_key(KeyInput::Enter);
    assert!(matches!(action, KeyAction::Continue));
    assert!(matches!(app.mode, ScreenMode::Chat));
    assert_eq!(app.transcript.len(), 2);
    assert_eq!(app.input, "");
}

#[test]
fn reply_pops_thinking_and_appends_output() {
    let mut app = chat_app();
    type_text(&mut app, "hello there");
    let action = app.handle_key(KeyInput::Enter);
    assert!(matches!(action, KeyAction::Enqueue(_)));
    app.finish_submission(true);
    assert!(app.awaiting_reply);
    assert_eq!(app.input, "");
    assert_eq!(app.transcript.len(), 4);

    let decoded = chat_core::codec::decode_line("Hello\\nWorld");
    assert_eq!(decoded, "Hello\nWorld");
    app.apply_response(decoded);
    assert_eq!(app.transcript.len(), 4);
    assert_eq!(app.transcript[3].kind, MessageKind::Output);
    assert_eq!(app.transcript[3].content, "Hello\nWorld");
    assert!(!app.awaiting_reply);
}

#[test]
fn chat_exit_uppercase_exits_without_submission() {
    let mut app = chat_app();
    let before = app.transcript.len();
    type_text(&mut app, "EXIT");
    let action = app.handle_key(KeyInput::Enter);
    assert!(matches!(action, KeyAction::Exit));
    assert_eq!(app.transcript.len(), before);
    assert!(!app.awaiting_reply);
}

#[test]
fn chat_quit_mixed_case_and_padding_exits() {
    for text in ["quit", "QuIt", "  exit  ", "\tQUIT "] {
        let mut app = chat_app();
        type_text(&mut app, text);
        let action = app.handle_key(KeyInput::Enter);
        assert!(matches!(action, KeyAction::Exit), "input {:?} should quit", text);
        assert_eq!(app.transcript.len(), 2);
    }
}

#[test]
fn quit_word_embedded_in_longer_text_submits() {
    let mut app = chat_app();
    type_text(&mut app, "quit smoking");
    let action = app.handle_key(KeyInput::Enter);
    match action {
        KeyAction::Enqueue(prompt) => assert_eq!(prompt, "quit smoking"),
        other => panic!("expected an enqueued prompt, got {:?}", other),
    }
}

#[test]
fn whitespace_submission_leaves_transcript_unchanged() {
    let mut app = chat_app();
    type_text(&mut app, "  \t ");
    let action = app.handle_key(KeyInput::Enter);
    assert!(matches!(action, KeyAction::Continue));
    assert_eq!(app.transcript.len(), 2);
    assert_eq!(app.input, "");
    assert!(!app.awaiting_reply);
}

#[test]
fn submitted_prompt_is_trimmed_but_transcript_keeps_raw_text() {
    let mut app = chat_app();
    type_text(&mut app, "  hola  ");
    let action = app.handle_key(KeyInput::Enter);
    assert_eq!(app.transcript[2].content, "  hola  ");
    match action {
        KeyAction::Enqueue(prompt) => assert_eq!(prompt, "hola"),
        other => panic!("expected an enqueued prompt, got {:?}", other),
    }
}

#[test]
fn backspace_removes_last_character() {
    let mut app = chat_app();
    type_text(&mut app, "abc");
    let action = app.handle_key(KeyInput::Backspace);
    assert!(matches!(action, KeyAction::Continue));
    assert_eq!(app.input, "ab");
    let _ = app.handle_key(KeyInput::Backspace);
    let _ = app.handle_key(KeyInput::Backspace);
    assert_eq!(app.input, "");
    let action = app.handle_key(KeyInput::Backspace);
    assert!(matches!(action, KeyAction::Continue));
    assert_eq!(app.input, "");
}

#[test]
fn splash_q_escape_and_ctrl_c_quit() {
    let mut app = App::new();
    assert!(matches!(app.handle_key(KeyInput::Char('q')), KeyAction::Exit));
    let mut app = App::new();
    assert!(matches!(app.handle_key(KeyInput::Esc), KeyAction::Exit));
    let mut app = App::new();
    assert!(matches!(app.handle_key(KeyInput::CtrlC), KeyAction::Exit));
}

#[test]
fn chat_ignores_escape_but_honors_ctrl_c() {
    let mut app = chat_app();
    assert!(matches!(app.handle_key(KeyInput::Esc), KeyAction::Continue));
    assert!(matches!(app.handle_key(KeyInput::CtrlC), KeyAction::Exit));
}

#[test]
fn failed_send_appends_system_error_and_clears_input() {
    let mut app = chat_app();
    type_text(&mut app, "hello");
    let action = app.handle_key(KeyInput::Enter);
    assert!(matches!(action, KeyAction::Enqueue(_)));
    app.finish_submission(false);
    assert_eq!(app.transcript.len(), 5);
    assert_eq!(app.transcript[4].kind, MessageKind::System);
    assert_eq!(
        app.transcript[4].content,
        "Error communicating with AI worker: channel closed"
    );
    assert!(!app.awaiting_reply);
    assert_eq!(app.input, "");
}

#[test]
fn unrequested_reply_is_still_appended() {
    let mut app = chat_app();
    assert!(!app.awaiting_reply);
    app.apply_response(String::from("stray"));
    assert_eq!(app.transcript.len(), 3);
    assert_eq!(app.transcript[2].kind, MessageKind::Output);
    assert_eq!(app.transcript[2].content, "stray");
    assert!(!app.awaiting_reply);
}

#[test]
fn double_submission_never_leaves_adjacent_thinking() {
    let mut app = chat_app();
    type_text(&mut app, "first");
    let _ = app.handle_key(KeyInput::Enter);
    app.finish_submission(true);
    type_text(&mut app, "second");
    let _ = app.handle_key(KeyInput::Enter);
    app.finish_submission(true);
    for i in 0..app.transcript.len() - 1 {
        assert!(
            !(app.transcript[i].kind == MessageKind::Thinking
                && app.transcript[i + 1].kind == MessageKind::Thinking)
        );
    }
    app.apply_response(String::from("reply one"));
    app.apply_response(String::from("reply two"));
    for i in 0..app.transcript.len() - 1 {
        assert!(
            !(app.transcript[i].kind == MessageKind::Thinking
                && app.transcript[i + 1].kind == MessageKind::Thinking)
        );
    }
}
