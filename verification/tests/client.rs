//! Tests of a client's connection and prompt mode decisions.

use mudpuppy::client::{
    begin_connect, begin_disconnect, client_description, finish_connect, key_sends_input,
    needs_connect, set_prompt_mode, ConnState,
};
use mudpuppy::event::{Event, Info, Status};
use mudpuppy::model::{KeyCode, PromptMode, PromptSignal, SessionInfo};
use mudpuppy::session::{
    flusher_timeout_expired, flusher_timeout_extended, Prompt, PromptEvent,
    PromptMode as SessionPromptMode, PromptSignal as SessionPromptSignal,
};

fn tcp() -> Info {
    Info::Tcp { ip: "127.0.0.1".to_string(), port: 23 }
}

#[test]
fn client_prompt_mode_changes() {
    let mut mode = PromptMode::Unsignalled { timeout_ms: 200 };
    let eor = PromptMode::Signalled { signal: PromptSignal::EndOfRecord };
    let change = set_prompt_mode(&mut mode, eor, true, true);
    assert_eq!(mode, eor);
    assert!(change.stop_flusher);
    assert_eq!(change.start_flusher_ms, None);
    assert_eq!(change.flush_after_ms, Some(200));
    let change = set_prompt_mode(&mut mode, PromptMode::Unsignalled { timeout_ms: 350 }, false, true);
    assert!(!change.stop_flusher);
    assert_eq!(change.start_flusher_ms, Some(350));
    let change = set_prompt_mode(&mut mode, eor, true, false);
    assert_eq!((change.start_flusher_ms, change.flush_after_ms), (None, None));
}

#[test]
fn client_connect_lifecycle() {
    let mut state = ConnState::Disconnected;
    assert!(needs_connect(&state));
    assert_eq!(
        begin_connect(&mut state, 1),
        Event::Connection { id: 1, status: Status::Connecting {} }
    );
    assert!(!needs_connect(&state));
    let out = finish_connect(&mut state, 1, Ok(tcp()), &PromptMode::Unsignalled { timeout_ms: 500 });
    assert_eq!(state, ConnState::Connected { info: tcp() });
    assert_eq!(out.event, Event::Connection { id: 1, status: Status::Connected { info: tcp() } });
    assert_eq!(out.start_flusher_ms, Some(200));
    assert!(out.request_gmcp);
    assert!(state.connected());
    assert!(begin_disconnect(&mut state));
    assert_eq!(state, ConnState::Disconnected);
    assert!(!begin_disconnect(&mut state));

    let mut state = ConnState::Connecting;
    let out = finish_connect(
        &mut state,
        2,
        Err("refused".to_string()),
        &PromptMode::Signalled { signal: PromptSignal::GoAhead },
    );
    assert_eq!(state, ConnState::Disconnected);
    assert_eq!(out.error, Some("refused".to_string()));
    assert!(!out.request_gmcp);
}

#[test]
fn client_keys_and_description() {
    assert!(key_sends_input(&KeyCode::Enter));
    assert!(!key_sends_input(&KeyCode::Char('a')));
    let info = SessionInfo { id: 3, mud_name: "Dune".to_string() };
    assert_eq!(
        client_description(
            &info,
            &Status::Disconnected {},
            &PromptMode::Unsignalled { timeout_ms: 200 },
            2,
            1,
            0
        ),
        "Client Session(3, Dune) disconnected unterminated prompt mode (200ms timeout) 2 triggers 1 aliases 0 telnet options enabled"
    );
}

#[test]
fn session_prompt_changes() {
    let mut prompt = Prompt::new(5);
    assert_eq!(prompt.content(), "");
    assert_eq!(prompt.flusher(), None);
    let (old, event) = prompt.set_content("HP 10>".to_string());
    assert_eq!(old, "");
    assert_eq!(
        event,
        Some(PromptEvent::ContentChanged { from: String::new(), to: "HP 10>".to_string() })
    );
    let (same, event) = prompt.set_content("HP 10>".to_string());
    assert_eq!(same, "HP 10>");
    assert_eq!(event, None);

    assert_eq!(prompt.init_flusher(), Some(200));
    assert_eq!(prompt.init_flusher(), None);
    let eor = SessionPromptMode::Signalled { signal: SessionPromptSignal::EndOfRecord };
    let (old_mode, change, event) = prompt.set_mode(eor);
    assert_eq!(old_mode, SessionPromptMode::Unsignalled { timeout_ms: 200 });
    assert!(change.stop_flusher);
    assert_eq!(change.start_flusher_ms, None);
    assert_eq!(change.flush_after_ms, Some(200));
    assert_eq!(event, PromptEvent::ModeChanged { from: old_mode, to: eor });
    let (_, change, _) = prompt.set_mode(SessionPromptMode::Unsignalled { timeout_ms: 300 });
    assert!(!change.stop_flusher);
    assert_eq!(change.start_flusher_ms, Some(300));
    assert_eq!(change.flush_after_ms, None);

    assert_eq!(flusher_timeout_expired(true), (true, false));
    assert_eq!(flusher_timeout_expired(false), (false, false));
    assert!(flusher_timeout_extended(false));
}
