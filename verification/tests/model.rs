//! Tests of the data model: key events, lines, prompt modes and their textual forms.

use mudpuppy::input::EchoState;
use mudpuppy::model::{
    InputLine, InputMode, KeyCode, KeyEvent, KeyModifiers, Mud, MouseEvent, MouseEventKind,
    MudLine, PromptMode, PromptSignal, SessionInfo, Shortcut,
};

#[test]
fn model_key_event_parsing() {
    let e = KeyEvent::try_from("Ctrl-Shift-a").unwrap();
    assert_eq!(e.code, KeyCode::Char('a'));
    assert!(e.modifiers.contains(KeyModifiers::control()));
    assert!(e.modifiers.contains(KeyModifiers::shift()));
    assert_eq!(e.to_string(), "ctrl-shift-a");

    let e = KeyEvent::try_from("alt-F12").unwrap();
    assert_eq!(e.code, KeyCode::F(12));
    assert_eq!(e.modifiers.bits(), 4);

    assert!(KeyEvent::try_from("ctrl-").is_err());
    assert!(KeyEvent::try_from("meta-a").is_err());
}

#[test]
fn model_key_code_parsing() {
    assert_eq!(KeyCode::try_from("f5"), Ok(KeyCode::F(5)));
    assert_eq!(KeyCode::try_from("f+5"), Ok(KeyCode::F(5)));
    assert_eq!(KeyCode::try_from("f"), Err("invalid F-key: f".to_string()));
    assert_eq!(KeyCode::try_from("f13"), Err("invalid F-key: f13".to_string()));
    assert_eq!(KeyCode::try_from("F5"), Err("unknown key code: \"F5\"".to_string()));
    assert_eq!(KeyCode::try_from("pageup"), Ok(KeyCode::PageUp));
    assert_eq!(KeyCode::try_from("x"), Ok(KeyCode::Char('x')));
    assert_eq!(
        KeyCode::try_from("nope"),
        Err("unknown key code: \"nope\"".to_string())
    );
    assert_eq!(KeyModifiers::from_string("CTRL"), Some(KeyModifiers::control()));
    assert_eq!(KeyModifiers::from_string("meta"), None);
}

#[test]
fn model_modifier_names() {
    let mut m = KeyModifiers::none();
    m.insert(KeyModifiers::alt());
    m.insert(KeyModifiers::control());
    assert_eq!(m.modifiers(), vec!["ctrl".to_string(), "alt".to_string()]);
}

#[test]
fn model_text_forms() {
    let info = SessionInfo {
        id: 3,
        mud_name: "Dune".to_string(),
    };
    assert_eq!(info.to_string(), "Session(3, Dune)");

    let mut mud = Mud::default();
    mud.name = "Dune".to_string();
    mud.host = "dunemud.net".to_string();
    mud.port = 6789;
    assert_eq!(mud.to_string(), "Dune (dunemud.net:6789)");

    assert_eq!(InputMode::parse("MUDLIST"), Some(InputMode::MudList));
    assert_eq!(InputMode::MudSession.to_string(), "MudSession");
    assert_eq!(Shortcut::parse("tabnext"), Some(Shortcut::TabNext));
    assert_eq!(Shortcut::ScrollBottom.to_string(), "ScrollBottom");
    assert_eq!(MouseEventKind::parse("scrollup"), Some(MouseEventKind::ScrollUp));
    assert_eq!(
        Shortcut::from_mouse(MouseEventKind::ScrollDown),
        Some(Shortcut::ScrollDown)
    );

    let ev = MouseEvent {
        kind: MouseEventKind::LeftButtonDown,
        column: 4,
        row: 9,
        modifiers: KeyModifiers::none(),
    };
    assert_eq!(ev.to_string(), "LeftButtonDown at (4, 9) with no modifiers");
    let mut mods = KeyModifiers::none();
    mods.insert(KeyModifiers::control());
    mods.insert(KeyModifiers::shift());
    let ev = MouseEvent {
        modifiers: mods,
        ..ev
    };
    assert_eq!(
        ev.to_string(),
        "LeftButtonDown at (4, 9) with modifiers: ctrl, shift"
    );
}

#[test]
fn model_input_lines() {
    let line = InputLine::new("a;;  ;;b;;".to_string(), true, false);
    let parts = line.split(";;");
    assert_eq!(parts.len(), 2);
    assert_eq!(parts[0].sent, "a");
    assert_eq!(parts[1].sent, "b");
    assert!(InputLine::new("   ".to_string(), true, false).empty());

    let masked = InputLine::new("pässword".to_string(), false, false);
    assert_eq!(masked.echo, EchoState::Password);
    assert_eq!(masked.to_string(), "*********");

    let mut aliased = InputLine::new("kill orc".to_string(), true, false);
    aliased.original = Some("k orc".to_string());
    let swapped = aliased.clone_with_original();
    assert_eq!(swapped.sent, "k orc");
    assert_eq!(swapped.original, Some("kill orc".to_string()));
}

#[test]
fn model_mud_lines() {
    let mut line = MudLine::new(b"\x1b[31mred\x1b[0m text");
    assert_eq!(line.stripped(), "red text");
    assert_eq!(line.to_str(), "\u{1b}[31mred\u{1b}[0m text");
    line.set("plain");
    assert_eq!(line.raw(), b"plain".to_vec());
    assert_eq!(MudLine::new(&[0x66, 0xff]).to_str(), "f\u{fffd}");
}

#[test]
fn model_prompt_modes() {
    let mode = PromptMode::default();
    assert_eq!(mode.signal(), None);
    assert_eq!(mode.to_string(), "unterminated prompt mode (200ms timeout)");
    let mode = PromptMode::Unsignalled { timeout_ms: 1500 };
    assert_eq!(mode.to_string(), "unterminated prompt mode (1.5s timeout)");
    let mode = PromptMode::Signalled {
        signal: PromptSignal::GoAhead,
    };
    assert_eq!(mode.signal(), Some(PromptSignal::GoAhead));
    assert_eq!(mode.to_string(), "terminated prompt mode (go ahead (GA))");
    assert_eq!(u8::from(PromptSignal::EndOfRecord), 239);
    assert_eq!(u8::from(PromptSignal::GoAhead), 249);
}
