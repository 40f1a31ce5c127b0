//! Tests of session output items, the history filter and symbol simplification.

use mudpuppy::config::{Settings, SettingsOverlay};
use mudpuppy::keyboard::{KeyCode, KeyEvent, KeyModifiers};
use mudpuppy::shortcut::{
    default_shortcuts, InputShortcut, PythonShortcut, ScrollShortcut, SettingsShortcut, Shortcut,
    TabShortcut,
};
use mudpuppy::event::Status;
use mudpuppy::idmap::IdMap;
use mudpuppy::model::{InputLine, MudLine, SessionInfo};
use mudpuppy::output::{filter_item, simplify_complex_emoji, Item, Output};

#[test]
fn output_counts_unread_items() {
    let mut out = Output::new();
    assert!(out.is_empty());
    out.push(Item::mud(MudLine::new(b"hello")));
    out.extend(vec![Item::debug("x".to_string()), Item::command_result("ok".to_string())]);
    assert_eq!(out.len(), 3);
    assert_eq!(out.new_data(), 3);
    let items = out.read_received().clone();
    assert_eq!(items.len(), 3);
    assert_eq!(items[2], Item::CommandResult { error: false, message: "ok".to_string() });
    assert_eq!(out.new_data(), 0);
    out.set(vec![Item::failed_command_result("bad".to_string())], false);
    assert_eq!(out.len(), 1);
    assert_eq!(out.new_data(), 0);
    out.set(vec![Item::debug("a".to_string()), Item::debug("b".to_string())], true);
    assert_eq!(out.new_data(), 2);
}

#[test]
fn output_item_display() {
    assert_eq!(Item::mud(MudLine::new(b"hi")).to_string(), "Line: hi");
    assert_eq!(
        Item::input(InputLine::new("secret".to_string(), false, false)).to_string(),
        "Input Line: ******"
    );
    assert_eq!(Item::prompt(MudLine::new(b"> ")).to_string(), "Prompt: > ");
    assert_eq!(Item::held_prompt(MudLine::new(b"> ")).to_string(), "Held Prompt: > ");
    assert_eq!(
        Item::connection_event(Status::Connecting {}).to_string(),
        "Connection Event: connecting"
    );
    assert_eq!(Item::failed_command_result("no".to_string()).to_string(), "Command Result Error: no");
    assert_eq!(Item::command_result("yes".to_string()).to_string(), "Command Result: yes");
    assert_eq!(
        Item::previous_session(MudLine::new(b"old")).to_string(),
        "Line (Previous session): old"
    );
    assert_eq!(Item::debug("d".to_string()).to_string(), "Debug: d");
}

#[test]
fn history_filter() {
    let mut gagged = MudLine::new(b"spam");
    gagged.gag = true;
    assert!(!filter_item(&Item::mud(gagged), true));
    assert!(filter_item(&Item::mud(MudLine::new(b"ok")), false));
    let input = Item::input(InputLine::new("look".to_string(), true, false));
    assert!(filter_item(&input, true));
    assert!(!filter_item(&input, false));
    assert!(!filter_item(&Item::held_prompt(MudLine::new(b"> ")), true));
    assert!(filter_item(&Item::prompt(MudLine::new(b"> ")), true));
}

#[test]
fn emoji_simplification() {
    assert_eq!(simplify_complex_emoji("a"), ("a".to_string(), 1));
    assert_eq!(simplify_complex_emoji("\u{1F1E8}\u{1F1E6}"), ("\u{1F1E8}\u{1F1E6}".to_string(), 2));
    // A family joined with zero-width joiners keeps only its first person.
    let family = "\u{1F468}\u{200D}\u{1F469}\u{200D}\u{1F467}";
    let (simple, width) = simplify_complex_emoji(family);
    assert_eq!(simple, "\u{1F468}\u{200D}");
    assert_eq!(width, 2);
    assert_eq!(simplify_complex_emoji("abcd"), ("abcd".to_string(), 4));
}

#[test]
fn settings_shortcut_toggles() {
    let current = Settings::default();
    let mut next = SettingsOverlay::default();
    assert!(!SettingsShortcut::LineWrap.apply_shortcut(&current, &mut next));
    assert_eq!(next.word_wrap, Some(false));
    assert!(SettingsShortcut::GmcpDebug.apply_shortcut(&current, &mut next));
    assert_eq!(next.gmcp_echo, Some(true));
    assert!(!SettingsShortcut::EchoInput.apply_shortcut(&current, &mut next));
    assert_eq!(next.show_input_echo, Some(false));
    assert_eq!(SettingsShortcut::GmcpDebug.result_message(true), "GmcpDebug enabled");
    assert_eq!(SettingsShortcut::LineWrap.result_message(false), "LineWrap disabled");
}

#[test]
fn idmap_get_mut_changes_in_place() {
    let mut map: IdMap<SessionInfo> = IdMap::new();
    let id = map.construct(|id| SessionInfo { id, mud_name: "Dune".to_string() });
    map.get_mut(id).unwrap().mud_name = "Arrakis".to_string();
    assert_eq!(map.get(id).unwrap().mud_name, "Arrakis");
    assert!(map.get_mut(id + 1).is_none());
}

#[test]
fn key_event_getters() {
    let e: mudpuppy::keyboard::KeyEvent = "ctrl-alt-f5".parse().unwrap();
    assert_eq!(e.get_code(), "f5");
    assert_eq!(e.get_modifiers(), vec!["ctrl".to_string(), "alt".to_string()]);
    let m = mudpuppy::model::KeyEvent::try_from("shift-enter").unwrap();
    assert_eq!(m.get_code(), "enter");
    assert_eq!(m.get_modifiers(), vec!["shift".to_string()]);
}

#[test]
fn shortcut_display_and_defaults() {
    assert_eq!(Shortcut::from(TabShortcut::Close { tab_id: None }).to_string(), "Tab(Close)");
    assert_eq!(Shortcut::from(InputShortcut::CursorWordLeft).to_string(), "SessionInput(CursorWordLeft)");
    assert_eq!(Shortcut::from(ScrollShortcut::Top).to_string(), "Scroll(Top)");
    assert_eq!(Shortcut::from(SettingsShortcut::EchoInput).to_string(), "ToggleSetting(EchoInput)");
    assert_eq!(
        Shortcut::from(PythonShortcut { label: "greet".to_string(), handle: 1 }).to_string(),
        "PythonShortcut(greet)"
    );
    assert_eq!(Shortcut::Quit {}.to_string(), "Quit");
    let defaults = default_shortcuts();
    assert_eq!(defaults.len(), 7);
    assert!(defaults.contains(&(
        KeyEvent::new(KeyCode::Char('x'), KeyModifiers::control()),
        Shortcut::Tab(TabShortcut::Close { tab_id: None })
    )));
    assert!(defaults.contains(&(KeyEvent::new(KeyCode::Esc, KeyModifiers::none()), Shortcut::Quit {})));
}

#[test]
fn python_shortcuts_equal_by_callback() {
    let a = PythonShortcut { label: "greet".to_string(), handle: 3 };
    let b = PythonShortcut { label: "wave".to_string(), handle: 3 };
    let c = PythonShortcut { label: "greet".to_string(), handle: 4 };
    assert_eq!(a, b);
    assert_ne!(a, c);
    assert_eq!(Shortcut::from(a), Shortcut::from(b));
}
