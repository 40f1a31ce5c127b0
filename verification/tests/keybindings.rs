//! Tests of key bindings: reading raw bindings, merging and writing them back.

use mudpuppy::config_file::Config;
use mudpuppy::error::{ConfigError, KeyBindingError};
use mudpuppy::keybindings::{default_input_mode, KeyBindings, RawKeyBinding};
use mudpuppy::model::{InputMode, KeyCode, KeyEvent, KeyModifiers, Mud, Shortcut, Tls};

fn raw(mode: &str, keys: &str, action: &str) -> RawKeyBinding {
    RawKeyBinding { mode: mode.to_string(), keys: keys.to_string(), action: action.to_string() }
}

/// A binding written without a mode, as the configuration file reader fills it in.
fn raw_default_mode(keys: &str, action: &str) -> RawKeyBinding {
    RawKeyBinding { mode: default_input_mode(), keys: keys.to_string(), action: action.to_string() }
}

fn test_config() -> Vec<RawKeyBinding> {
    vec![raw_default_mode("ctrl-p", "tabnext"), raw("mudlist", "enter", "MudListConnect")]
}

#[test]
fn test_valid_config() {
    assert_eq!(
        KeyBindings::from_raw(&test_config()).unwrap().lookup(
            InputMode::MudSession,
            &KeyEvent::new(KeyCode::Char('p'), KeyModifiers::control())
        ),
        Some(Shortcut::TabNext)
    );
}

#[test]
fn test_roundtrip() {
    let bindings = KeyBindings::from_raw(&test_config()).unwrap();
    assert_eq!(bindings, KeyBindings::from_raw(&bindings.to_raw()).unwrap());
}

#[test]
fn test_invalid_mode() {
    let invalid_config = vec![raw("invalid", "ctrl-p", "search")];
    assert_eq!(
        KeyBindings::from_raw(&invalid_config).unwrap_err().to_string(),
        "unknown input mode: \"invalid\""
    );
}

#[test]
fn test_invalid_shortcut() {
    let invalid_config = vec![raw_default_mode("ctrl-p", "search")];
    assert_eq!(
        KeyBindings::from_raw(&invalid_config).unwrap_err().to_string(),
        "unknown shortcut: \"search\""
    );
}

#[test]
fn test_merge() {
    let default_config = vec![raw_default_mode("ctrl-p", "tabnext")];
    let user_config = vec![raw_default_mode("ctrl-p", "quit")];

    let defaults = KeyBindings::from_raw(&default_config).unwrap();
    let mut user = KeyBindings::from_raw(&user_config).unwrap();
    user.merge(defaults);

    assert_eq!(
        user.lookup(
            InputMode::MudSession,
            &KeyEvent::new(KeyCode::Char('p'), KeyModifiers::control())
        ),
        Some(Shortcut::Quit)
    );
}

#[test]
fn test_default_mode() {
    let config = vec![raw_default_mode("ctrl-q", "quit")];
    let bindings = KeyBindings::from_raw(&config).unwrap();
    assert_eq!(
        bindings.lookup(
            InputMode::MudSession,
            &KeyEvent::new(KeyCode::Char('q'), KeyModifiers::control())
        ),
        Some(Shortcut::Quit)
    );
}

#[test]
fn keybindings_default_mode_name() {
    assert_eq!(default_input_mode(), "MudSession");
}

#[test]
fn keybindings_later_binding_wins() {
    let config = vec![raw_default_mode("ctrl-q", "quit"), raw("MudSession", "Ctrl-Q", "tabclose")];
    let bindings = KeyBindings::from_raw(&config).unwrap();
    let ctrl_q = KeyEvent::new(KeyCode::Char('q'), KeyModifiers::control());
    assert_eq!(bindings.lookup(InputMode::MudSession, &ctrl_q), Some(Shortcut::TabClose));
    assert_eq!(bindings.lookup(InputMode::MudList, &ctrl_q), None);
    assert_eq!(bindings.to_raw().len(), 1);
}

#[test]
fn keybindings_invalid_keys_error() {
    let config = vec![raw_default_mode("ctrl-p", "quit"), raw_default_mode("ctrl-f99", "quit")];
    let err = KeyBindings::from_raw(&config).unwrap_err();
    assert_eq!(err, KeyBindingError::InvalidKeys("invalid F-key: f99".to_string()));
    assert_eq!(err.to_string(), "invalid keybinding keys: invalid F-key: f99");
}

#[test]
fn keybindings_first_error_wins() {
    let config = vec![raw("nowhere", "bogus", "nothing"), raw_default_mode("ctrl-p", "nothing")];
    assert_eq!(
        KeyBindings::from_raw(&config).unwrap_err(),
        KeyBindingError::UnknownMode("nowhere".to_string())
    );
}

#[test]
fn keybindings_modes_and_bindings() {
    let bindings = KeyBindings::from_raw(&vec![
        raw_default_mode("ctrl-p", "tabnext"),
        raw("mudlist", "enter", "MudListConnect"),
        raw_default_mode("pageup", "scrollup"),
    ])
    .unwrap();
    assert_eq!(bindings.modes(), vec![InputMode::MudList, InputMode::MudSession]);
    let session = bindings.bindings(InputMode::MudSession);
    assert_eq!(session.len(), 2);
    assert!(session.contains(&(
        KeyEvent::new(KeyCode::PageUp, KeyModifiers::none()),
        Shortcut::ScrollUp
    )));
    assert_eq!(
        bindings.bindings(InputMode::MudList),
        vec![(KeyEvent::new(KeyCode::Enter, KeyModifiers::none()), Shortcut::MudListConnect)]
    );
    assert!(!bindings.is_empty());
    assert!(KeyBindings::default().is_empty());
    assert!(KeyBindings::default().modes().is_empty());
}

#[test]
fn keybindings_to_raw_texts() {
    let bindings = KeyBindings::from_raw(&vec![raw("mudlist", "shift-ctrl-TAB", "quit")]).unwrap();
    let written = bindings.to_raw();
    assert_eq!(written, vec![raw("MudList", "ctrl-shift-tab", "Quit")]);
}

#[test]
fn keybindings_merge_fills_unbound_keys() {
    let defaults = KeyBindings::from_raw(&vec![
        raw_default_mode("ctrl-p", "tabnext"),
        raw_default_mode("ctrl-n", "tabprev"),
    ])
    .unwrap();
    let mut user = KeyBindings::from_raw(&vec![raw_default_mode("ctrl-p", "quit")]).unwrap();
    user.merge(defaults.clone());
    let ctrl = KeyModifiers::control();
    assert_eq!(
        user.lookup(InputMode::MudSession, &KeyEvent::new(KeyCode::Char('p'), ctrl)),
        Some(Shortcut::Quit)
    );
    assert_eq!(
        user.lookup(InputMode::MudSession, &KeyEvent::new(KeyCode::Char('n'), ctrl)),
        Some(Shortcut::TabPrev)
    );
    assert_eq!(defaults.to_raw().len(), 2);
}

fn mud(name: &str, host: &str, tls: Tls) -> Mud {
    Mud { name: name.to_string(), host: host.to_string(), tls, ..Mud::default() }
}

#[test]
fn config_file_load_completes_from_defaults() {
    let defaults = Config {
        muds: vec![mud("Dune", "dune.example", Tls::Disabled)],
        keybindings: KeyBindings::from_raw(&vec![raw_default_mode("ctrl-p", "tabnext")]).unwrap(),
    };
    let user = Config { muds: vec![], keybindings: KeyBindings::default() };
    let mut cfg = Config::default();
    cfg.load(user, defaults).unwrap();
    assert_eq!(cfg.muds.len(), 1);
    assert_eq!(cfg.lookup_mud("Dune").unwrap().host, "dune.example");
    assert_eq!(
        cfg.keybindings.lookup(
            InputMode::MudSession,
            &KeyEvent::new(KeyCode::Char('p'), KeyModifiers::control())
        ),
        Some(Shortcut::TabNext)
    );
}

#[test]
fn config_file_load_keeps_user_choices() {
    let defaults = Config {
        muds: vec![mud("Dune", "dune.example", Tls::Disabled)],
        keybindings: KeyBindings::from_raw(&vec![
            raw_default_mode("ctrl-p", "tabnext"),
            raw_default_mode("ctrl-n", "tabprev"),
        ])
        .unwrap(),
    };
    let user = Config {
        muds: vec![mud("Mine", "mine.example", Tls::Enabled)],
        keybindings: KeyBindings::from_raw(&vec![raw_default_mode("ctrl-p", "quit")]).unwrap(),
    };
    let mut cfg = Config::default();
    cfg.load(user, defaults).unwrap();
    assert!(cfg.lookup_mud("Dune").is_none());
    assert_eq!(cfg.must_lookup_mud("Mine").unwrap().port, 0);
    let ctrl = KeyModifiers::control();
    assert_eq!(
        cfg.keybindings.lookup(InputMode::MudSession, &KeyEvent::new(KeyCode::Char('p'), ctrl)),
        Some(Shortcut::Quit)
    );
    assert_eq!(
        cfg.keybindings.lookup(InputMode::MudSession, &KeyEvent::new(KeyCode::Char('n'), ctrl)),
        Some(Shortcut::TabPrev)
    );
}

#[test]
fn config_file_load_rejects_bad_muds() {
    let mut cfg = Config::default();
    let user = Config { muds: vec![mud("", "h", Tls::Disabled)], keybindings: KeyBindings::default() };
    assert_eq!(
        cfg.load(user, Config::default()),
        Err(ConfigError::InvalidMud("name is empty".to_string()))
    );
    let user = Config { muds: vec![mud("Dune", "", Tls::Disabled)], keybindings: KeyBindings::default() };
    assert_eq!(
        cfg.load(user, Config::default()),
        Err(ConfigError::InvalidMud("MUD \"Dune\" host is empty".to_string()))
    );
    let user = Config {
        muds: vec![mud("Dune", "bad host!", Tls::Enabled)],
        keybindings: KeyBindings::default(),
    };
    assert_eq!(
        cfg.load(user, Config::default()),
        Err(ConfigError::InvalidMud(
            "MUD \"Dune\" hostname \"bad host!\" invalid for TLS: invalid dns name".to_string()
        ))
    );
    assert!(cfg.muds.is_empty());
}

#[test]
fn config_file_missing_mud() {
    let cfg = Config::default();
    assert_eq!(cfg.must_lookup_mud("Nowhere"), Err(ConfigError::MissingMud("Nowhere".to_string())));
    assert_eq!(
        cfg.must_lookup_mud("Nowhere").unwrap_err().to_string(),
        "no MUD named Nowhere"
    );
}

#[test]
fn keybindings_listed_in_key_order() {
    let bindings = KeyBindings::from_raw(&vec![
        raw_default_mode("pageup", "scrollup"),
        raw_default_mode("ctrl-p", "tabnext"),
        raw_default_mode("p", "quit"),
        raw_default_mode("f2", "tabprev"),
        raw("mudlist", "enter", "MudListConnect"),
        raw_default_mode("backspace", "tabclose"),
    ])
    .unwrap();
    let keys: Vec<KeyEvent> =
        bindings.bindings(InputMode::MudSession).into_iter().map(|(k, _)| k).collect();
    assert_eq!(
        keys,
        vec![
            KeyEvent::new(KeyCode::Char('p'), KeyModifiers::none()),
            KeyEvent::new(KeyCode::Char('p'), KeyModifiers::control()),
            KeyEvent::new(KeyCode::F(2), KeyModifiers::none()),
            KeyEvent::new(KeyCode::Backspace, KeyModifiers::none()),
            KeyEvent::new(KeyCode::PageUp, KeyModifiers::none()),
        ]
    );
    let written: Vec<String> = bindings.to_raw().into_iter().map(|r| r.keys).collect();
    assert_eq!(written, vec!["enter", "p", "ctrl-p", "f2", "backspace", "pageup"]);
}

#[test]
fn keybindings_equal_whatever_the_order() {
    let a = KeyBindings::from_raw(&vec![
        raw_default_mode("ctrl-p", "tabnext"),
        raw_default_mode("ctrl-n", "tabprev"),
    ])
    .unwrap();
    let b = KeyBindings::from_raw(&vec![
        raw_default_mode("ctrl-n", "tabprev"),
        raw_default_mode("ctrl-p", "tabnext"),
    ])
    .unwrap();
    assert_eq!(a, b);
    let c = KeyBindings::from_raw(&vec![raw_default_mode("ctrl-n", "tabprev")]).unwrap();
    assert_ne!(a, c);
    assert_ne!(c, a);
}
