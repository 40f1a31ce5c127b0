//! Tests of the configuration: settings defaults and overlays, validation, and the
//! resolution of a character's settings.

use mudpuppy::config::{
    Character, CharacterEntry, Config, DirCache, Extras, Mud, MudEntry, Settings, SettingsOverlay, Tls,
};
use mudpuppy::error::ConfigError;

const TEST_MUD_NAME: &str = "TestMUD";
const TEST_CHAR_NAME: &str = "TestChar";

fn test_mud(host: &str, port: u16) -> Mud {
    Mud {
        host: host.to_string(),
        port,
        tls: Tls::Disabled,
        no_tcp_keepalive: false,
        settings: SettingsOverlay::default(),
    }
}

fn test_character(mud: &str) -> Character {
    Character {
        mud: mud.to_string(),
        module: None,
        settings: SettingsOverlay::default(),
    }
}

fn test_config() -> Config {
    Config {
        mouse_enabled: true,
        muds: vec![MudEntry {
            name: TEST_MUD_NAME.to_string(),
            mud: test_mud("test.mud.com", 4000),
        }],
        characters: vec![CharacterEntry {
            name: TEST_CHAR_NAME.to_string(),
            character: test_character(TEST_MUD_NAME),
        }],
        modules: vec![],
        settings: Settings::default(),
    }
}

#[test]
fn config_test_settings_defaults() {
    let settings = Settings::default();
    assert!(settings.word_wrap);
    assert_eq!(settings.send_separator, ";;");
    assert_eq!(settings.scroll_lines, 5);
    assert!(settings.show_input_echo);
    assert_eq!(settings.scrollback_percentage, 70);
}

#[test]
fn config_test_settings_overlay_merge() {
    let overlay = SettingsOverlay {
        word_wrap: Some(false),
        scroll_lines: Some(10),
        ..Default::default()
    };

    let merged = overlay.merge(Settings::default());
    assert!(!merged.word_wrap); // From overlay
    assert_eq!(merged.scroll_lines, 10); // From overlay
    assert_eq!(merged.send_separator, ";;"); // From base
}

#[test]
fn config_test_settings_overlay_is_empty() {
    let empty = SettingsOverlay::default();
    assert!(empty.is_empty());

    let not_empty = SettingsOverlay {
        word_wrap: Some(false),
        ..Default::default()
    };
    assert!(!not_empty.is_empty());
}

#[test]
fn test_settings_extras_default() {
    assert!(Settings::default().extras.is_empty());
}

#[test]
fn test_settings_extras_merge() {
    let mut base = Settings::default();
    base.extras
        .insert("key1".to_string(), "base_value".to_string());
    base.extras
        .insert("key2".to_string(), "base_value2".to_string());

    let mut overlay_extras = Extras::new();
    overlay_extras.insert("key2".to_string(), "overlay_value2".to_string());
    overlay_extras.insert("key3".to_string(), "overlay_value3".to_string());

    let overlay = SettingsOverlay {
        extras: Some(overlay_extras),
        ..Default::default()
    };

    let merged = overlay.merge(base);

    // key1 from base should remain
    assert_eq!(merged.extras.get("key1"), Some(&"base_value".to_string()));
    // key2 from overlay should override base
    assert_eq!(
        merged.extras.get("key2"),
        Some(&"overlay_value2".to_string())
    );
    // key3 from overlay should be added
    assert_eq!(
        merged.extras.get("key3"),
        Some(&"overlay_value3".to_string())
    );
}

#[test]
fn config_test_config_validation_unknown_mud() {
    let mut config = test_config();
    config.characters[0].character.mud = "ImaginaryMUD".to_string();

    let err = config.validate().unwrap_err();
    assert!(matches!(err, ConfigError::InvalidCharacter(_)));
    assert!(err.to_string().contains("unknown MUD"));
}

#[test]
fn config_test_character_resolve_settings_hierarchy() {
    let mut config = test_config();

    // Global settings (lowest priority)
    config.settings.show_input_echo = true;
    config.settings.scroll_lines = 5;
    config.settings.word_wrap = true;

    // MUD settings (overriding global settings)
    config.muds[0].mud.settings.show_input_echo = Some(false);
    config.muds[0].mud.settings.scroll_lines = Some(10);

    // Character setting (overriding a global setting)
    config.characters[0].character.settings.word_wrap = Some(false);
    config.characters[0].character.settings.scroll_lines = Some(11);

    let resolved = config.resolve_settings(TEST_CHAR_NAME).unwrap();
    assert!(!resolved.show_input_echo); // From MUD override
    assert_eq!(resolved.scroll_lines, 11); // From character override.
    assert!(!resolved.word_wrap); // From character override
    assert_eq!(resolved.send_separator, ";;"); // From global default
}

#[test]
fn test_resolve_setting_hierarchy() {
    let mut config = test_config();

    // Global setting
    config
        .settings
        .extras
        .insert("global_key".to_string(), "global_value".to_string());
    config
        .settings
        .extras
        .insert("overridden_key".to_string(), "global_value".to_string());

    // MUD-level setting (overrides global)
    let mut extras = Extras::new();
    extras.insert("mud_key".to_string(), "mud_value".to_string());
    extras.insert("overridden_key".to_string(), "mud_value".to_string());
    config.muds[0].mud.settings.extras = Some(extras);

    // Character-level setting (overrides MUD and global)
    let mut extras = Extras::new();
    extras.insert("char_key".to_string(), "char_value".to_string());
    extras.insert("overridden_key".to_string(), "char_value".to_string());
    config.characters[0].character.settings.extras = Some(extras);

    assert_eq!(
        config
            .resolve_setting(TEST_CHAR_NAME, "global_key", None)
            .unwrap(),
        Some("global_value".to_string())
    );
    assert_eq!(
        config
            .resolve_setting(TEST_CHAR_NAME, "mud_key", None)
            .unwrap(),
        Some("mud_value".to_string())
    );
    assert_eq!(
        config
            .resolve_setting(TEST_CHAR_NAME, "char_key", None)
            .unwrap(),
        Some("char_value".to_string())
    );
    assert_eq!(
        config
            .resolve_setting(TEST_CHAR_NAME, "overridden_key", None)
            .unwrap(),
        Some("char_value".to_string())
    );
    assert_eq!(
        config
            .resolve_setting(
                TEST_CHAR_NAME,
                "nonexistent",
                Some("default_value".to_string())
            )
            .unwrap(),
        Some("default_value".to_string())
    );
    assert_eq!(
        config
            .resolve_setting(TEST_CHAR_NAME, "nonexistent", None)
            .unwrap(),
        None
    );
}

#[test]
fn config_test_config_helper_methods() {
    let config = test_config();

    assert!(config.mud(TEST_MUD_NAME).is_some());
    assert!(config.mud("NonExistent").is_none());

    assert!(config.character(TEST_CHAR_NAME).is_some());
    assert!(config.character("NonExistent").is_none());
    assert_eq!(config.character(TEST_CHAR_NAME).unwrap().mud, TEST_MUD_NAME);
}

#[test]
fn config_validation_messages() {
    let mut config = test_config();
    assert!(config.validate().is_ok());

    config.muds[0].mud.host = String::new();
    let err = config.validate().unwrap_err();
    assert_eq!(
        err.to_string(),
        "invalid MUD server: MUD \"TestMUD\" has empty host"
    );

    config.muds[0].mud.host = "bad host name".to_string();
    config.muds[0].mud.tls = Tls::Enabled;
    let err = config.validate().unwrap_err();
    assert_eq!(
        err.to_string(),
        "invalid MUD server: MUD \"TestMUD\" hostname \"bad host name\" invalid for TLS: invalid dns name"
    );

    config.muds[0].mud.host = "test.mud.com".to_string();
    assert!(config.validate().is_ok());

    config.muds[0].name = "  ".to_string();
    let err = config.validate().unwrap_err();
    assert!(matches!(err, ConfigError::InvalidMud(ref m) if m == "MUD name cannot be empty"));
}

#[test]
fn config_resolve_unknown_character() {
    let config = test_config();
    let err = config.resolve_settings("Nobody").unwrap_err();
    assert_eq!(
        err.to_string(),
        "invalid character in config: unknown character name \"Nobody\""
    );
}

#[test]
fn config_file_and_version() {
    assert_eq!(mudpuppy::config::config_file("/home/u/.config/mudpuppy"), "/home/u/.config/mudpuppy/config.toml");
    assert_eq!(mudpuppy::config::config_file("dir/"), "dir/config.toml");
    assert_eq!(mudpuppy::config::config_file(""), "config.toml");
    assert_eq!(
        mudpuppy::config::version("abc123", "/c", "/d"),
        "abc123\n\nConfig directory: /c\nData directory: /d"
    );
    assert_eq!(
        mudpuppy::config::config_dir(Some("/custom".to_string())),
        "/custom"
    );
    assert_eq!(
        mudpuppy::config::choose_dir(None, None, "./.data"),
        "./.data"
    );
}

#[test]
fn extras_equal_whatever_the_insertion_order() {
    let mut a = Extras::new();
    a.insert("x".to_string(), "1".to_string());
    a.insert("y".to_string(), "2".to_string());
    let mut b = Extras::new();
    b.insert("y".to_string(), "2".to_string());
    b.insert("x".to_string(), "1".to_string());
    assert_eq!(a, b);
    b.insert("x".to_string(), "3".to_string());
    assert_ne!(a, b);
    let mut c = a.clone();
    c.insert("z".to_string(), "".to_string());
    assert_ne!(a, c);
    assert_ne!(c, a);
}

#[test]
fn mud_and_character_equality() {
    assert_eq!(test_mud("a.example", 23), test_mud("a.example", 23));
    assert_ne!(test_mud("a.example", 23), test_mud("a.example", 24));
    let mut tls = test_mud("a.example", 23);
    tls.tls = Tls::Enabled;
    assert_ne!(tls, test_mud("a.example", 23));
    let mut overridden = test_mud("a.example", 23);
    overridden.settings.word_wrap = Some(false);
    assert_ne!(overridden, test_mud("a.example", 23));
    assert_eq!(test_character(TEST_MUD_NAME), test_character(TEST_MUD_NAME));
    let mut with_module = test_character(TEST_MUD_NAME);
    with_module.module = Some("script".to_string());
    assert_ne!(with_module, test_character(TEST_MUD_NAME));
}

#[test]
fn config_equality_ignores_definition_order() {
    let mut a = test_config();
    a.muds.push(MudEntry { name: "Other".to_string(), mud: test_mud("other.example", 23) });
    let mut b = test_config();
    b.muds.insert(0, MudEntry { name: "Other".to_string(), mud: test_mud("other.example", 23) });
    assert_eq!(a, b);
    b.muds[0].mud.port = 24;
    assert_ne!(a, b);
    let mut c = test_config();
    c.modules.push("extra".to_string());
    assert_ne!(test_config(), c);
    let mut d = test_config();
    d.mouse_enabled = !d.mouse_enabled;
    assert_ne!(test_config(), d);
}

#[test]
fn directories_are_decided_once() {
    let mut dirs = DirCache::new();
    assert_eq!(dirs.config_dir(Some("/tmp/first".to_string())), "/tmp/first");
    assert_eq!(dirs.config_dir(Some("/tmp/second".to_string())), "/tmp/first");
    assert_eq!(dirs.config_dir(None), "/tmp/first");
    assert_eq!(dirs.data_dir(Some("/tmp/data".to_string())), "/tmp/data");
    assert_eq!(dirs.data_dir(None), "/tmp/data");
    assert_eq!(dirs.config_dir(None), "/tmp/first");
}
