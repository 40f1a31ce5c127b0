//! Tests of the serialisable configuration: settings defaults and overlays, validation, and
//! the resolution of a character's settings.

use mudpuppy::config::Tls;
use mudpuppy::error::ConfigError;
use mudpuppy::new_config::{
    Character, CharacterEntry, Config, Mud, MudEntry, Settings, SettingsOverlay,
};

const TEST_MUD_NAME: &str = "TestMUD";
const TEST_CHAR_NAME: &str = "TestChar";

fn test_config() -> Config {
    Config {
        mouse_enabled: true,
        muds: vec![MudEntry {
            name: TEST_MUD_NAME.to_string(),
            mud: Mud {
                host: "test.mud.com".to_string(),
                port: 4000,
                tls: Tls::Disabled,
                no_tcp_keepalive: false,
                settings: SettingsOverlay::default(),
            },
        }],
        characters: vec![CharacterEntry {
            name: TEST_CHAR_NAME.to_string(),
            character: Character {
                mud: TEST_MUD_NAME.to_string(),
                module: None,
                settings: SettingsOverlay::default(),
            },
        }],
        modules: vec![],
        settings: Settings::default(),
    }
}

#[test]
fn new_config_test_settings_defaults() {
    let settings = Settings::default();
    assert!(settings.word_wrap);
    assert_eq!(settings.command_separator, ";;");
    assert_eq!(settings.scroll_lines, 5);
    assert!(settings.show_input_echo);
    assert_eq!(settings.scrollback_percentage, 70);
}

#[test]
fn new_config_test_settings_overlay_merge() {
    let overlay = SettingsOverlay {
        word_wrap: Some(false),
        scroll_lines: Some(10),
        ..Default::default()
    };

    let merged = overlay.merge(Settings::default());
    assert!(!merged.word_wrap); // From overlay
    assert_eq!(merged.scroll_lines, 10); // From overlay
    assert_eq!(merged.command_separator, ";;"); // From base
}

#[test]
fn new_config_test_settings_overlay_is_empty() {
    let empty = SettingsOverlay::default();
    assert!(empty.is_empty());

    let not_empty = SettingsOverlay {
        word_wrap: Some(false),
        ..Default::default()
    };
    assert!(!not_empty.is_empty());
}

#[test]
fn new_config_test_config_validation_unknown_mud() {
    let mut config = test_config();
    config.characters[0].character.mud = "ImaginaryMUD".to_string();

    let err = config.validate().unwrap_err();
    assert!(matches!(err, ConfigError::InvalidCharacter(_)));
    assert!(err.to_string().contains("unknown MUD"))
}

#[test]
fn new_config_test_character_resolve_settings_hierarchy() {
    let mut config = test_config();

    config.settings.show_input_echo = true;
    config.settings.scroll_lines = 5;
    config.settings.word_wrap = true;

    config.muds[0].mud.settings.show_input_echo = Some(false);
    config.muds[0].mud.settings.scroll_lines = Some(10);

    config.characters[0].character.settings.word_wrap = Some(false);
    config.characters[0].character.settings.scroll_lines = Some(11);

    let resolved = config.resolve_settings(TEST_CHAR_NAME).unwrap();
    assert!(!resolved.show_input_echo); // From MUD override
    assert_eq!(resolved.scroll_lines, 11); // From character override.
    assert!(!resolved.word_wrap); // From character override
    assert_eq!(resolved.command_separator, ";;"); // From global default
}

#[test]
fn new_config_test_config_helper_methods() {
    let config = test_config();

    assert!(config.mud(TEST_MUD_NAME).is_some());
    assert!(config.mud("NonExistent").is_none());

    assert!(config.character(TEST_CHAR_NAME).is_some());
    assert!(config.character("NonExistent").is_none());
    assert_eq!(config.character(TEST_CHAR_NAME).unwrap().mud, TEST_MUD_NAME);
}
