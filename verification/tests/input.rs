//! Tests of the line-input editor.

use mudpuppy::input::{EchoState, Input, MOD_CONTROL, MOD_NONE};
use mudpuppy::keyboard::KeyCode;
use mudpuppy::model::InputLine;

const TEXT: &str = "first second, third.";

#[test]
fn format() {
    let mut input = Input::new();
    input.set_value(InputLine::new(TEXT.to_owned(), true, false));
    println!("{}", input.to_string());
}

#[test]
fn set_cursor() {
    let line = InputLine::new(TEXT.to_owned(), true, false);
    let mut input = Input::new();
    input.set_value(line.clone());

    input.set_cursor(3);
    assert_eq!(input.value(), line);
    assert_eq!(input.cursor(), 3);

    input.set_cursor(30);
    assert_eq!(input.cursor(), TEXT.chars().count());

    input.set_cursor(TEXT.chars().count());
    assert_eq!(input.cursor(), TEXT.chars().count());
}

#[test]
fn insert_char() {
    let line = InputLine::new(TEXT.to_owned(), true, false);
    let mut input = Input::new();
    input.set_value(line);

    input.insert('x');
    assert_eq!(input.value().sent, "first second, third.x");
    assert_eq!(input.cursor(), TEXT.chars().count() + 1);
    input.insert('x');
    assert_eq!(input.value().sent, "first second, third.xx");
    assert_eq!(input.cursor(), TEXT.chars().count() + 2);

    input.set_cursor(3);
    input.insert('x');
    assert_eq!(input.value().sent, "firxst second, third.xx");
    assert_eq!(input.cursor(), 4);

    input.insert('x');
    assert_eq!(input.value().sent, "firxxst second, third.xx");
    assert_eq!(input.cursor(), 5);
}

#[test]
fn go_to_prev_char() {
    let line = InputLine::new(TEXT.to_owned(), true, false);
    let mut input = Input::new();
    input.set_value(line);

    input.cursor_left();
    assert_eq!(input.cursor(), TEXT.chars().count() - 1);

    input.set_cursor(3);
    input.cursor_left();
    assert_eq!(input.cursor(), 2);

    input.cursor_left();
    assert_eq!(input.cursor(), 1);
}

#[test]
fn remove_unicode_chars() {
    let line = InputLine::new("¡test¡".to_owned(), true, false);
    let mut input = Input::new();
    input.set_value(line);

    input.delete_prev();
    assert_eq!(input.value().sent, "¡test");
    assert_eq!(input.cursor(), 5);

    input.cursor_start();
    input.delete_next();
    assert_eq!(input.value().sent, "test");
    assert_eq!(input.cursor(), 0);
}

#[test]
fn insert_unicode_chars() {
    let line = InputLine::new("¡test¡".to_owned(), true, false);
    let mut input = Input::new();
    input.set_value(line);

    input.set_cursor(5);

    input.insert('☆');
    assert_eq!(input.value().sent, "¡test☆¡");
    assert_eq!(input.cursor(), 6);

    input.cursor_start();
    input.cursor_right();
    input.insert('☆');
    assert_eq!(input.value().sent, "¡☆test☆¡");
    assert_eq!(input.cursor(), 2);
}

#[test]
fn multispace_characters() {
    let line = InputLine::new("Ｈｅｌｌｏ, ｗｏｒｌｄ!".to_owned(), true, false);
    let mut input = Input::new();
    input.set_value(line);

    assert_eq!(input.cursor(), 13);
    assert_eq!(input.visual_cursor(), 23);
    assert_eq!(input.visual_scroll(6), 18);
}

#[test]
fn word_editing() {
    let mut input = Input::new();
    input.set_value(InputLine::new(TEXT.to_owned(), true, false));
    input.delete_word_left();
    assert_eq!(input.value().sent, "first second, ");
    assert_eq!(input.cursor(), 14);
    input.set_cursor(0);
    input.delete_word_right();
    assert_eq!(input.value().sent, "second, ");
    input.cursor_word_right();
    assert_eq!(input.cursor(), 8);
    input.set_cursor(2);
    input.delete_to_end();
    assert_eq!(input.value().sent, "se");
}

#[test]
fn key_events_edit() {
    let mut input = Input::new();
    for c in "look".chars() {
        input.handle_key_event(KeyCode::Char(c), MOD_NONE);
    }
    assert_eq!(input.value().sent, "look");
    input.handle_key_event(KeyCode::Char('a'), MOD_CONTROL);
    assert_eq!(input.cursor(), 0);
    input.handle_key_event(KeyCode::Char('e'), MOD_CONTROL);
    assert_eq!(input.cursor(), 4);
    input.handle_key_event(KeyCode::Backspace, MOD_NONE);
    assert_eq!(input.value().sent, "loo");
    input.handle_key_event(KeyCode::Char('u'), MOD_CONTROL);
    assert_eq!(input.value().sent, "");
    assert_eq!(input.cursor(), 0);
}

#[test]
fn pop_and_echo() {
    let mut input = Input::new();
    assert!(input.pop().is_none());
    input.set_telnet_echo(EchoState::Password);
    input.paste("secret");
    assert_eq!(input.decorated_value(), "******");
    let line = input.pop().unwrap();
    assert_eq!(line.sent, "secret");
    assert_eq!(line.echo, EchoState::Password);
    assert_eq!(input.value().sent, "");
    assert_eq!(input.cursor(), 0);
}

#[test]
fn decorated_with_markup() {
    let mut input = Input::new();
    input.paste("hello");
    input.add_markup(2, "[");
    input.add_markup(4, "]");
    input.add_markup(9, "ignored");
    assert_eq!(input.markup().len(), 2);
    assert_eq!(input.decorated_value(), "he[ll]o");
    input.remove_markup(2);
    assert_eq!(input.decorated_value(), "hell]o");
    input.clear_markup();
    assert_eq!(input.decorated_value(), "hello");
}

#[test]
fn echo_state_text() {
    assert_eq!(EchoState::Enabled.to_string(), "echo state: enabled");
    assert_eq!(EchoState::Password.to_string(), "echo state: password");
    assert!(bool::from(EchoState::Enabled));
    assert!(!bool::from(EchoState::Password));
}

#[test]
fn cursor_word_left_moves_to_word_start() {
    let mut input = Input::new();
    input.set_value(InputLine::new("first second".to_owned(), true, false));
    assert_eq!(input.cursor(), 12);
    input.cursor_word_left();
    assert_eq!(input.cursor(), 6);
    assert_eq!(input.value().sent, "first second");
    input.cursor_word_left();
    assert_eq!(input.cursor(), 0);
    input.cursor_word_left();
    assert_eq!(input.cursor(), 0);
    // Separators before the cursor are skipped first.
    input.set_value(InputLine::new(TEXT.to_owned(), true, false));
    input.cursor_word_left();
    assert_eq!(input.cursor(), 14);
    input.handle_key_event(KeyCode::Left, MOD_CONTROL);
    assert_eq!(input.cursor(), 6);
}
