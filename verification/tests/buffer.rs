//! Tests of named output buffers and input shortcuts.

use mudpuppy::buffer::{Buffer, BufferError, Scrollbar};
use mudpuppy::input::Input;
use mudpuppy::keyboard::{KeyCode, KeyEvent, KeyModifiers};
use mudpuppy::model::{InputLine, MudLine};
use mudpuppy::output::Item;
use mudpuppy::session::BufferDirection;
use mudpuppy::shortcut::InputShortcut;

#[test]
fn buffer_requires_name() {
    assert!(matches!(Buffer::new(String::new()), Err(BufferError::NameRequired)));
    assert_eq!(BufferError::NameRequired.to_string(), "a non-empty name is required");
    let b = Buffer::new("chat".to_string()).unwrap();
    assert_eq!(b.name, "chat");
    assert_eq!(b.scroll(), 0);
    assert_eq!(b.direction, BufferDirection::BottomToTop);
    assert_eq!(b.scrollbar, Scrollbar::IfScrolled);
    assert_eq!(Scrollbar::Always.to_string(), "Always");
}

#[test]
fn buffer_scrolling() {
    let mut b = Buffer::new("log".to_string()).unwrap();
    b.scroll_up(5);
    assert_eq!(b.scroll(), 5);
    b.scroll_down(2);
    assert_eq!(b.scroll(), 3);
    b.scroll_down(10);
    assert_eq!(b.scroll(), 0);
    b.scroll_to(usize::MAX - 1);
    b.scroll_up(5);
    assert_eq!(b.scroll(), usize::MAX - 1);
    b.set_max_scroll(40);
    b.scroll_max();
    assert_eq!(b.scroll(), 40);
    b.scroll_bottom();
    assert_eq!(b.scroll(), 1);
}

#[test]
fn buffer_items() {
    let mut b = Buffer::new("log".to_string()).unwrap();
    b.add(Item::mud(MudLine::new(b"one")));
    b.add_multiple(vec![Item::debug("two".to_string()), Item::debug("three".to_string())]);
    assert_eq!(b.len(), 3);
    assert_eq!(b.new_data(), 3);
    assert_eq!(b.take_received().len(), 3);
    assert_eq!(b.new_data(), 0);
}

#[test]
fn input_shortcuts_and_keys() {
    let mut input = Input::new();
    input.set_value(InputLine::new("hello world".to_string(), true, false));
    input.shortcut(&InputShortcut::CursorToStart);
    assert_eq!(input.cursor(), 0);
    input.shortcut(&InputShortcut::CursorWordRight);
    assert_eq!(input.cursor(), 6);
    input.shortcut(&InputShortcut::CursorDeleteToEnd);
    assert_eq!(input.value().sent, "hello ");
    input.key_event(&KeyEvent::new(KeyCode::Char('!'), KeyModifiers::none()));
    assert_eq!(input.value().sent, "hello !");
    input.key_event(&KeyEvent::new(KeyCode::Enter, KeyModifiers::none()));
    assert_eq!(input.value().sent, "hello !");
    input.shortcut(&InputShortcut::Send);
    assert_eq!(input.value().sent, "hello !");
    input.shortcut(&InputShortcut::Reset);
    assert_eq!(input.value().sent, "");
}
