//! Tests of the dialog manager: priority order, error deduplication, keys and mouse drags.

use mudpuppy::dialog::{
    ConfirmAction, Dialog, DialogKind, DialogManager, DialogPriority, FloatingWindow, Position,
    Severity, Size, WindowRect,
};
use mudpuppy::keyboard::{KeyCode, KeyEvent, KeyModifiers};
use mudpuppy::mouse::{MouseButton, MouseEvent, MouseEventKind};

#[test]
fn test_dialog_priority_ordering() {
    let mut dm = DialogManager::new();

    let low_dialog = Dialog {
        id: "low".to_string(),
        kind: DialogKind::Notification {
            message: "Low priority".to_string(),
            severity: Severity::Info,
            dismissible: true,
            occurrence_count: 1,
        },
        expires_at: None,
        priority: DialogPriority::Low,
    };
    dm.add_dialog(low_dialog);

    let high_dialog = Dialog {
        id: "high".to_string(),
        kind: DialogKind::Notification {
            message: "High priority".to_string(),
            severity: Severity::Error,
            dismissible: true,
            occurrence_count: 1,
        },
        expires_at: None,
        priority: DialogPriority::High,
    };
    dm.add_dialog(high_dialog);

    // High priority should be shown first
    let active = dm.get_active().unwrap();
    assert_eq!(active.id, "high");
}

#[test]
fn test_error_deduplication() {
    let mut dm = DialogManager::new();

    dm.show_error("Test error".to_string(), 1000);
    assert_eq!(dm.get_all_active().len(), 1);

    // Same error immediately - should not add new dialog
    dm.show_error("Test error".to_string(), 1001);
    assert_eq!(dm.get_all_active().len(), 1);

    // Different error - should add
    dm.show_error("Different error".to_string(), 1002);
    assert_eq!(dm.get_all_active().len(), 2);
}

#[test]
fn error_occurrence_count_in_message() {
    let mut dm = DialogManager::new();
    let id = dm.show_error("Boom".to_string(), 0);
    assert!(id.starts_with("error_"));
    dm.show_error("Boom".to_string(), 10);
    dm.show_error("Boom".to_string(), 20);
    match &dm.get_active().unwrap().kind {
        DialogKind::Notification {
            message,
            occurrence_count,
            ..
        } => {
            assert_eq!(*occurrence_count, 3);
            assert_eq!(message, "Boom (occurred 3 times)");
        }
        _ => panic!("expected a notification"),
    }
    // After the cooldown the error is shown again as a new notification.
    dm.show_error("Boom".to_string(), 6000);
    assert_eq!(dm.get_all_active().len(), 2);
}

#[test]
fn show_error_again_after_dismissal() {
    let mut dm = DialogManager::new();
    let id = dm.show_error("Oops".to_string(), 0);
    dm.dismiss(&id);
    assert!(dm.get_all_active().is_empty());
    // Within the cooldown, a dismissed error is shown afresh.
    assert_eq!(dm.show_error_checked("Oops".to_string(), 1), Some(id.clone()));
    assert_eq!(dm.get_all_active().len(), 1);
    match &dm.get_active().unwrap().kind {
        DialogKind::Notification { message, occurrence_count, .. } => {
            assert_eq!(*occurrence_count, 1);
            assert_eq!(message, "Oops");
        }
        _ => panic!("expected a notification"),
    }
    // The fresh notification counts the next occurrence.
    dm.show_error("Oops".to_string(), 2);
    match &dm.get_active().unwrap().kind {
        DialogKind::Notification { occurrence_count, .. } => assert_eq!(*occurrence_count, 2),
        _ => panic!("expected a notification"),
    }
}

#[test]
fn queue_is_bounded_and_ticks_expire() {
    let mut dm = DialogManager::new();
    dm.show_info("one".to_string(), 0);
    dm.show_warning("two".to_string(), 0);
    dm.show_error("three".to_string(), 0);
    dm.show_warning("four".to_string(), 0);
    assert_eq!(dm.get_all_active().len(), 3);
    assert_eq!(dm.max_concurrent(), 3);
    // Warnings last ten seconds, errors fifteen.
    dm.tick(12000);
    assert_eq!(dm.get_all_active().len(), 1);
    dm.tick(16000);
    assert!(dm.get_all_active().is_empty());
}

#[test]
fn confirmation_keys() {
    let mut dm = DialogManager::new();
    dm.show_confirmation("Quit?".to_string(), 'y', ConfirmAction::Quit {}, None, 0);
    let (consumed, action) = dm.handle_key(&KeyEvent::new(KeyCode::Char('y'), KeyModifiers::none()));
    assert!(consumed);
    assert_eq!(action, Some(ConfirmAction::Quit {}));
    assert!(dm.get_all_active().is_empty());

    dm.show_confirmation("Quit?".to_string(), 'y', ConfirmAction::Quit {}, None, 0);
    let (consumed, action) = dm.handle_key(&KeyEvent::new(KeyCode::Enter, KeyModifiers::none()));
    assert!(consumed);
    assert_eq!(action, None);
    assert!(dm.get_all_active().is_empty());

    let (consumed, action) = dm.handle_key(&KeyEvent::new(KeyCode::Enter, KeyModifiers::none()));
    assert!(!consumed);
    assert_eq!(action, None);
}

#[test]
fn notification_dismissed_by_char_only() {
    let mut dm = DialogManager::new();
    dm.show_info("hello".to_string(), 0);
    let (consumed, _) = dm.handle_key(&KeyEvent::new(KeyCode::Enter, KeyModifiers::none()));
    assert!(!consumed);
    assert_eq!(dm.get_all_active().len(), 1);
    let (consumed, _) = dm.handle_key(&KeyEvent::new(KeyCode::Char('x'), KeyModifiers::none()));
    assert!(consumed);
    assert!(dm.get_all_active().is_empty());
}

#[test]
fn drag_floating_window() {
    let mut dm = DialogManager::new();
    let window = FloatingWindow::new(7, Position::percent(10, 10), Size::absolute(20, 5), None);
    let id = dm.show_floating_window(window, None, true, DialogPriority::Low, None, 0);
    assert_eq!(id, "floating-window-0");
    let rects = [WindowRect {
        index: 0,
        x: 8,
        y: 2,
        width: 20,
        height: 5,
    }];
    let press = MouseEvent::new(
        MouseEventKind::Down(MouseButton::Left),
        10,
        3,
        KeyModifiers::none(),
    );
    assert!(dm.handle_mouse(&press, &rects));
    let drag = MouseEvent::new(
        MouseEventKind::Drag(MouseButton::Left),
        15,
        1,
        KeyModifiers::none(),
    );
    assert!(dm.handle_mouse(&drag, &rects));
    match &dm.get_active().unwrap().kind {
        DialogKind::FloatingWindow { window, .. } => {
            assert_eq!(window.position, Position::absolute(13, 0));
        }
        _ => panic!("expected a floating window"),
    }
    let release = MouseEvent::new(
        MouseEventKind::Up(MouseButton::Left),
        15,
        1,
        KeyModifiers::none(),
    );
    assert!(dm.handle_mouse(&release, &rects));
    assert!(!dm.handle_mouse(&release, &rects));
}
