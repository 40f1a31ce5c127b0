use mudpuppy::input::EchoState;
use mudpuppy::timer::{Timer, TimerError};

#[test]
fn timer_needs_something_to_do() {
    let err = Timer::new("t".to_string(), 5, None, None, None).unwrap_err();
    assert_eq!(err, TimerError::NothingToDo);
    assert_eq!(err.to_string(), "invalid timer: one of callback or reaction must be provided");
    let err = Timer::new("t".to_string(), 5, None, Some("look".to_string()), None).unwrap_err();
    assert_eq!(err, TimerError::ReactionWithoutSession);
    assert_eq!(err.to_string(), "invalid timer: reaction requires a session to be provided");
    // With both missing, the first check wins.
    assert_eq!(
        Timer::new("t".to_string(), 5, None, None, Some(1)).unwrap_err(),
        TimerError::NothingToDo
    );
}

#[test]
fn timer_fires_its_reaction() {
    let mut t = Timer::new("t".to_string(), 30, None, Some("look".to_string()), Some(2)).unwrap();
    assert_eq!(t.duration(), 30);
    assert!(!t.running());
    assert!(t.start());
    assert!(!t.start());
    let f = t.fire();
    assert_eq!(t.hit_count(), 1);
    assert_eq!(f.callback, None);
    let (session, line) = f.reaction.unwrap();
    assert_eq!(session, 2);
    assert_eq!(line.sent, "look");
    assert_eq!(line.original, None);
    assert_eq!(line.echo, EchoState::Enabled);
    assert!(line.scripted);
    assert!(t.stop());
    assert!(!t.stop());
}

#[test]
fn timer_with_callback_only() {
    let mut t = Timer::new("cb".to_string(), 1, Some(9), None, None).unwrap();
    let f = t.fire();
    let f2 = t.fire();
    assert_eq!(f.callback, Some(9));
    assert_eq!(f.reaction, None);
    assert_eq!(f2.callback, Some(9));
    assert_eq!(t.hit_count(), 2);
}
