use mudpuppy::error::SessionError;
use mudpuppy::sessions::{ActiveChange, Sessions};

#[test]
fn first_session_becomes_active() {
    let mut s = Sessions::new();
    assert_eq!(s.active_session(), None);
    let (id, change) = s.new_session("alice".to_string()).unwrap();
    assert_eq!(id, 0);
    assert_eq!(change, Some(ActiveChange { from: None, to: Some(0) }));
    assert_eq!(s.active_session(), Some(0));
    let (id2, change2) = s.new_session("bob".to_string()).unwrap();
    assert_eq!(id2, 1);
    assert_eq!(change2, None);
    assert_eq!(s.active_session(), Some(0));
    assert_eq!(s.ids(), vec![0, 1]);
    assert_eq!(s.character(1).unwrap(), "bob");
}

#[test]
fn set_active_session_checks_the_id() {
    let mut s = Sessions::new();
    s.new_session("alice".to_string()).unwrap();
    s.new_session("bob".to_string()).unwrap();
    assert_eq!(s.set_active_session(Some(0)), Ok(None));
    assert_eq!(
        s.set_active_session(Some(1)),
        Ok(Some(ActiveChange { from: Some(0), to: Some(1) }))
    );
    assert_eq!(s.set_active_session(Some(7)), Err(SessionError::NoSuchSession(7)));
    assert_eq!(s.active_session(), Some(1));
    assert_eq!(
        s.set_active_session(None),
        Ok(Some(ActiveChange { from: Some(1), to: None }))
    );
    assert_eq!(s.active_session(), None);
}

#[test]
fn close_session_deactivates_and_removes() {
    let mut s = Sessions::new();
    s.new_session("alice".to_string()).unwrap();
    s.new_session("bob".to_string()).unwrap();
    assert_eq!(s.close_session(1), Ok(None));
    assert_eq!(s.ids(), vec![0]);
    assert_eq!(s.close_session(1), Err(SessionError::NoSuchSession(1)));
    assert_eq!(
        s.close_session(0),
        Ok(Some(ActiveChange { from: Some(0), to: None }))
    );
    assert_eq!(s.ids(), Vec::<u32>::new());
    assert_eq!(s.active_session(), None);
    assert_eq!(s.character(0), Err(SessionError::NoSuchSession(0)));
}

#[test]
fn open_then_close_restores_sessions() {
    let mut s = Sessions::new();
    s.new_session("alice".to_string()).unwrap();
    let before_ids = s.ids();
    let before_active = s.active_session();
    let (id, _) = s.new_session("carol".to_string()).unwrap();
    s.close_session(id).unwrap();
    assert_eq!(s.ids(), before_ids);
    assert_eq!(s.active_session(), before_active);
    // Identifiers are not reused.
    let (next, _) = s.new_session("dave".to_string()).unwrap();
    assert_eq!(next, 2);
}

#[test]
fn session_error_messages() {
    assert_eq!(SessionError::NoSuchSession(12).to_string(), "session ID 12 does not exist");
    assert_eq!(
        SessionError::IdsExhausted.to_string(),
        "unexpected internal error: session IDs exhausted"
    );
}
