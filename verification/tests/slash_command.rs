//! Tests of slash commands: names, lookup, the `session` argument and listing.

use mudpuppy::event::Info;
use mudpuppy::slash_command::{
    builtin, lookup, parse_u32, session_argument, session_listing, typed_line, SessionArgument,
    SessionSummary, SlashCommand, TypedLine,
};

#[test]
fn slash_command_names() {
    let names: Vec<String> = builtin().iter().map(|c| c.name()).collect();
    assert_eq!(names, vec!["quit", "new", "connect", "disconnect", "close", "session"]);
    assert_eq!(lookup("close"), Some(SlashCommand::Close));
    assert_eq!(lookup("new"), Some(SlashCommand::NewSession));
    assert_eq!(lookup("Quit"), None);
    assert_eq!(lookup(""), None);
}

#[test]
fn slash_command_u32_parsing() {
    assert_eq!(parse_u32("0"), Some(0));
    assert_eq!(parse_u32("+17"), Some(17));
    assert_eq!(parse_u32("4294967295"), Some(u32::MAX));
    assert_eq!(parse_u32("4294967296"), None);
    assert_eq!(parse_u32("+"), None);
    assert_eq!(parse_u32("-1"), None);
    assert_eq!(parse_u32("1a"), None);
    assert_eq!(parse_u32(""), None);
    for s in ["7", "+7", "007", "99999999999", " 7", "x"] {
        assert_eq!(parse_u32(s), s.parse::<u32>().ok());
    }
}

#[test]
fn slash_command_session_argument() {
    assert_eq!(session_argument(""), Ok(SessionArgument::List));
    assert_eq!(session_argument("3"), Ok(SessionArgument::Switch(3)));
    assert_eq!(session_argument("three"), Err("invalid session ID: three".to_string()));
}

#[test]
fn slash_command_session_listing() {
    assert_eq!(session_listing(&vec![], None), None);
    let sessions = vec![
        SessionSummary { id: 1, character: "Ana".to_string(), connected: None },
        SessionSummary {
            id: 2,
            character: "Bo".to_string(),
            connected: Some(Info::Tcp { ip: "10.0.0.1".to_string(), port: 4000 }),
        },
    ];
    assert_eq!(
        session_listing(&sessions, Some(2)),
        Some(vec![
            "session 1: Ana - not connected".to_string(),
            "(*) session 2: Bo - connected telnet://10.0.0.1:4000".to_string(),
        ])
    );
}

#[test]
fn typed_lines_split_commands_at_the_first_space() {
    assert_eq!(
        typed_line("/session 3"),
        TypedLine::Command { name: "session".to_string(), argument: "3".to_string() }
    );
    assert_eq!(
        typed_line("/new hero of the day"),
        TypedLine::Command { name: "new".to_string(), argument: "hero of the day".to_string() }
    );
    assert_eq!(
        typed_line("/quit"),
        TypedLine::Command { name: "quit".to_string(), argument: String::new() }
    );
    assert_eq!(
        typed_line("/"),
        TypedLine::Command { name: String::new(), argument: String::new() }
    );
    assert_eq!(typed_line("look north"), TypedLine::Send("look north".to_string()));
    assert_eq!(typed_line(""), TypedLine::Send(String::new()));
    assert_eq!(typed_line(" /quit"), TypedLine::Send(" /quit".to_string()));
}
