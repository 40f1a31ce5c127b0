//! Tests of trigger and alias patterns, and of what their matches lead a client to do.

use mudpuppy::client::{
    evaluate_alias, evaluate_trigger, line_fragments, process_event, queued_lines,
    transmit_input, trigger_lines, ConnState, EventOutcome, SessionEvent,
};
use mudpuppy::error::PatternError;
use mudpuppy::event::{Event, Status};
use mudpuppy::input::EchoState;
use mudpuppy::model::{InputLine, MudLine};
use mudpuppy::net::telnet::codec::Item;
use mudpuppy::pattern::{Alias, AliasConfig, Pattern, Trigger, TriggerConfig};

fn line(text: &str) -> InputLine {
    InputLine::new(text.to_string(), true, false)
}

fn alias(id: u32, pattern: &str, expansion: Option<&str>) -> Alias {
    Alias {
        id,
        enabled: true,
        module: "test".to_string(),
        config: AliasConfig::new(pattern, format!("alias{id}"), Some(id), expansion.map(str::to_string))
            .unwrap(),
    }
}

#[test]
fn pattern_compiles_or_fails() {
    let p = Pattern::new(r"^(\w+) (\d+)$").unwrap();
    assert_eq!(p.as_str(), r"^(\w+) (\d+)$");
    assert_eq!(
        p.captures("abc 12"),
        Some(vec![Some("abc 12".to_string()), Some("abc".to_string()), Some("12".to_string())])
    );
    assert_eq!(p.captures("nope"), None);
    let err = Pattern::new("foo(bar").err().unwrap();
    assert!(matches!(err, PatternError::InvalidRegex(_)));
    assert!(err.to_string().starts_with("invalid regex pattern: "));
}

#[test]
fn trigger_matches_lines() {
    let t = TriggerConfig::new(r"You see (\w+)\.", "see".to_string(), false, false, false, None, None, None)
        .unwrap();
    assert_eq!(t.pattern(), r"You see (\w+)\.");
    assert_eq!(t.to_string(), r"see: You see (\w+)\.");
    let (m, groups) = t.matches(&MudLine::new(b"You see Bob."));
    assert!(m);
    assert_eq!(groups, Some(vec!["Bob".to_string()]));
    assert_eq!(t.matches(&MudLine::new(b"Nothing here")), (false, None));
}

#[test]
fn trigger_prompt_only_and_ansi() {
    let t = TriggerConfig::new("^HP", "hp".to_string(), true, true, false, None, None, None).unwrap();
    let mut prompt = MudLine::new(b"\x1b[31mHP: 10\x1b[0m");
    assert_eq!(t.matches(&prompt), (false, None));
    prompt.prompt = true;
    assert_eq!(t.matches(&prompt), (true, Some(vec![])));
    let raw = TriggerConfig::new("^HP", "hp".to_string(), false, true, false, None, None, None).unwrap();
    assert_eq!(raw.matches(&prompt), (false, None));
}

#[test]
fn trigger_unmatched_group_is_reported() {
    let t = TriggerConfig::new(r"(a)|(b)", "ab".to_string(), false, false, false, None, None, None).unwrap();
    assert_eq!(t.matches_checked(&MudLine::new(b"b")), None);
    assert_eq!(t.matches_checked(&MudLine::new(b"x")), Some((false, None)));
    assert!(!t.match_is_complete(&MudLine::new(b"a")));
    let mut t = t;
    assert!(matches!(evaluate_trigger(&mut t, &MudLine::new(b"a")), Err(PatternError::UnmatchedGroup)));
    assert_eq!(t.hit_count, 0);
}

#[test]
fn trigger_evaluation_counts_hits() {
    let mut t = TriggerConfig::new(
        r"(\w+) arrives",
        "arrive".to_string(),
        false,
        false,
        true,
        Some(7),
        Some(8),
        Some("wave".to_string()),
    )
    .unwrap();
    let hit = evaluate_trigger(&mut t, &MudLine::new(b"Bob arrives")).unwrap().unwrap();
    assert_eq!(hit.groups, vec!["Bob".to_string()]);
    assert_eq!(hit.callback, Some(7));
    assert_eq!(hit.highlight, Some(8));
    assert!(hit.gag);
    assert_eq!(hit.expansion, Some("wave".to_string()));
    assert_eq!(t.hit_count, 1);
    assert!(evaluate_trigger(&mut t, &MudLine::new(b"quiet")).unwrap().is_none());
    assert_eq!(t.hit_count, 1);
    let sent = trigger_lines(vec![hit.expansion.unwrap()]);
    assert_eq!(sent, vec![InputLine { sent: "wave".to_string(), original: None, echo: EchoState::Enabled, scripted: true }]);
}

#[test]
fn alias_rewrites_input() {
    let mut a = alias(3, r"^k (\w+)$", Some("kill"));
    assert_eq!(a.to_string(), "Alias(3)");
    assert_eq!(a.config.to_string(), r"alias3: ^k (\w+)$");
    assert_eq!(a.config.matches("k orc"), (true, Some(vec!["orc".to_string()])));
    let mut input = line("k orc");
    let hit = evaluate_alias(&mut a, &mut input).unwrap().unwrap();
    assert_eq!(hit.alias_id, 3);
    assert_eq!(hit.groups, vec!["orc".to_string()]);
    assert_eq!(hit.input.sent, "k orc");
    assert_eq!(input.sent, "kill");
    assert_eq!(input.original, Some("k orc".to_string()));
    assert_eq!(a.config.hit_count, 1);
}

#[test]
fn transmit_input_runs_aliases_in_order() {
    let mut aliases = vec![alias(1, "^n$", Some("north")), alias(2, "^north$", Some("go north")), alias(3, "^x$", None)];
    let mut input = line("n");
    let out = transmit_input(&mut aliases, &mut input).unwrap();
    assert!(out.transmit);
    assert_eq!(input.sent, "go north");
    assert_eq!(input.original, Some("north".to_string()));
    assert_eq!(out.hits.len(), 2);
    assert_eq!(out.hits[0].alias_id, 1);
    assert_eq!(out.hits[1].alias_id, 2);
    assert_eq!(out.hits[1].input.sent, "north");
    assert_eq!(aliases.iter().map(|a| a.config.hit_count).collect::<Vec<_>>(), vec![1, 1, 0]);
}

#[test]
fn transmit_input_swallowed_line() {
    let mut aliases = vec![alias(1, "^x$", None), alias(2, ".*", Some("never"))];
    let mut input = line("x");
    let out = transmit_input(&mut aliases, &mut input).unwrap();
    assert!(!out.transmit);
    assert_eq!(input.sent, "");
    assert_eq!(out.hits.len(), 1);
    assert_eq!(aliases[1].config.hit_count, 0);

    let mut empty = line("");
    let out = transmit_input(&mut aliases, &mut empty).unwrap();
    assert!(out.transmit);
    assert!(out.hits.is_empty());

    let mut disabled = vec![alias(1, "^x$", None)];
    disabled[0].enabled = false;
    let mut input = line("x");
    assert!(transmit_input(&mut disabled, &mut input).unwrap().transmit);
    assert_eq!(input.sent, "x");
}

#[test]
fn line_fragments_split_on_separator() {
    let l = line("say hi;;wave");
    let parts = line_fragments(&l, Some(";;"));
    assert_eq!(parts.len(), 2);
    assert_eq!(parts[0].sent, "say hi");
    assert_eq!(parts[0].original, Some("say hi;;wave".to_string()));
    assert_eq!(parts[1].sent, "wave");
    assert_eq!(line_fragments(&l, None), vec![l.clone()]);
    assert_eq!(line_fragments(&line("look"), Some(";;")), vec![line("look")]);
    assert_eq!(line_fragments(&line("a;;"), Some(";;")).len(), 2);
}

#[test]
fn queued_lines_cases() {
    assert_eq!(queued_lines(None, Some(";;")), vec![InputLine::default()]);
    assert_eq!(queued_lines(Some(line("   ")), Some(";;")), vec![line("   ")]);
    assert_eq!(queued_lines(Some(line("a;;b")), None), vec![line("a;;b")]);
    let parts = queued_lines(Some(line("a;; ;;b")), Some(";;"));
    assert_eq!(parts.iter().map(|l| l.sent.as_str()).collect::<Vec<_>>(), vec!["a", "b"]);
}

#[test]
fn process_event_decisions() {
    let mut state = ConnState::Connecting;
    match process_event(&mut state, 4, SessionEvent::Disconnected) {
        EventOutcome::Lost { event, status, error } => {
            assert_eq!(event, Event::Connection { id: 4, status: Status::Disconnected {} });
            assert_eq!(status, Status::Disconnected {});
            assert_eq!(error, None);
        }
        other => panic!("unexpected {other:?}"),
    }
    assert_eq!(state, ConnState::Disconnected);
    let mut state = ConnState::Connecting;
    match process_event(&mut state, 4, SessionEvent::Error("reset".to_string())) {
        EventOutcome::Lost { error, .. } => assert_eq!(error, Some("reset".to_string())),
        other => panic!("unexpected {other:?}"),
    }
    match process_event(&mut state, 4, SessionEvent::PartialLine(b"HP> ".to_vec())) {
        EventOutcome::Prompt { prompt } => {
            assert_eq!(prompt.raw, b"HP> ".to_vec());
            assert!(prompt.prompt);
            assert!(!prompt.gag);
        }
        other => panic!("unexpected {other:?}"),
    }
    match process_event(&mut state, 4, SessionEvent::Telnet(Item::IacCommand(249))) {
        EventOutcome::Telnet { item } => assert_eq!(item, Item::IacCommand(249)),
        other => panic!("unexpected {other:?}"),
    }
}

#[test]
fn trigger_and_alias_display() {
    let t = Trigger {
        id: 9,
        enabled: true,
        module: "m".to_string(),
        config: TriggerConfig::new("x", "t".to_string(), false, false, false, None, None, None).unwrap(),
    };
    assert_eq!(t.to_string(), "Trigger(9)");
}
