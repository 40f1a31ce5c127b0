//! Slash commands: the client's own commands, typed as `/name argument`.

use vstd::prelude::*;

use crate::event::Info;
use crate::keyboard::{digits_value, is_digit, lemma_digits_value_grows};
use crate::model::without_plus;
use crate::text::{chars_of, decimal, owned, push_decimal, push_str};

verus! {

/// A built-in slash command.
#[derive(Debug, Clone, Copy, PartialEq, Eq, Structural)]
pub enum SlashCommand {
    /// Ask to quit; asked twice, quit.
    Quit,
    /// Create a session for the named character and connect it.
    NewSession,
    /// Connect the active session.
    Connect,
    /// Disconnect the active session.
    Disconnect,
    /// Close the active session's tab.
    Close,
    /// List the sessions, or switch to the one with the given identifier.
    Session,
}

impl SlashCommand {
    /// The name the command is typed as.
    pub open spec fn spec_name(self) -> Seq<char> {
        match self {
            SlashCommand::Quit => "quit"@,
            SlashCommand::NewSession => "new"@,
            SlashCommand::Connect => "connect"@,
            SlashCommand::Disconnect => "disconnect"@,
            SlashCommand::Close => "close"@,
            SlashCommand::Session => "session"@,
        }
    }

    /// The name the command is typed as.
    pub fn name(&self) -> (s: String)
        ensures
            s@ == self.spec_name(),
    {
        match self {
            SlashCommand::Quit => owned("quit"),
            SlashCommand::NewSession => owned("new"),
            SlashCommand::Connect => owned("connect"),
            SlashCommand::Disconnect => owned("disconnect"),
            SlashCommand::Close => owned("close"),
            SlashCommand::Session => owned("session"),
        }
    }
}

/// The built-in commands, in the order they are registered.
pub open spec fn builtin_commands() -> Seq<SlashCommand> {
    seq![
        SlashCommand::Quit,
        SlashCommand::NewSession,
        SlashCommand::Connect,
        SlashCommand::Disconnect,
        SlashCommand::Close,
        SlashCommand::Session,
    ]
}

/// The built-in commands; no two share a name.
pub fn builtin() -> (v: Vec<SlashCommand>)
    ensures
        v@ == builtin_commands(),
        forall|i: int, j: int|
            0 <= i < j < v@.len() ==> (#[trigger] v@[i]).spec_name() != (#[trigger] v@[j]).spec_name(),
{
    let v = vec![
        SlashCommand::Quit,
        SlashCommand::NewSession,
        SlashCommand::Connect,
        SlashCommand::Disconnect,
        SlashCommand::Close,
        SlashCommand::Session,
    ];
    proof {
        assert(v@ =~= builtin_commands());
        lemma_builtin_names_distinct();
        assert forall|i: int, j: int| 0 <= i < j < v@.len() implies (#[trigger] v@[i]).spec_name()
            != (#[trigger] v@[j]).spec_name() by {
            assert(v@[i] == builtin_commands()[i] && v@[j] == builtin_commands()[j]);
        }
    }
    v
}

/// No two built-in commands share a name.
pub proof fn lemma_builtin_names_distinct()
    ensures
        forall|i: int, j: int|
            0 <= i < j < builtin_commands().len() ==> (#[trigger] builtin_commands()[i]).spec_name()
                != (#[trigger] builtin_commands()[j]).spec_name(),
{
    reveal_strlit("quit");
    reveal_strlit("new");
    reveal_strlit("connect");
    reveal_strlit("disconnect");
    reveal_strlit("close");
    reveal_strlit("session");
    assert("quit"@[0] != "new"@[0]);
    assert("quit"@[0] != "connect"@[0]);
    assert("quit"@[0] != "disconnect"@[0]);
    assert("quit"@[0] != "close"@[0]);
    assert("quit"@[0] != "session"@[0]);
    assert("new"@[0] != "connect"@[0]);
    assert("new"@[0] != "disconnect"@[0]);
    assert("new"@[0] != "close"@[0]);
    assert("new"@[0] != "session"@[0]);
    assert("connect"@[0] != "disconnect"@[0]);
    assert("connect"@[1] != "close"@[1]);
    assert("connect"@[0] != "session"@[0]);
    assert("disconnect"@[0] != "close"@[0]);
    assert("disconnect"@[0] != "session"@[0]);
    assert("close"@[0] != "session"@[0]);
}

/// The built-in command with the given name, if any.
pub fn lookup(name: &str) -> (r: Option<SlashCommand>)
    ensures
        match r {
            Some(c) => c.spec_name() == name@ && builtin_commands().contains(c),
            None => forall|i: int|
                0 <= i < builtin_commands().len() ==> (#[trigger] builtin_commands()[i]).spec_name()
                    != name@,
        },
{
    let commands = builtin();
    let mut i: usize = 0;
    while i < commands.len()
        invariant
            i <= commands@.len(),
            commands@ == builtin_commands(),
            forall|j: int| 0 <= j < i ==> (#[trigger] commands@[j]).spec_name() != name@,
        decreases commands@.len() - i,
    {
        let n = commands[i].name();
        let v = chars_of(n.as_str());
        if crate::text::eq_lit(&v, name) {
            proof {
                assert(builtin_commands()[i as int] == commands@[i as int]);
            }
            return Some(commands[i]);
        }
        i += 1;
    }
    None
}

/// What a line typed in headless mode asks for.
#[derive(Debug, Clone, PartialEq, Eq)]
pub enum TypedLine {
    /// A slash command: the name after the `/`, up to the first space, and the text after
    /// that space (empty when there is none).
    Command { name: String, argument: String },
    /// A line to send to the active session.
    Send(String),
}

/// The position of the first space in `s`, if any.
pub open spec fn first_space_in(s: Seq<char>) -> Option<int> {
    if exists|i: int| 0 <= i < s.len() && s[i] == ' ' {
        Some(choose|i: int| 0 <= i < s.len() && s[i] == ' ' && forall|j: int| 0 <= j < i ==> s[j] != ' ')
    } else {
        None
    }
}

/// The command name and argument of the text after a `/`: split at the first space.
pub open spec fn command_parts(rest: Seq<char>) -> (Seq<char>, Seq<char>) {
    match first_space_in(rest) {
        Some(i) => (rest.take(i), rest.skip(i + 1)),
        None => (rest, Seq::empty()),
    }
}

/// Read a typed line: one starting with `/` is a command, split into its name and argument
/// at the first space; any other line is sent as it is.
pub fn typed_line(line: &str) -> (r: TypedLine)
    ensures
        if line@.len() > 0 && line@[0] == '/' {
            r matches TypedLine::Command { name, argument } && name@ == command_parts(
                line@.drop_first(),
            ).0 && argument@ == command_parts(line@.drop_first()).1
        } else {
            r matches TypedLine::Send(t) && t@ == line@
        },
{
    let v = chars_of(line);
    if v.len() == 0 || v[0] != '/' {
        return TypedLine::Send(owned(line));
    }
    let ghost rest = line@.drop_first();
    let mut i: usize = 1;
    while i < v.len() && v[i] != ' '
        invariant
            v@ == line@,
            1 <= i <= v@.len(),
            rest == v@.drop_first(),
            forall|j: int| 1 <= j < i ==> v@[j] != ' ',
        decreases v@.len() - i,
    {
        i += 1;
    }
    let name = crate::text::string_from_chars(&v.as_slice()[1..i]);
    let argument = if i < v.len() {
        crate::text::string_from_chars(&v.as_slice()[i + 1..v.len()])
    } else {
        String::new()
    };
    proof {
        if i < v@.len() {
            assert(rest[i - 1] == ' ');
            let k = first_space_in(rest)->0;
            assert(k == i - 1) by {
                if k < i - 1 {
                    assert(rest[k] == v@[k + 1]);
                }
                if k > i - 1 {
                    assert(rest[i - 1] == ' ');
                }
            }
            assert(name@ =~= rest.take(i - 1));
            assert(argument@ =~= rest.skip(i as int));
        } else {
            assert forall|j: int| 0 <= j < rest.len() implies rest[j] != ' ' by {
                assert(rest[j] == v@[j + 1]);
            }
            assert(name@ =~= rest);
            assert(argument@ =~= Seq::<char>::empty());
        }
    }
    TypedLine::Command { name, argument }
}

/// The value of a text as `str::parse::<u32>` reads it: an optional `+`, then one or more
/// ASCII digits whose value fits in a `u32`.
pub open spec fn u32_text_value(s: Seq<char>) -> Option<u32> {
    let d = without_plus(s);
    if d.len() > 0 && (forall|i: int| 0 <= i < d.len() ==> is_digit(#[trigger] d[i]))
        && digits_value(d) <= u32::MAX {
        Some(digits_value(d) as u32)
    } else {
        None
    }
}

/// Read a text as `str::parse::<u32>` does (see [`u32_text_value`]).
pub fn parse_u32(s: &str) -> (r: Option<u32>)
    ensures
        r == u32_text_value(s@),
{
    let v = chars_of(s);
    let mut first: usize = 0;
    if v.len() > 1 && v[0] == '+' {
        first = 1;
    }
    let ghost digits = v@.skip(first as int);
    proof {
        if v@.len() > 1 && v@[0] == '+' {
            assert(v@.skip(1) == digits);
        } else {
            assert(v@ =~= digits);
        }
        assert(without_plus(s@) == digits);
    }
    if first == v.len() {
        proof {
            assert(digits.len() == 0);
        }
        return None;
    }
    let mut i: usize = first;
    while i < v.len()
        invariant
            first <= i <= v@.len(),
            digits == v@.skip(first as int),
            without_plus(s@) == digits,
            forall|j: int| first <= j < i ==> is_digit(#[trigger] v@[j]),
        decreases v@.len() - i,
    {
        if !('0' <= v[i] && v[i] <= '9') {
            proof {
                assert(!is_digit(digits[i - first]));
            }
            return None;
        }
        i += 1;
    }
    assert forall|j: int| 0 <= j < digits.len() implies is_digit(#[trigger] digits[j]) by {
        assert(is_digit(v@[j + first]));
    }
    let mut acc: u64 = 0;
    let mut k: usize = first;
    while k < v.len()
        invariant
            first <= k <= v@.len(),
            digits == v@.skip(first as int),
            without_plus(s@) == digits,
            forall|j: int| 0 <= j < digits.len() ==> is_digit(#[trigger] digits[j]),
            acc as nat == digits_value(digits.take(k - first)),
            acc <= u32::MAX,
        decreases v@.len() - k,
    {
        proof {
            assert(digits.take(k - first + 1).drop_last() =~= digits.take(k - first));
            assert(digits[k - first] == v@[k as int]);
        }
        let d: u64 = (v[k] as u32 - 48) as u64;
        acc = acc * 10 + d;
        proof {
            let t = digits.take(k - first + 1);
            assert(t.last() == v@[k as int]);
            assert(acc as nat == digits_value(t));
        }
        if acc > 4294967295 {
            proof {
                lemma_digits_value_grows(digits, k - first + 1);
                assert(digits_value(digits) > u32::MAX);
                assert(without_plus(s@) == digits);
            }
            return None;
        }
        k += 1;
    }
    proof {
        assert(digits.take(k - first) =~= digits);
    }
    Some(acc as u32)
}

/// What the `session` command's argument asks for.
#[derive(Debug, Clone, Copy, PartialEq, Eq, Structural)]
pub enum SessionArgument {
    /// No argument: list the sessions.
    List,
    /// Switch to the session with this identifier.
    Switch(u32),
}

/// Read the `session` command's argument: none lists the sessions, a session identifier
/// switches to that session; anything else is an error, `invalid session ID: <argument>`.
pub fn session_argument(line: &str) -> (r: Result<SessionArgument, String>)
    ensures
        line@.len() == 0 ==> r == Ok::<SessionArgument, String>(SessionArgument::List),
        line@.len() > 0 ==> match u32_text_value(line@) {
            Some(id) => r == Ok::<SessionArgument, String>(SessionArgument::Switch(id)),
            None => r matches Err(m) && m@ == "invalid session ID: "@ + line@,
        },
{
    if chars_of(line).len() == 0 {
        return Ok(SessionArgument::List);
    }
    match parse_u32(line) {
        Some(id) => Ok(SessionArgument::Switch(id)),
        None => {
            let mut m = owned("invalid session ID: ");
            push_str(&mut m, line);
            Err(m)
        },
    }
}

/// A session as the `session` command lists it.
#[derive(Debug, Clone, PartialEq, Eq)]
pub struct SessionSummary {
    pub id: u32,
    pub character: String,
    /// How the session is connected, if it is.
    pub connected: Option<Info>,
}

/// The line listing a session: marked `(*) ` when it is the active one, then its identifier
/// and character, and whether and how it is connected.
pub open spec fn session_line(s: SessionSummary, active: Option<u32>) -> Seq<char> {
    (if active == Some(s.id) {
        "(*) "@
    } else {
        ""@
    }) + "session "@ + decimal(s.id as nat) + ": "@ + s.character@ + match s.connected {
        None => " - not connected"@,
        Some(info) => " - connected "@ + info.spec_display(),
    }
}

/// The lines of the `session` command's listing, one per session in the given order; no
/// sessions is an error (there is no active session to show a listing in).
pub fn session_listing(sessions: &Vec<SessionSummary>, active: Option<u32>) -> (r: Option<
    Vec<String>,
>)
    ensures
        sessions@.len() == 0 <==> r is None,
        r matches Some(lines) ==> lines@.len() == sessions@.len() && forall|i: int|
            0 <= i < lines@.len() ==> (#[trigger] lines@[i])@ == session_line(sessions@[i], active),
{
    if sessions.len() == 0 {
        return None;
    }
    let mut lines: Vec<String> = Vec::new();
    let mut i: usize = 0;
    while i < sessions.len()
        invariant
            i <= sessions@.len(),
            lines@.len() == i,
            forall|j: int|
                0 <= j < i ==> (#[trigger] lines@[j])@ == session_line(sessions@[j], active),
        decreases sessions@.len() - i,
    {
        let s = &sessions[i];
        let mut line = String::new();
        if active == Some(s.id) {
            push_str(&mut line, "(*) ");
        }
        push_str(&mut line, "session ");
        push_decimal(&mut line, s.id as u64);
        push_str(&mut line, ": ");
        push_str(&mut line, s.character.as_str());
        match &s.connected {
            None => push_str(&mut line, " - not connected"),
            Some(info) => {
                push_str(&mut line, " - connected ");
                let t = info.to_string();
                push_str(&mut line, t.as_str());
            },
        }
        proof {
            reveal_strlit("");
            assert(line@ =~= session_line(sessions@[i as int], active));
        }
        lines.push(line);
        i += 1;
    }
    Some(lines)
}

} // verus!
