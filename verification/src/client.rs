//! The decisions a session client takes on what its connection reports: telnet option
//! negotiation, IAC commands, subnegotiations and connection state changes.
//!
//! Each decision is a function from the client's state and what arrived to the effects the
//! client then performs, in order: items to send, events to emit, and state to change.

use vstd::prelude::*;

use crate::event::{Event, Info, Status};
use crate::gmcp::{first_space, gmcp_payload, hello_json, Gmcp, CRATE_NAME};
use vstd::utf8::{decode_utf8, valid_utf8};
use crate::input::EchoState;
use crate::model::{MudLine, PromptMode, PromptSignal};
use crate::net::telnet::codec::{Item, ItemView, Negotiation};
use crate::net::telnet::option;
use crate::error::{GmcpError, PatternError};
use crate::model::{non_blank, split_chars, split_text, InputLine};
use crate::text::is_blank;
use crate::pattern::{
    group_texts, match_complete, outcome_view, regex_captures, texts, trigger_haystack, Alias,
    TriggerConfig,
};
use crate::text::{chars_of, string_from_chars};

verus! {

/// Why a client could not act.
#[derive(Debug, Clone, Copy, PartialEq, Eq, Structural)]
pub enum ClientError {
    /// Something had to be sent, but the client is not connected.
    NotConnected,
}

/// The state of a client's connection.
#[derive(Debug, Clone, PartialEq, Eq)]
pub enum ConnState {
    Disconnected,
    Connecting,
    Connected { info: Info },
}

impl ConnState {
    /// The status the state reports.
    pub fn status(&self) -> (s: Status)
        ensures
            s == match *self {
                ConnState::Disconnected => Status::Disconnected {  },
                ConnState::Connecting => Status::Connecting {  },
                ConnState::Connected { info } => Status::Connected { info },
            },
    {
        match self {
            ConnState::Disconnected => Status::Disconnected {  },
            ConnState::Connecting => Status::Connecting {  },
            ConnState::Connected { info } => Status::Connected { info: info.duplicate() },
        }
    }

    /// Whether the client is connected.
    pub fn connected(&self) -> (b: bool)
        ensures
            b == (*self is Connected),
    {
        match self {
            ConnState::Connected { .. } => true,
            _ => false,
        }
    }
}

/// What a negotiation from the server leads the client to do, in this order: send the GMCP
/// item, emit the GMCP event, send the reply, change the telnet echo state, change the prompt
/// mode, emit the option event; then fail with the error, if there is one. An effect that is
/// absent is not performed.
#[derive(Debug)]
pub struct NegotiationOutcome {
    pub gmcp_item: Option<Item>,
    pub gmcp_event: Option<Event>,
    pub reply: Option<Negotiation>,
    pub echo: Option<EchoState>,
    pub prompt_mode: Option<PromptMode>,
    pub option_event: Option<Event>,
    pub error: Option<ClientError>,
}

/// The effects of an option the server enabled or disabled, once the option table agreed to
/// reply: turning echo off (for a password) or on, or switching between signalled
/// (end-of-record) and unsignalled (200 ms) prompts.
pub open spec fn option_effects(opt: u8, enabled: bool) -> (Option<EchoState>, Option<PromptMode>) {
    if opt == option::ECHO {
        (Some(if enabled {
            EchoState::Password
        } else {
            EchoState::Enabled
        }), None)
    } else if opt == option::EOR {
        (None, Some(if enabled {
            PromptMode::Signalled { signal: PromptSignal::EndOfRecord }
        } else {
            PromptMode::Unsignalled { timeout_ms: 200 }
        }))
    } else {
        (None, None)
    }
}

/// Whether a prompt mode flushes the buffered prompt on the IAC command `command` (as
/// [`process_iac`] does when connected).
pub open spec fn flushes_on(m: PromptMode, command: u8) -> bool {
    match m {
        PromptMode::Signalled { signal } => signal.spec_command() == command,
        PromptMode::Unsignalled { .. } => false,
    }
}

/// What the server's option negotiation does to prompts and echo. When the server enables
/// EOR (option 25), prompts become signalled by IAC EOR (command 239): that command flushes
/// the buffered prompt and IAC GA (249) does not. When it disables EOR, prompts go back to
/// being flushed after a timeout, so no command flushes them. When the server enables ECHO
/// (option 1), typed input is masked as a password; when it disables it, input is shown.
/// Other options change neither.
pub proof fn lemma_option_effects(command: u8, opt: u8, enabled: bool)
    ensures
        option_effects(25, true).1 matches Some(m) && flushes_on(m, 239) && !flushes_on(m, 249)
            && m is Signalled,
        option_effects(25, false).1 matches Some(m) && !flushes_on(m, command)
            && m is Unsignalled,
        option_effects(25, enabled).0 is None,
        option_effects(1, true) == (Some(EchoState::Password), None::<PromptMode>),
        option_effects(1, false) == (Some(EchoState::Enabled), None::<PromptMode>),
        opt != 1 && opt != 25 ==> option_effects(opt, enabled) == (
            None::<EchoState>,
            None::<PromptMode>,
        ),
{
}

/// Whether a negotiation asks for an option to be enabled (will, do) rather than disabled.
pub open spec fn enables(n: Negotiation) -> bool {
    n is Will || n is Do
}

/// The effects of an option negotiation (see [`option_effects`]).
fn effects_of(opt: u8, enabled: bool) -> (r: (Option<EchoState>, Option<PromptMode>))
    ensures
        r == option_effects(opt, enabled),
{
    if opt == option::ECHO {
        (Some(if enabled {
            EchoState::Password
        } else {
            EchoState::Enabled
        }), None)
    } else if opt == option::EOR {
        (None, Some(if enabled {
            PromptMode::Signalled { signal: PromptSignal::EndOfRecord }
        } else {
            PromptMode::Unsignalled { timeout_ms: 200 }
        }))
    } else {
        (None, None)
    }
}

/// React to a negotiation from the server.
///
/// GMCP reacts first (see [`Gmcp::handle_negotiation`]): when it reports a change, its hello
/// message is sent (which needs a connection) and its event emitted. Then, when the
/// session's option table has a reply (`table_reply`, the table's answer to this
/// negotiation), the reply is sent (which needs a connection), the option's effects follow,
/// and an event reports the option enabled or disabled.
pub fn process_negotiation(
    gmcp: &mut Gmcp,
    session_id: u32,
    connected: bool,
    negotiation: Negotiation,
    table_reply: Option<Negotiation>,
    version: &str,
) -> (out: NegotiationOutcome)
    ensures
        final(gmcp).spec_session_id() == old(gmcp).spec_session_id(),
        negotiation == Negotiation::Will(option::GMCP) ==> final(gmcp).is_ready(),
        negotiation == Negotiation::Wont(option::GMCP) ==> !final(gmcp).is_ready(),
        negotiation != Negotiation::Will(option::GMCP) && negotiation != Negotiation::Wont(
            option::GMCP,
        ) ==> final(gmcp).is_ready() == old(gmcp).is_ready(),
        ({
            let gmcp_change = negotiation == Negotiation::Will(option::GMCP) || negotiation
                == Negotiation::Wont(option::GMCP);
            let hello_needed = negotiation == Negotiation::Will(option::GMCP);
            let opt = negotiation.spec_option();
            let (echo, mode) = option_effects(opt, enables(negotiation));
            if gmcp_change && hello_needed && !connected {
                &&& out.gmcp_item is None
                &&& out.gmcp_event is None
                &&& out.reply is None
                &&& out.echo is None
                &&& out.prompt_mode is None
                &&& out.option_event is None
                &&& out.error == Some(ClientError::NotConnected)
            } else {
                &&& hello_needed ==> (out.gmcp_item matches Some(item) && item@
                    == ItemView::Subnegotiation(
                    option::GMCP,
                    gmcp_payload("Core.Hello"@, hello_json(CRATE_NAME@, version@)),
                ))
                &&& !hello_needed ==> out.gmcp_item is None
                &&& out.gmcp_event == if negotiation == Negotiation::Will(option::GMCP) {
                    Some(Event::GmcpEnabled { id: old(gmcp).spec_session_id() })
                } else if negotiation == Negotiation::Wont(option::GMCP) {
                    Some(Event::GmcpDisabled { id: old(gmcp).spec_session_id() })
                } else {
                    None
                }
                &&& match table_reply {
                    None => {
                        &&& out.reply is None
                        &&& out.echo is None
                        &&& out.prompt_mode is None
                        &&& out.option_event is None
                        &&& out.error is None
                    },
                    Some(reply) => if !connected {
                        &&& out.reply is None
                        &&& out.echo is None
                        &&& out.prompt_mode is None
                        &&& out.option_event is None
                        &&& out.error == Some(ClientError::NotConnected)
                    } else {
                        &&& out.reply == Some(reply)
                        &&& out.echo == echo
                        &&& out.prompt_mode == mode
                        &&& out.option_event == Some(
                            if enables(negotiation) {
                                Event::OptionEnabled { id: session_id, option: opt }
                            } else {
                                Event::OptionDisabled { id: session_id, option: opt }
                            },
                        )
                        &&& out.error is None
                    },
                }
            }
        }),
{
    let mut out = NegotiationOutcome {
        gmcp_item: None,
        gmcp_event: None,
        reply: None,
        echo: None,
        prompt_mode: None,
        option_event: None,
        error: None,
    };
    let (item, event) = gmcp.handle_negotiation(negotiation, version);
    if event.is_some() {
        if item.is_some() {
            if !connected {
                out.error = Some(ClientError::NotConnected);
                return out;
            }
            out.gmcp_item = item;
        }
        out.gmcp_event = event;
    }
    let opt = negotiation.option();
    let enabled = match negotiation {
        Negotiation::Will(_) | Negotiation::Do(_) => true,
        Negotiation::Wont(_) | Negotiation::Dont(_) => false,
    };
    match table_reply {
        None => {},
        Some(reply) => {
            if !connected {
                out.error = Some(ClientError::NotConnected);
                return out;
            }
            out.reply = Some(reply);
            let (echo, mode) = effects_of(opt, enabled);
            out.echo = echo;
            out.prompt_mode = mode;
            out.option_event = Some(
                if enabled {
                    Event::OptionEnabled { id: session_id, option: opt }
                } else {
                    Event::OptionDisabled { id: session_id, option: opt }
                },
            );
        },
    }
    out
}

/// What an IAC command from the server leads the client to do: flush the partial line when
/// the command is the prompt signal and the client is connected; report the command.
#[derive(Debug, Clone, PartialEq, Eq)]
pub struct IacOutcome {
    pub flush: bool,
    pub event: Event,
}

/// React to an IAC command: when prompts are signalled and this is the signal, the buffered
/// prompt is flushed (if connected); the command is always reported.
pub fn process_iac(
    prompt_mode: &PromptMode,
    connected: bool,
    session_id: u32,
    command: u8,
) -> (out: IacOutcome)
    ensures
        out.flush == (connected && match *prompt_mode {
            PromptMode::Signalled { signal } => signal.spec_command() == command,
            PromptMode::Unsignalled { .. } => false,
        }),
        out.event == (Event::Iac { id: session_id, command }),
{
    let flush = match prompt_mode.signal() {
        Some(signal) => connected && u8::from(signal) == command,
        None => false,
    };
    IacOutcome { flush, event: Event::Iac { id: session_id, command } }
}

/// What a subnegotiation from the server leads the client to do, in this order: show the
/// GMCP message as a debug line, emit the GMCP event, emit the subnegotiation event.
#[derive(Debug)]
pub struct SubnegotiationOutcome {
    pub debug_line: Option<String>,
    pub gmcp_event: Option<Event>,
    pub event: Event,
}

/// React to a subnegotiation: a GMCP one is decoded (and its failure is the error) and
/// reported, and shown when `debug_gmcp` is set; every subnegotiation is reported.
pub fn process_subnegotiation(
    gmcp: &Gmcp,
    debug_gmcp: bool,
    session_id: u32,
    opt: u8,
    data: &[u8],
) -> (r: Result<SubnegotiationOutcome, GmcpError>)
    ensures
        opt != option::GMCP ==> (r matches Ok(out) && out.debug_line is None
            && out.gmcp_event is None && subnegotiation_reported(out.event, session_id, opt, data@)),
        opt == option::GMCP ==> {
            &&& !valid_utf8(data@) ==> r == Err::<SubnegotiationOutcome, GmcpError>(
                GmcpError::InvalidEncoding,
            )
            &&& valid_utf8(data@) ==> match first_space(decode_utf8(data@)) {
                None => r == Err::<SubnegotiationOutcome, GmcpError>(GmcpError::Malformed),
                Some(i) => {
                    let text = decode_utf8(data@);
                    let package = text.take(i);
                    let json = text.skip(i + 1);
                    &&& r matches Ok(out)
                    &&& subnegotiation_reported(out.event, session_id, opt, data@)
                    &&& out.gmcp_event matches Some(Event::GmcpMessage { id, package: p, json: j })
                        && id == gmcp.spec_session_id() && p@ == package && j@ == json
                    &&& if debug_gmcp {
                        out.debug_line matches Some(l) && l@ == "GMCP: "@ + package + " "@ + json
                    } else {
                        out.debug_line is None
                    }
                },
            }
        },
{
    let mut debug_line: Option<String> = None;
    let mut gmcp_event: Option<Event> = None;
    if opt == option::GMCP {
        match gmcp.decode(data) {
            Err(e) => return Err(e),
            Ok(Some(message)) => {
                if debug_gmcp {
                    debug_line = Some(message.debug_line());
                }
                gmcp_event = Some(message.to_event());
            },
            Ok(None) => {},
        }
    }
    Ok(
        SubnegotiationOutcome {
            debug_line,
            gmcp_event,
            event: Event::Subnegotiation {
                id: session_id,
                option: opt,
                data: vstd::slice::slice_to_vec(data),
            },
        },
    )
}

/// The event reports a subnegotiation of the session with the given option and data.
pub open spec fn subnegotiation_reported(e: Event, session_id: u32, opt: u8, data: Seq<u8>) -> bool {
    e matches Event::Subnegotiation { id, option, data: d } && id == session_id && option == opt
        && d@ == data
}

/// What a session's connection reports.
#[derive(Debug)]
pub enum SessionEvent {
    /// The session is connected.
    Connected(Info),
    /// The connection was closed.
    Disconnected,
    /// The connection failed; holds the error's message.
    Error(String),
    /// A telnet protocol item arrived.
    Telnet(Item),
    /// Partial line content was flushed from the line buffer.
    PartialLine(Vec<u8>),
}

/// What an event from the connection leads the client to do.
#[derive(Debug)]
pub enum EventOutcome {
    /// The connection is gone and the state is now disconnected: emit `event`, show `status`
    /// in the output, then fail with the connection's error, if there is one.
    Lost { event: Event, status: Status, error: Option<String> },
    /// Partial line content arrived: run `prompt` through the triggers, show it, keep it as
    /// the session's prompt and report it.
    Prompt { prompt: MudLine },
    /// A telnet item arrived: process it (see [`process_negotiation`], [`process_iac`] and
    /// [`process_subnegotiation`]; a line goes through the triggers and is shown).
    Telnet { item: Item },
    /// Nothing to do.
    Ignored,
}

/// React to an event from the connection (see [`EventOutcome`]). A failed or closed
/// connection leaves the client disconnected; partial line content is a prompt line; telnet
/// items are passed on; a report that the session is connected changes nothing here.
pub fn process_event(state: &mut ConnState, session_id: u32, event: SessionEvent) -> (out:
    EventOutcome)
    ensures
        match event {
            SessionEvent::Error(m) => *final(state) == ConnState::Disconnected && out == (
            EventOutcome::Lost {
                event: Event::Connection { id: session_id, status: Status::Disconnected {  } },
                status: Status::Disconnected {  },
                error: Some(m),
            }),
            SessionEvent::Disconnected => *final(state) == ConnState::Disconnected && out == (
            EventOutcome::Lost {
                event: Event::Connection { id: session_id, status: Status::Disconnected {  } },
                status: Status::Disconnected {  },
                error: None,
            }),
            SessionEvent::PartialLine(data) => *final(state) == *old(state) && (out matches (
            EventOutcome::Prompt { prompt }) && prompt.raw@ == data@ && prompt.prompt
                && !prompt.gag),
            SessionEvent::Telnet(item) => *final(state) == *old(state) && out == (
            EventOutcome::Telnet { item }),
            SessionEvent::Connected(_) => *final(state) == *old(state) && out
                == EventOutcome::Ignored,
        },
{
    match event {
        SessionEvent::Error(m) => {
            *state = ConnState::Disconnected;
            EventOutcome::Lost {
                event: Event::Connection { id: session_id, status: Status::Disconnected {  } },
                status: Status::Disconnected {  },
                error: Some(m),
            }
        },
        SessionEvent::Disconnected => {
            *state = ConnState::Disconnected;
            EventOutcome::Lost {
                event: Event::Connection { id: session_id, status: Status::Disconnected {  } },
                status: Status::Disconnected {  },
                error: None,
            }
        },
        SessionEvent::PartialLine(data) => {
            let mut prompt = MudLine::new(data.as_slice());
            prompt.prompt = true;
            EventOutcome::Prompt { prompt }
        },
        SessionEvent::Telnet(item) => EventOutcome::Telnet { item },
        SessionEvent::Connected(_) => EventOutcome::Ignored,
    }
}

/// What a trigger's match of a line leads to: the texts of the groups, the trigger's
/// callback to run with them, the callback that replaces the line, whether the line is
/// gagged, and the line to send in reaction.
#[derive(Debug)]
pub struct TriggerHit {
    pub groups: Vec<String>,
    pub callback: Option<u32>,
    pub highlight: Option<u32>,
    pub gag: bool,
    pub expansion: Option<String>,
}

/// Match a line against a trigger: when it matches, the trigger counts one more hit and its
/// reaction is returned (see [`TriggerHit`]). [`PatternError::UnmatchedGroup`] if a group of
/// the match took no part in it.
pub fn evaluate_trigger(trigger: &mut TriggerConfig, line: &MudLine) -> (r: Result<
    Option<TriggerHit>,
    PatternError,
>)
    requires
        old(trigger).hit_count < u64::MAX,
    ensures
        final(trigger).name == old(trigger).name,
        final(trigger).strip_ansi == old(trigger).strip_ansi,
        final(trigger).prompt == old(trigger).prompt,
        final(trigger).gag == old(trigger).gag,
        final(trigger).callback == old(trigger).callback,
        final(trigger).highlight == old(trigger).highlight,
        final(trigger).expansion == old(trigger).expansion,
        final(trigger).regex == old(trigger).regex,
        ({
            let considered = old(trigger).considers(*line);
            let hay = trigger_haystack(old(trigger).strip_ansi, *line);
            let src = old(trigger).regex.source();
            if considered && !match_complete(src, hay) {
                r == Err::<Option<TriggerHit>, PatternError>(PatternError::UnmatchedGroup)
                    && final(trigger).hit_count == old(trigger).hit_count
            } else if considered && regex_captures(src, hay) is Some {
                &&& final(trigger).hit_count == old(trigger).hit_count + 1
                &&& r matches Ok(Some(h))
                &&& texts(h.groups@) == group_texts(regex_captures(src, hay).unwrap())
                &&& h.callback == old(trigger).callback
                &&& h.highlight == old(trigger).highlight
                &&& h.gag == old(trigger).gag
                &&& h.expansion == old(trigger).expansion
            } else {
                r matches Ok(None) && final(trigger).hit_count == old(trigger).hit_count
            }
        }),
{
    if !trigger.match_is_complete(line) {
        return Err(PatternError::UnmatchedGroup);
    }
    let (matched, groups) = trigger.matches(line);
    if !matched {
        return Ok(None);
    }
    let groups = match groups {
        Some(g) => g,
        None => Vec::new(),
    };
    trigger.hit_count = trigger.hit_count + 1;
    Ok(
        Some(
            TriggerHit {
                groups,
                callback: trigger.callback,
                highlight: trigger.highlight,
                gag: trigger.gag,
                expansion: match &trigger.expansion {
                    Some(e) => Some(e.clone()),
                    None => None,
                },
            },
        ),
    )
}

/// What an alias's match of a typed line leads to: the texts of the groups, and the alias's
/// callback to run with them and with the line as it was typed.
#[derive(Debug)]
pub struct AliasHit {
    pub alias_id: u32,
    pub groups: Vec<String>,
    pub callback: Option<u32>,
    pub input: InputLine,
}

/// The text an alias sends in place of a line it matches: its expansion, or nothing.
pub open spec fn alias_replacement(a: Alias) -> Seq<char> {
    match a.config.expansion {
        Some(e) => e@,
        None => seq![],
    }
}

/// An alias is the same as another but for its hit count.
pub open spec fn same_alias(a: Alias, b: Alias) -> bool {
    &&& a.id == b.id
    &&& a.enabled == b.enabled
    &&& a.module == b.module
    &&& a.config.name == b.config.name
    &&& a.config.callback == b.config.callback
    &&& a.config.expansion == b.config.expansion
    &&& a.config.regex == b.config.regex
}

/// Match a typed line against an alias: when it matches, the alias counts one more hit, the
/// typed text becomes the line's original and the alias's expansion (or nothing) is sent in
/// its place; the match is returned (see [`AliasHit`]). [`PatternError::UnmatchedGroup`] if a
/// group of the match took no part in it.
pub fn evaluate_alias(alias: &mut Alias, input: &mut InputLine) -> (r: Result<
    Option<AliasHit>,
    PatternError,
>)
    requires
        old(alias).config.hit_count < u64::MAX,
    ensures
        same_alias(*final(alias), *old(alias)),
        ({
            let src = old(alias).config.regex.source();
            let text = old(input).sent@;
            if !match_complete(src, text) {
                &&& r == Err::<Option<AliasHit>, PatternError>(PatternError::UnmatchedGroup)
                &&& final(alias).config.hit_count == old(alias).config.hit_count
                &&& *final(input) == *old(input)
            } else if regex_captures(src, text) is Some {
                &&& final(alias).config.hit_count == old(alias).config.hit_count + 1
                &&& final(input).sent@ == alias_replacement(*old(alias))
                &&& final(input).original matches Some(o) && o@ == text
                &&& final(input).echo == old(input).echo
                &&& final(input).scripted == old(input).scripted
                &&& r matches Ok(Some(h))
                &&& h.alias_id == old(alias).id
                &&& texts(h.groups@) == group_texts(regex_captures(src, text).unwrap())
                &&& h.callback == old(alias).config.callback
                &&& h.input == *old(input)
            } else {
                &&& r matches Ok(None)
                &&& final(alias).config.hit_count == old(alias).config.hit_count
                &&& *final(input) == *old(input)
            }
        }),
{
    if !alias.config.match_is_complete(input.sent.as_str()) {
        return Err(PatternError::UnmatchedGroup);
    }
    let (matched, groups) = alias.config.matches(input.sent.as_str());
    if !matched {
        return Ok(None);
    }
    let groups = match groups {
        Some(g) => g,
        None => Vec::new(),
    };
    alias.config.hit_count = alias.config.hit_count + 1;
    let before = input.duplicate();
    let mut sent = String::new();
    std::mem::swap(&mut sent, &mut input.sent);
    input.original = Some(sent);
    input.sent = match &alias.config.expansion {
        Some(e) => e.clone(),
        None => String::new(),
    };
    Ok(Some(AliasHit { alias_id: alias.id, groups, callback: alias.config.callback, input: before }))
}

/// Whether an alias acts on a text: the text is not empty, the alias is enabled and its
/// pattern matches the text.
pub open spec fn alias_fires(a: Alias, text: Seq<char>) -> bool {
    text.len() > 0 && a.enabled && regex_captures(a.config.regex.source(), text) is Some
}

/// The text after the aliases have acted in turn on a typed text: each alias that acts on
/// the current text (see [`alias_fires`]) replaces it.
pub open spec fn alias_run(aliases: Seq<Alias>, text: Seq<char>) -> Seq<char>
    decreases aliases.len(),
{
    if aliases.len() == 0 {
        text
    } else {
        let t = alias_run(aliases.drop_last(), text);
        if alias_fires(aliases.last(), t) {
            alias_replacement(aliases.last())
        } else {
            t
        }
    }
}

/// The original text of the line after the aliases have acted on it: the text that the last
/// alias that acted replaced, or `original` if none acted.
pub open spec fn alias_run_original(
    aliases: Seq<Alias>,
    text: Seq<char>,
    original: Option<Seq<char>>,
) -> Option<Seq<char>>
    decreases aliases.len(),
{
    if aliases.len() == 0 {
        original
    } else {
        let t = alias_run(aliases.drop_last(), text);
        if alias_fires(aliases.last(), t) {
            Some(t)
        } else {
            alias_run_original(aliases.drop_last(), text, original)
        }
    }
}

/// The text that the alias at position `i` is offered.
pub open spec fn offered(aliases: Seq<Alias>, text: Seq<char>, i: int) -> Seq<char> {
    alias_run(aliases.take(i), text)
}

/// The positions of the aliases that act, in order.
pub open spec fn alias_fired(aliases: Seq<Alias>, text: Seq<char>) -> Seq<int>
    decreases aliases.len(),
{
    if aliases.len() == 0 {
        seq![]
    } else {
        let prev = alias_fired(aliases.drop_last(), text);
        if alias_fires(aliases.last(), alias_run(aliases.drop_last(), text)) {
            prev.push(aliases.len() - 1)
        } else {
            prev
        }
    }
}

/// The alias at position `i`, if it is enabled and offered a non-empty text, finds every
/// group of its match taking part.
pub open spec fn alias_step_complete(aliases: Seq<Alias>, text: Seq<char>, i: int) -> bool {
    let t = offered(aliases, text, i);
    (t.len() > 0 && aliases[i].enabled) ==> match_complete(aliases[i].config.regex.source(), t)
}

/// Every alias offered a text finds every group of its match taking part.
pub open spec fn alias_run_complete(aliases: Seq<Alias>, text: Seq<char>) -> bool {
    forall|i: int| 0 <= i < aliases.len() ==> #[trigger] alias_step_complete(aliases, text, i)
}

/// A text, if there is one.
pub open spec fn opt_text(o: Option<String>) -> Option<Seq<char>> {
    match o {
        Some(s) => Some(s@),
        None => None,
    }
}

/// What sending a typed line leads to: the aliases' matches, and whether a line is sent. A
/// line that the aliases emptied is not sent, but shown and reported as if it were.
#[derive(Debug)]
pub struct TransmitOutcome {
    pub hits: Vec<AliasHit>,
    pub transmit: bool,
}

/// Run a typed line through the aliases, in order: while the line is not empty, each enabled
/// alias that matches it counts a hit and replaces it (see [`evaluate_alias`]). A line that
/// was not empty and that the aliases emptied is not transmitted.
/// [`PatternError::UnmatchedGroup`] if a group of an alias's match took no part in it.
pub fn transmit_input(aliases: &mut Vec<Alias>, input: &mut InputLine) -> (r: Result<
    TransmitOutcome,
    PatternError,
>)
    requires
        forall|i: int| 0 <= i < old(aliases)@.len() ==> (#[trigger] old(aliases)@[i]).config.hit_count
            < u64::MAX,
    ensures
        r is Ok <==> alias_run_complete(old(aliases)@, old(input).sent@),
        r is Err ==> r == Err::<TransmitOutcome, PatternError>(PatternError::UnmatchedGroup),
        r matches Ok(out) ==> {
            let a = old(aliases)@;
            let text = old(input).sent@;
            let fired = alias_fired(a, text);
            &&& final(input).sent@ == alias_run(a, text)
            &&& opt_text(final(input).original) == alias_run_original(
                a,
                text,
                opt_text(old(input).original),
            )
            &&& final(input).echo == old(input).echo
            &&& final(input).scripted == old(input).scripted
            &&& final(aliases)@.len() == a.len()
            &&& forall|i: int|
                0 <= i < a.len() ==> same_alias(#[trigger] final(aliases)@[i], a[i])
                    && final(aliases)@[i].config.hit_count == a[i].config.hit_count + (if alias_fires(
                    a[i],
                    offered(a, text, i),
                ) {
                    1int
                } else {
                    0int
                })
            &&& out.transmit == !(text.len() > 0 && alias_run(a, text).len() == 0)
            &&& out.hits@.len() == fired.len()
            &&& forall|k: int|
                0 <= k < fired.len() ==> {
                    let h = #[trigger] out.hits@[k];
                    let j = fired[k];
                    &&& h.alias_id == a[j].id
                    &&& h.callback == a[j].config.callback
                    &&& h.input.sent@ == offered(a, text, j)
                    &&& texts(h.groups@) == group_texts(
                        regex_captures(a[j].config.regex.source(), offered(a, text, j)).unwrap(),
                    )
                }
        },
{
    let ghost a = aliases@;
    let ghost text = input.sent@;
    let ghost orig = opt_text(input.original);
    let ghost echo = input.echo;
    let ghost scripted = input.scripted;
    let started_empty = chars_of(input.sent.as_str()).len() == 0;
    let mut hits: Vec<AliasHit> = Vec::new();
    let mut i: usize = 0;
    proof {
        assert(a.take(0) =~= Seq::<Alias>::empty());
    }
    while i < aliases.len()
        invariant
            i <= a.len(),
            aliases@.len() == a.len(),
            text == old(input).sent@,
            orig == opt_text(old(input).original),
            echo == old(input).echo,
            scripted == old(input).scripted,
            a == old(aliases)@,
            started_empty == (text.len() == 0),
            forall|j: int| 0 <= j < a.len() ==> (#[trigger] a[j]).config.hit_count < u64::MAX,
            forall|j: int|
                0 <= j < i ==> same_alias(#[trigger] aliases@[j], a[j])
                    && aliases@[j].config.hit_count == a[j].config.hit_count + (if alias_fires(
                    a[j],
                    offered(a, text, j),
                ) {
                    1int
                } else {
                    0int
                }),
            forall|j: int| i <= j < a.len() ==> #[trigger] aliases@[j] == a[j],
            input.sent@ == alias_run(a.take(i as int), text),
            opt_text(input.original) == alias_run_original(a.take(i as int), text, orig),
            input.echo == echo,
            input.scripted == scripted,
            forall|j: int| 0 <= j < i ==> #[trigger] alias_step_complete(a, text, j),
            hits@.len() == alias_fired(a.take(i as int), text).len(),
            forall|k: int|
                0 <= k < hits@.len() ==> {
                    let h = #[trigger] hits@[k];
                    let j = alias_fired(a.take(i as int), text)[k];
                    &&& 0 <= j < i
                    &&& h.alias_id == a[j].id
                    &&& h.callback == a[j].config.callback
                    &&& h.input.sent@ == offered(a, text, j)
                    &&& texts(h.groups@) == group_texts(
                        regex_captures(a[j].config.regex.source(), offered(a, text, j)).unwrap(),
                    )
                },
        decreases a.len() - i,
    {
        let ghost pre = a.take(i as int);
        let ghost post = a.take(i + 1);
        let ghost t = input.sent@;
        let ghost prev_hits = hits@;
        proof {
            assert(post.drop_last() =~= pre);
            assert(post.last() == a[i as int]);
            assert(offered(a, text, i as int) == t);
            lemma_fired_below(pre, text);
        }
        let nonempty = chars_of(input.sent.as_str()).len() > 0;
        if nonempty && aliases[i].enabled {
            match evaluate_alias(&mut aliases[i], input) {
                Err(e) => {
                    proof {
                        assert(!alias_step_complete(a, text, i as int));
                    }
                    return Err(e);
                },
                Ok(Some(h)) => {
                    hits.push(h);
                    proof {
                        assert(alias_fired(post, text) == alias_fired(pre, text).push(i as int));
                        assert forall|k: int| 0 <= k < hits@.len() implies {
                            let h = #[trigger] hits@[k];
                            let j = alias_fired(post, text)[k];
                            &&& 0 <= j < i + 1
                            &&& h.alias_id == a[j].id
                            &&& h.callback == a[j].config.callback
                            &&& h.input.sent@ == offered(a, text, j)
                            &&& texts(h.groups@) == group_texts(
                                regex_captures(a[j].config.regex.source(), offered(a, text, j)).unwrap(),
                            )
                        } by {
                            if k < prev_hits.len() {
                                assert(hits@[k] == prev_hits[k]);
                            }
                        }
                    }
                },
                Ok(None) => {},
            }
        } else {
            proof {
                assert(!alias_fires(a[i as int], t));
            }
        }
        i += 1;
    }
    proof {
        assert(a.take(i as int) =~= a);
    }
    let now_empty = chars_of(input.sent.as_str()).len() == 0;
    Ok(TransmitOutcome { hits, transmit: !(!started_empty && now_empty) })
}

/// The positions of the aliases that act are positions of aliases.
proof fn lemma_fired_below(aliases: Seq<Alias>, text: Seq<char>)
    ensures
        forall|k: int|
            0 <= k < alias_fired(aliases, text).len() ==> 0 <= #[trigger] alias_fired(
                aliases,
                text,
            )[k] < aliases.len(),
    decreases aliases.len(),
{
    if aliases.len() > 0 {
        let prev = alias_fired(aliases.drop_last(), text);
        lemma_fired_below(aliases.drop_last(), text);
        let f = alias_fired(aliases, text);
        assert forall|k: int| 0 <= k < f.len() implies 0 <= #[trigger] f[k] < aliases.len() by {
            if k < prev.len() {
                assert(0 <= prev[k] < aliases.drop_last().len());
            }
        }
    }
}

/// The line sent for one piece of a line split on the command separator: the line itself
/// when the piece is its whole text, and otherwise a line sending the piece, with the line's
/// text as its original.
pub open spec fn fragment_line(line: InputLine, piece: Seq<char>, l: InputLine) -> bool {
    if piece == line.sent@ {
        l == line
    } else {
        &&& l.sent@ == piece
        &&& l.original matches Some(o) && o@ == line.sent@
        &&& l.echo == line.echo
        &&& l.scripted == line.scripted
    }
}

/// The lines that sending a line sends: with a command separator, one line per piece of its
/// text between separators (empty pieces included; see [`fragment_line`]); without, the line
/// itself.
pub fn line_fragments(line: &InputLine, separator: Option<&str>) -> (lines: Vec<InputLine>)
    ensures
        match separator {
            None => lines@ == seq![*line],
            Some(sep) => {
                let pieces = split_text(line.sent@, sep@);
                &&& lines@.len() == pieces.len()
                &&& forall|i: int|
                    0 <= i < pieces.len() ==> fragment_line(*line, pieces[i], #[trigger] lines@[i])
            },
        },
{
    let sep = match separator {
        None => {
            return vec![line.duplicate()];
        },
        Some(sep) => sep,
    };
    let text = chars_of(line.sent.as_str());
    let sep_chars = chars_of(sep);
    let pieces = split_chars(&text, &sep_chars);
    let ghost all = split_text(line.sent@, sep@);
    let mut lines: Vec<InputLine> = Vec::new();
    let mut i: usize = 0;
    while i < pieces.len()
        invariant
            i <= pieces@.len(),
            text@ == line.sent@,
            pieces@.len() == all.len(),
            all == split_text(line.sent@, sep@),
            forall|m: int| 0 <= m < pieces@.len() ==> #[trigger] pieces@[m]@ == all[m],
            lines@.len() == i,
            forall|m: int| 0 <= m < i ==> fragment_line(*line, all[m], #[trigger] lines@[m]),
        decreases pieces@.len() - i,
    {
        let same = crate::text::eq_chars(&pieces[i], &text);
        if same {
            lines.push(line.duplicate());
        } else {
            lines.push(
                InputLine {
                    sent: string_from_chars(pieces[i].as_slice()),
                    original: Some(line.sent.clone()),
                    echo: line.echo,
                    scripted: line.scripted,
                },
            );
        }
        i += 1;
    }
    lines
}

/// The lines that sending the queued input transmits: an empty line when nothing is queued;
/// the queued line itself when it is blank or there is no command separator; otherwise the
/// non-blank pieces of its text between separators (see [`InputLine::split`]).
pub fn queued_lines(queued: Option<InputLine>, separator: Option<&str>) -> (lines: Vec<
    InputLine,
>)
    ensures
        match queued {
            None => lines@.len() == 1 && lines@[0].sent@.len() == 0 && lines@[0].original is None
                && lines@[0].echo == EchoState::Enabled && !lines@[0].scripted,
            Some(q) => match separator {
                Some(sep) if !is_blank(q.sent@) => {
                    let pieces = non_blank(split_text(q.sent@, sep@));
                    &&& lines@.len() == pieces.len()
                    &&& forall|i: int|
                        0 <= i < pieces.len() ==> {
                            &&& (#[trigger] lines@[i]).sent@ == pieces[i]
                            &&& lines@[i].original is None
                            &&& lines@[i].echo == q.echo
                            &&& lines@[i].scripted == q.scripted
                        }
                },
                _ => lines@ == seq![q],
            },
        },
{
    match queued {
        None => vec![
            InputLine {
                sent: String::new(),
                original: None,
                echo: EchoState::Enabled,
                scripted: false,
            },
        ],
        Some(q) => {
            if q.empty() {
                return vec![q];
            }
            match separator {
                None => vec![q],
                Some(sep) => q.split(sep),
            }
        },
    }
}

/// The lines that a line's trigger reactions send, in order: each expansion, echoed and
/// marked as coming from a script.
pub fn trigger_lines(expansions: Vec<String>) -> (lines: Vec<InputLine>)
    ensures
        lines@.len() == expansions@.len(),
        forall|i: int|
            0 <= i < lines@.len() ==> {
                &&& (#[trigger] lines@[i]).sent@ == expansions@[i]@
                &&& lines@[i].original is None
                &&& lines@[i].echo == EchoState::Enabled
                &&& lines@[i].scripted
            },
{
    let mut lines: Vec<InputLine> = Vec::new();
    let mut i: usize = 0;
    while i < expansions.len()
        invariant
            i <= expansions@.len(),
            lines@.len() == i,
            forall|m: int|
                0 <= m < i ==> {
                    &&& (#[trigger] lines@[m]).sent@ == expansions@[m]@
                    &&& lines@[m].original is None
                    &&& lines@[m].echo == EchoState::Enabled
                    &&& lines@[m].scripted
                },
        decreases expansions@.len() - i,
    {
        lines.push(InputLine::new(expansions[i].clone(), true, true));
        i += 1;
    }
    lines
}

/// What changing the prompt mode leads the client to do: stop the running prompt flusher,
/// if there is one; then, when connected, either start a flusher that flushes a partial line
/// after the given timeout (unsignalled prompts), or flush once after 200 ms (signalled
/// prompts, which the server may have sent before the mode changed).
#[derive(Debug, Clone, Copy, PartialEq, Eq, Structural)]
pub struct PromptModeChange {
    pub stop_flusher: bool,
    pub start_flusher_ms: Option<u64>,
    pub flush_after_ms: Option<u64>,
}

/// Change the prompt mode (see [`PromptModeChange`]).
pub fn set_prompt_mode(
    mode: &mut PromptMode,
    new_mode: PromptMode,
    flusher_running: bool,
    connected: bool,
) -> (out: PromptModeChange)
    ensures
        *final(mode) == new_mode,
        out.stop_flusher == flusher_running,
        !connected ==> out.start_flusher_ms is None && out.flush_after_ms is None,
        connected ==> match new_mode {
            PromptMode::Unsignalled { timeout_ms } => out.start_flusher_ms == Some(timeout_ms)
                && out.flush_after_ms is None,
            PromptMode::Signalled { .. } => out.start_flusher_ms is None && out.flush_after_ms
                == Some(200u64),
        },
{
    *mode = new_mode;
    let mut out = PromptModeChange {
        stop_flusher: flusher_running,
        start_flusher_ms: None,
        flush_after_ms: None,
    };
    if !connected {
        return out;
    }
    match new_mode {
        PromptMode::Unsignalled { timeout_ms } => {
            out.start_flusher_ms = Some(timeout_ms);
        },
        PromptMode::Signalled { .. } => {
            out.flush_after_ms = Some(200);
        },
    }
    out
}

/// Whether a key press sends the queued input (the enter key) rather than editing it.
pub fn key_sends_input(code: &crate::model::KeyCode) -> (b: bool)
    ensures
        b == (*code == crate::model::KeyCode::Enter),
{
    match code {
        crate::model::KeyCode::Enter => true,
        _ => false,
    }
}

/// Whether a connection attempt starts: only a disconnected client connects.
pub fn needs_connect(state: &ConnState) -> (b: bool)
    ensures
        b == (*state is Disconnected),
{
    match state {
        ConnState::Disconnected => true,
        _ => false,
    }
}

/// Start connecting a disconnected client: it is now connecting, which is reported.
pub fn begin_connect(state: &mut ConnState, session_id: u32) -> (event: Event)
    ensures
        *final(state) == ConnState::Connecting,
        event == (Event::Connection { id: session_id, status: Status::Connecting {  } }),
{
    *state = ConnState::Connecting;
    Event::Connection { id: session_id, status: Status::Connecting {  } }
}

/// What the end of a connection attempt leads the client to do: report the new status (and
/// show it, when connected); when connected, start a prompt flusher with a 200 ms timeout if
/// prompts are unsignalled (replacing a running one), and ask the server to enable GMCP; when
/// it failed, fail with the error.
#[derive(Debug)]
pub struct ConnectOutcome {
    pub event: Event,
    pub shown_status: Option<Status>,
    pub start_flusher_ms: Option<u64>,
    pub request_gmcp: bool,
    pub error: Option<String>,
}

/// Finish a connection attempt with its result: connected over the described stream, or
/// failed with an error message (see [`ConnectOutcome`]).
pub fn finish_connect(
    state: &mut ConnState,
    session_id: u32,
    result: Result<Info, String>,
    prompt_mode: &PromptMode,
) -> (out: ConnectOutcome)
    ensures
        match result {
            Ok(info) => {
                &&& *final(state) == (ConnState::Connected { info })
                &&& out.event == (Event::Connection {
                    id: session_id,
                    status: Status::Connected { info },
                })
                &&& out.shown_status == Some(Status::Connected { info })
                &&& out.start_flusher_ms == if *prompt_mode is Unsignalled {
                    Some(200u64)
                } else {
                    None
                }
                &&& out.request_gmcp
                &&& out.error is None
            },
            Err(e) => {
                &&& *final(state) == ConnState::Disconnected
                &&& out.event == (Event::Connection {
                    id: session_id,
                    status: Status::Disconnected {  },
                })
                &&& out.shown_status is None
                &&& out.start_flusher_ms is None
                &&& !out.request_gmcp
                &&& out.error == Some(e)
            },
        },
{
    match result {
        Ok(info) => {
            let shown = Status::Connected { info: info.duplicate() };
            let status = Status::Connected { info: info.duplicate() };
            *state = ConnState::Connected { info };
            let start_flusher_ms = match prompt_mode {
                PromptMode::Unsignalled { .. } => Some(200),
                PromptMode::Signalled { .. } => None,
            };
            ConnectOutcome {
                event: Event::Connection { id: session_id, status },
                shown_status: Some(shown),
                start_flusher_ms,
                request_gmcp: true,
                error: None,
            }
        },
        Err(e) => {
            *state = ConnState::Disconnected;
            ConnectOutcome {
                event: Event::Connection { id: session_id, status: Status::Disconnected {  } },
                shown_status: None,
                start_flusher_ms: None,
                request_gmcp: false,
                error: Some(e),
            }
        },
    }
}

/// Start disconnecting: a connected client is now disconnected, and then stops its prompt
/// flusher, asks its connection to close and waits for it; otherwise nothing happens.
pub fn begin_disconnect(state: &mut ConnState) -> (was_connected: bool)
    ensures
        was_connected == (*old(state) is Connected),
        was_connected ==> *final(state) == ConnState::Disconnected,
        !was_connected ==> *final(state) == *old(state),
{
    match state {
        ConnState::Connected { .. } => {
            *state = ConnState::Disconnected;
            true
        },
        _ => false,
    }
}

/// The textual form of a client: its session, status and prompt mode, then how many
/// triggers, aliases and enabled telnet options it has.
pub open spec fn client_display(
    info: crate::model::SessionInfo,
    status: Status,
    mode: PromptMode,
    triggers: usize,
    aliases: usize,
    options: usize,
) -> Seq<char> {
    "Client "@ + info.spec_display() + " "@ + status.spec_display() + " "@ + mode.spec_display()
        + " "@ + crate::text::decimal(triggers as nat) + " triggers "@ + crate::text::decimal(
        aliases as nat,
    ) + " aliases "@ + crate::text::decimal(options as nat) + " telnet options enabled"@
}

/// The textual form of a client (see [`client_display`]).
pub fn client_description(
    info: &crate::model::SessionInfo,
    status: &Status,
    mode: &PromptMode,
    triggers: usize,
    aliases: usize,
    options: usize,
) -> (s: String)
    ensures
        s@ == client_display(*info, *status, *mode, triggers, aliases, options),
{
    let mut s = crate::text::owned("Client ");
    crate::text::push_str(&mut s, info.to_string().as_str());
    crate::text::push_str(&mut s, " ");
    crate::text::push_str(&mut s, status.to_string().as_str());
    crate::text::push_str(&mut s, " ");
    crate::text::push_str(&mut s, mode.to_string().as_str());
    crate::text::push_str(&mut s, " ");
    crate::text::push_decimal(&mut s, triggers as u64);
    crate::text::push_str(&mut s, " triggers ");
    crate::text::push_decimal(&mut s, aliases as u64);
    crate::text::push_str(&mut s, " aliases ");
    crate::text::push_decimal(&mut s, options as u64);
    crate::text::push_str(&mut s, " telnet options enabled");
    s
}

} // verus!
