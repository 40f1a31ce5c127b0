//! Per-session presentation state: how prompts are recognised and which way the output
//! buffer grows.

use vstd::prelude::*;

use crate::model::millis_debug;
use crate::net::telnet::command;
use crate::text::{owned, push_str};

verus! {

/// How a MUD marks its prompts.
#[derive(Debug, Copy, Clone, Eq, PartialEq, Structural)]
pub enum PromptSignal {
    /// Prompts end with telnet's end of record.
    EndOfRecord,
    /// Prompts end with telnet's go ahead.
    GoAhead,
}

impl PromptSignal {
    /// The name of the signal.
    pub open spec fn spec_display(self) -> Seq<char> {
        match self {
            PromptSignal::EndOfRecord => "EndOfRecord"@,
            PromptSignal::GoAhead => "GoAhead"@,
        }
    }

    /// The name of the signal.
    pub fn to_string(&self) -> (s: String)
        ensures
            s@ == self.spec_display(),
    {
        match self {
            PromptSignal::EndOfRecord => owned("EndOfRecord"),
            PromptSignal::GoAhead => owned("GoAhead"),
        }
    }
}

impl From<PromptSignal> for u8 {
    /// The telnet command that ends a prompt.
    fn from(value: PromptSignal) -> (b: u8) {
        match value {
            PromptSignal::EndOfRecord => command::EOR,
            PromptSignal::GoAhead => command::GA,
        }
    }
}

impl vstd::std_specs::convert::FromSpecImpl<PromptSignal> for u8 {
    open spec fn obeys_from_spec() -> bool {
        true
    }

    open spec fn from_spec(value: PromptSignal) -> u8 {
        match value {
            PromptSignal::EndOfRecord => command::EOR,
            PromptSignal::GoAhead => command::GA,
        }
    }
}

/// How prompts are recognised.
#[derive(Debug, Clone, Copy, Eq, PartialEq, Structural)]
pub enum PromptMode {
    /// The MUD does not mark prompts: buffered data still unterminated when the timeout (in
    /// milliseconds) expires is flushed as a prompt.
    Unsignalled { timeout_ms: u64 },
    /// The MUD ends prompts with a telnet command.
    Signalled { signal: PromptSignal },
}

impl PromptMode {
    /// The default mode: unsignalled, with a 200 millisecond timeout.
    pub fn default_mode() -> (m: PromptMode)
        ensures
            m == (PromptMode::Unsignalled { timeout_ms: 200 }),
    {
        PromptMode::Unsignalled { timeout_ms: 200 }
    }

    /// The signal that ends prompts, if the MUD marks them.
    pub fn signal(&self) -> (r: Option<PromptSignal>)
        ensures
            r == match *self {
                PromptMode::Unsignalled { .. } => None::<PromptSignal>,
                PromptMode::Signalled { signal } => Some(signal),
            },
    {
        match self {
            PromptMode::Unsignalled { .. } => None,
            PromptMode::Signalled { signal } => Some(*signal),
        }
    }

    /// Whether the mode needs a timer to flush unterminated prompts.
    pub fn needs_flusher(&self) -> (b: bool)
        ensures
            b == (*self is Unsignalled),
    {
        match self {
            PromptMode::Unsignalled { .. } => true,
            PromptMode::Signalled { .. } => false,
        }
    }

    /// The textual form of the mode.
    pub open spec fn spec_display(self) -> Seq<char> {
        match self {
            PromptMode::Unsignalled { timeout_ms } => "unsignalled prompt mode ("@ + millis_debug(
                timeout_ms as nat,
            ) + " flush timeout)"@,
            PromptMode::Signalled { signal } => "signalled prompt mode ("@ + signal.spec_display()
                + ")"@,
        }
    }

    /// The textual form of the mode, e.g. `unsignalled prompt mode (200ms flush timeout)`.
    pub fn to_string(&self) -> (s: String)
        ensures
            s@ == self.spec_display(),
    {
        match self {
            PromptMode::Unsignalled { timeout_ms } => {
                let mut s = owned("unsignalled prompt mode (");
                crate::model::push_millis(&mut s, *timeout_ms);
                push_str(&mut s, " flush timeout)");
                s
            },
            PromptMode::Signalled { signal } => {
                let mut s = owned("signalled prompt mode (");
                let t = signal.to_string();
                push_str(&mut s, t.as_str());
                push_str(&mut s, ")");
                s
            },
        }
    }
}

impl Default for PromptMode {
    fn default() -> (m: PromptMode)
        ensures
            m == (PromptMode::Unsignalled { timeout_ms: 200 }),
    {
        PromptMode::default_mode()
    }
}

/// Which way an output buffer grows.
#[derive(Debug, Default, Clone, Copy, Eq, PartialEq, Structural)]
pub enum BufferDirection {
    TopToBottom,
    #[default]
    BottomToTop,
}

impl BufferDirection {
    /// The textual form: `top to bottom` or `bottom to top`.
    pub open spec fn spec_display(self) -> Seq<char> {
        match self {
            BufferDirection::TopToBottom => "top to bottom"@,
            BufferDirection::BottomToTop => "bottom to top"@,
        }
    }

    /// The textual form of the direction.
    pub fn to_string(&self) -> (s: String)
        ensures
            s@ == self.spec_display(),
    {
        match self {
            BufferDirection::TopToBottom => owned("top to bottom"),
            BufferDirection::BottomToTop => owned("bottom to top"),
        }
    }
}

/// A change of a session's prompt, to report to scripts.
#[derive(Debug, Clone, PartialEq, Eq)]
pub enum PromptEvent {
    /// The prompt's content changed.
    ContentChanged { from: String, to: String },
    /// The prompt mode changed.
    ModeChanged { from: PromptMode, to: PromptMode },
}

/// What changing a session's prompt mode leads it to do: stop the running flusher, if any;
/// when connected, start a flusher with the new mode's timeout (unsignalled prompts), or,
/// when the session had a flusher and the new mode needs none, flush once after 200 ms so
/// that nothing buffered before the change is missed.
#[derive(Debug, Clone, Copy, PartialEq, Eq, Structural)]
pub struct FlusherChange {
    pub stop_flusher: bool,
    pub start_flusher_ms: Option<u64>,
    pub flush_after_ms: Option<u64>,
}

/// A session's prompt: its content, its mode, whether a flusher runs for it, and whether the
/// session is connected.
#[derive(Debug)]
pub struct Prompt {
    id: u32,
    mode: PromptMode,
    flusher: Option<u64>,
    content: String,
    connected: bool,
}

impl Prompt {
    /// The session the prompt belongs to.
    pub closed spec fn spec_id(&self) -> u32 {
        self.id
    }

    /// The prompt mode.
    pub closed spec fn spec_mode(&self) -> PromptMode {
        self.mode
    }

    /// The timeout of the running flusher, if one runs.
    pub closed spec fn spec_flusher(&self) -> Option<u64> {
        self.flusher
    }

    /// The prompt's content.
    pub closed spec fn spec_content(&self) -> Seq<char> {
        self.content@
    }

    /// Whether the session is connected.
    pub closed spec fn spec_connected(&self) -> bool {
        self.connected
    }

    /// A flusher runs exactly when the session is connected and prompts are unsignalled, with
    /// the mode's timeout.
    pub closed spec fn wf(&self) -> bool {
        self.flusher == if self.connected {
            match self.mode {
                PromptMode::Unsignalled { timeout_ms } => Some(timeout_ms),
                PromptMode::Signalled { .. } => None,
            }
        } else {
            None
        }
    }

    /// The prompt of a session that is not connected yet: empty content, the default mode,
    /// no flusher.
    pub fn new(id: u32) -> (p: Prompt)
        ensures
            p.wf(),
            p.spec_id() == id,
            p.spec_mode() == (PromptMode::Unsignalled { timeout_ms: 200 }),
            p.spec_flusher() is None,
            p.spec_content().len() == 0,
            !p.spec_connected(),
    {
        Prompt {
            id,
            mode: PromptMode::default_mode(),
            flusher: None,
            content: String::new(),
            connected: false,
        }
    }

    /// The prompt's content.
    pub fn content(&self) -> (s: &str)
        ensures
            s@ == self.spec_content(),
    {
        self.content.as_str()
    }

    /// The prompt mode.
    pub fn mode(&self) -> (m: PromptMode)
        ensures
            m == self.spec_mode(),
    {
        self.mode
    }

    /// The timeout of the running flusher, if one runs.
    pub fn flusher(&self) -> (f: Option<u64>)
        ensures
            f == self.spec_flusher(),
    {
        self.flusher
    }

    /// Replace the content. Unchanged content is handed back with nothing to report;
    /// otherwise the previous content is handed back and the change is reported.
    pub fn set_content(&mut self, content: String) -> (r: (String, Option<PromptEvent>))
        requires
            old(self).wf(),
        ensures
            final(self).wf(),
            final(self).spec_content() == content@,
            final(self).spec_mode() == old(self).spec_mode(),
            final(self).spec_flusher() == old(self).spec_flusher(),
            final(self).spec_connected() == old(self).spec_connected(),
            final(self).spec_id() == old(self).spec_id(),
            content@ == old(self).spec_content() ==> r.0@ == content@ && r.1 is None,
            content@ != old(self).spec_content() ==> r.0@ == old(self).spec_content() && (
            r.1 matches Some(PromptEvent::ContentChanged { from, to }) && from@ == old(
                self,
            ).spec_content() && to@ == content@),
    {
        let same = crate::text::eq_chars(
            &crate::text::chars_of(self.content.as_str()),
            &crate::text::chars_of(content.as_str()),
        );
        if same {
            return (content, None);
        }
        let mut previous = content.clone();
        std::mem::swap(&mut previous, &mut self.content);
        let event = PromptEvent::ContentChanged { from: previous.clone(), to: content };
        (previous, Some(event))
    }

    /// The session connected: a flusher starts if prompts are unsignalled (and none runs
    /// yet).
    pub fn init_flusher(&mut self) -> (started: Option<u64>)
        requires
            old(self).wf(),
        ensures
            final(self).wf(),
            final(self).spec_connected(),
            final(self).spec_mode() == old(self).spec_mode(),
            final(self).spec_content() == old(self).spec_content(),
            final(self).spec_id() == old(self).spec_id(),
            started == if old(self).spec_flusher() is None {
                final(self).spec_flusher()
            } else {
                None
            },
    {
        if self.flusher.is_some() {
            self.connected = true;
            return None;
        }
        self.connected = true;
        self.flusher = match self.mode {
            PromptMode::Unsignalled { timeout_ms } => Some(timeout_ms),
            PromptMode::Signalled { .. } => None,
        };
        self.flusher
    }

    /// Replace the prompt mode (see [`FlusherChange`]); the previous mode is handed back and
    /// the change is reported.
    pub fn set_mode(&mut self, mode: PromptMode) -> (r: (PromptMode, FlusherChange, PromptEvent))
        requires
            old(self).wf(),
        ensures
            final(self).wf(),
            final(self).spec_mode() == mode,
            final(self).spec_content() == old(self).spec_content(),
            final(self).spec_connected() == old(self).spec_connected(),
            final(self).spec_id() == old(self).spec_id(),
            r.0 == old(self).spec_mode(),
            r.1.stop_flusher == old(self).spec_flusher() is Some,
            r.1.start_flusher_ms == final(self).spec_flusher(),
            r.1.flush_after_ms == if old(self).spec_connected() && old(self).spec_flusher() is Some
                && final(self).spec_flusher() is None {
                Some(200u64)
            } else {
                None
            },
            r.2 == (PromptEvent::ModeChanged { from: old(self).spec_mode(), to: mode }),
    {
        let had_flusher = self.flusher.is_some();
        let old_mode = self.mode;
        self.mode = mode;
        self.flusher = None;
        if self.connected {
            self.flusher = match self.mode {
                PromptMode::Unsignalled { timeout_ms } => Some(timeout_ms),
                PromptMode::Signalled { .. } => None,
            };
        }
        let flush_after_ms = if self.connected && had_flusher && self.flusher.is_none() {
            Some(200)
        } else {
            None
        };
        let change = FlusherChange {
            stop_flusher: had_flusher,
            start_flusher_ms: self.flusher,
            flush_after_ms,
        };
        (old_mode, change, PromptEvent::ModeChanged { from: old_mode, to: mode })
    }
}

/// What a prompt flusher does when its timeout expires: it flushes the buffered partial line
/// as a prompt unless the timeout was extended since, and then waits for data again.
/// Returns whether to flush, and the new state of the "flush when the time comes" flag.
pub fn flusher_timeout_expired(send_flush: bool) -> (r: (bool, bool))
    ensures
        r == (send_flush, false),
{
    if !send_flush {
        return (false, false);
    }
    (true, false)
}

/// What a prompt flusher does when more data arrived: the timeout restarts, and the flush
/// becomes due again. Returns the new state of the flag.
pub fn flusher_timeout_extended(send_flush: bool) -> (r: bool)
    ensures
        r,
{
    true
}

} // verus!
