//! Session events, the connection status they report, and the kinds of events that scripts
//! can subscribe to.

use vstd::prelude::*;

use crate::model::{InputLine, Mud, MudLine, SessionInfo, Shortcut};
use crate::text::{decimal, owned, push_decimal, push_str};

verus! {

/// A description of a stream's connection.
#[derive(Clone, Debug, Eq, PartialEq)]
pub enum Info {
    /// An unencrypted TCP stream to the resolved address `ip` and `port`.
    Tcp { ip: String, port: u16 },
    /// A TLS encrypted TCP stream, with the negotiated protocol and ciphersuite names, and
    /// whether certificate verification was skipped.
    Tls { ip: String, port: u16, protocol: String, ciphersuite: String, verify_skipped: bool },
}

impl Info {
    /// A copy of the description.
    pub fn duplicate(&self) -> (r: Info)
        ensures
            r == *self,
    {
        match self {
            Info::Tcp { ip, port } => Info::Tcp { ip: ip.clone(), port: *port },
            Info::Tls { ip, port, protocol, ciphersuite, verify_skipped } => Info::Tls {
                ip: ip.clone(),
                port: *port,
                protocol: protocol.clone(),
                ciphersuite: ciphersuite.clone(),
                verify_skipped: *verify_skipped,
            },
        }
    }

    /// The textual form: `telnet://<ip>:<port>`, or
    /// `tls://<ip>:<port> (<protocol> <ciphersuite>)` with ` !verify-skipped!` before the closing
    /// parenthesis when verification was skipped.
    pub open spec fn spec_display(&self) -> Seq<char> {
        match self {
            Info::Tcp { ip, port } => "telnet://"@ + ip@ + ":"@ + decimal(*port as nat),
            Info::Tls { ip, port, protocol, ciphersuite, verify_skipped } => "tls://"@ + ip@ + ":"@
                + decimal(*port as nat) + " ("@ + protocol@ + " "@ + ciphersuite@ + (if *verify_skipped {
                " !verify-skipped!"@
            } else {
                ""@
            }) + ")"@,
        }
    }

    /// The textual form of the connection.
    pub fn to_string(&self) -> (s: String)
        ensures
            s@ == self.spec_display(),
    {
        match self {
            Info::Tcp { ip, port } => {
                let mut s = owned("telnet://");
                push_str(&mut s, ip.as_str());
                push_str(&mut s, ":");
                push_decimal(&mut s, *port as u64);
                s
            },
            Info::Tls { ip, port, protocol, ciphersuite, verify_skipped } => {
                let mut s = owned("tls://");
                push_str(&mut s, ip.as_str());
                push_str(&mut s, ":");
                push_decimal(&mut s, *port as u64);
                push_str(&mut s, " (");
                push_str(&mut s, protocol.as_str());
                push_str(&mut s, " ");
                push_str(&mut s, ciphersuite.as_str());
                if *verify_skipped {
                    push_str(&mut s, " !verify-skipped!");
                } else {
                    push_str(&mut s, "");
                }
                push_str(&mut s, ")");
                s
            },
        }
    }
}

/// Status of a client's connection to the MUD server.
#[derive(Clone, Debug, Eq, PartialEq)]
pub enum Status {
    /// Not connected.
    Disconnected {},
    /// Connecting.
    Connecting {},
    /// Connected, over the described stream.
    Connected { info: Info },
}

impl Status {
    /// The textual form: `disconnected`, `connecting`, or the connection's description.
    pub open spec fn spec_display(&self) -> Seq<char> {
        match self {
            Status::Disconnected {  } => "disconnected"@,
            Status::Connecting {  } => "connecting"@,
            Status::Connected { info } => info.spec_display(),
        }
    }

    /// The textual form of the status.
    pub fn to_string(&self) -> (s: String)
        ensures
            s@ == self.spec_display(),
    {
        match self {
            Status::Disconnected {  } => owned("disconnected"),
            Status::Connecting {  } => owned("connecting"),
            Status::Connected { info } => info.to_string(),
        }
    }
}

/// The kinds of events.
#[derive(Clone, Copy, Debug, Eq, PartialEq, Hash, Structural)]
pub enum EventType {
    NewSession,
    Connection,
    Prompt,
    ConfigReloaded,
    PythonReloaded,
    Iac,
    OptionEnabled,
    OptionDisabled,
    Subnegotiation,
    BufferResized,
    InputLine,
    Shortcut,
    KeyPress,
    Python,
    GmcpEnabled,
    GmcpDisabled,
    GmcpMessage,
    ResumeSession,
}

impl EventType {
    /// The description of the kind, e.g. `event type: GMCP message`.
    pub open spec fn spec_display(self) -> Seq<char> {
        match self {
            EventType::NewSession => "event type: new session"@,
            EventType::Connection => "event type: connection"@,
            EventType::Prompt => "event type: prompt"@,
            EventType::ConfigReloaded => "event type: config reloaded"@,
            EventType::Iac => "event type: telnet IAC"@,
            EventType::OptionEnabled => "event type: telnet option enabled"@,
            EventType::OptionDisabled => "event type: telnet option disabled"@,
            EventType::Subnegotiation => "event type: telnet subnegotiation"@,
            EventType::BufferResized => "event type: buffer resized"@,
            EventType::InputLine => "event type: input line"@,
            EventType::Shortcut => "event type: keyboard shortcut"@,
            EventType::KeyPress => "event type: key press"@,
            EventType::Python => "event type: custom python event"@,
            EventType::GmcpEnabled => "event type: GMCP enabled"@,
            EventType::GmcpDisabled => "event type: GMCP disabled"@,
            EventType::GmcpMessage => "event type: GMCP message"@,
            EventType::PythonReloaded => "event type: python reloaded"@,
            EventType::ResumeSession => "event type: session resumed"@,
        }
    }

    /// The description of the kind.
    pub fn to_string(&self) -> (s: String)
        ensures
            s@ == self.spec_display(),
    {
        match self {
            EventType::NewSession => owned("event type: new session"),
            EventType::Connection => owned("event type: connection"),
            EventType::Prompt => owned("event type: prompt"),
            EventType::ConfigReloaded => owned("event type: config reloaded"),
            EventType::Iac => owned("event type: telnet IAC"),
            EventType::OptionEnabled => owned("event type: telnet option enabled"),
            EventType::OptionDisabled => owned("event type: telnet option disabled"),
            EventType::Subnegotiation => owned("event type: telnet subnegotiation"),
            EventType::BufferResized => owned("event type: buffer resized"),
            EventType::InputLine => owned("event type: input line"),
            EventType::Shortcut => owned("event type: keyboard shortcut"),
            EventType::KeyPress => owned("event type: key press"),
            EventType::Python => owned("event type: custom python event"),
            EventType::GmcpEnabled => owned("event type: GMCP enabled"),
            EventType::GmcpDisabled => owned("event type: GMCP disabled"),
            EventType::GmcpMessage => owned("event type: GMCP message"),
            EventType::PythonReloaded => owned("event type: python reloaded"),
            EventType::ResumeSession => owned("event type: session resumed"),
        }
    }
}

/// An event of a session, or of the whole client, that scripts can react to.
///
/// Events raised by scripts themselves, carrying script values, are not represented here.
#[derive(Clone, Debug, Eq, PartialEq)]
pub enum Event {
    NewSession { id: u32, info: SessionInfo, mud: Mud },
    Connection { id: u32, status: Status },
    Prompt { id: u32, prompt: MudLine },
    Iac { id: u32, command: u8 },
    OptionEnabled { id: u32, option: u8 },
    OptionDisabled { id: u32, option: u8 },
    Subnegotiation { id: u32, option: u8, data: Vec<u8> },
    BufferResized { id: u32, width: u16, height: u16 },
    InputLine { id: u32, input: InputLine },
    Shortcut { id: u32, shortcut: Shortcut },
    KeyPress { id: u32, json: String },
    GmcpEnabled { id: u32 },
    GmcpDisabled { id: u32 },
    GmcpMessage { id: u32, package: String, json: String },
    ConfigReloaded {},
    PythonReloaded {},
    ResumeSession { id: u32 },
}

impl Event {
    /// The kind of the event.
    pub open spec fn spec_type(&self) -> EventType {
        match self {
            Event::NewSession { .. } => EventType::NewSession,
            Event::Connection { .. } => EventType::Connection,
            Event::Prompt { .. } => EventType::Prompt,
            Event::ConfigReloaded {  } => EventType::ConfigReloaded,
            Event::Iac { .. } => EventType::Iac,
            Event::OptionEnabled { .. } => EventType::OptionEnabled,
            Event::OptionDisabled { .. } => EventType::OptionDisabled,
            Event::Subnegotiation { .. } => EventType::Subnegotiation,
            Event::BufferResized { .. } => EventType::BufferResized,
            Event::InputLine { .. } => EventType::InputLine,
            Event::Shortcut { .. } => EventType::Shortcut,
            Event::KeyPress { .. } => EventType::KeyPress,
            Event::GmcpEnabled { .. } => EventType::GmcpEnabled,
            Event::GmcpDisabled { .. } => EventType::GmcpDisabled,
            Event::GmcpMessage { .. } => EventType::GmcpMessage,
            Event::PythonReloaded {  } => EventType::PythonReloaded,
            Event::ResumeSession { .. } => EventType::ResumeSession,
        }
    }

    /// The kind of the event.
    pub fn event_type(&self) -> (t: EventType)
        ensures
            t == self.spec_type(),
    {
        match self {
            Event::NewSession { .. } => EventType::NewSession,
            Event::Connection { .. } => EventType::Connection,
            Event::Prompt { .. } => EventType::Prompt,
            Event::ConfigReloaded {  } => EventType::ConfigReloaded,
            Event::Iac { .. } => EventType::Iac,
            Event::OptionEnabled { .. } => EventType::OptionEnabled,
            Event::OptionDisabled { .. } => EventType::OptionDisabled,
            Event::Subnegotiation { .. } => EventType::Subnegotiation,
            Event::BufferResized { .. } => EventType::BufferResized,
            Event::InputLine { .. } => EventType::InputLine,
            Event::Shortcut { .. } => EventType::Shortcut,
            Event::KeyPress { .. } => EventType::KeyPress,
            Event::GmcpEnabled { .. } => EventType::GmcpEnabled,
            Event::GmcpDisabled { .. } => EventType::GmcpDisabled,
            Event::GmcpMessage { .. } => EventType::GmcpMessage,
            Event::PythonReloaded {  } => EventType::PythonReloaded,
            Event::ResumeSession { .. } => EventType::ResumeSession,
        }
    }

    /// The session the event concerns; client-wide events concern none.
    pub open spec fn spec_session_id(&self) -> Option<u32> {
        match self {
            Event::NewSession { id, .. } => Some(*id),
            Event::Connection { id, .. } => Some(*id),
            Event::Prompt { id, .. } => Some(*id),
            Event::OptionEnabled { id, .. } => Some(*id),
            Event::OptionDisabled { id, .. } => Some(*id),
            Event::Subnegotiation { id, .. } => Some(*id),
            Event::Iac { id, .. } => Some(*id),
            Event::BufferResized { id, .. } => Some(*id),
            Event::InputLine { id, .. } => Some(*id),
            Event::Shortcut { id, .. } => Some(*id),
            Event::KeyPress { id, .. } => Some(*id),
            Event::GmcpEnabled { id, .. } => Some(*id),
            Event::GmcpDisabled { id, .. } => Some(*id),
            Event::GmcpMessage { id, .. } => Some(*id),
            Event::ResumeSession { id, .. } => Some(*id),
            Event::ConfigReloaded {  } => None,
            Event::PythonReloaded {  } => None,
        }
    }

    /// The session the event concerns, if any.
    pub fn session_id(&self) -> (r: Option<u32>)
        ensures
            r == self.spec_session_id(),
    {
        match self {
            Event::NewSession { id, .. } => Some(*id),
            Event::Connection { id, .. } => Some(*id),
            Event::Prompt { id, .. } => Some(*id),
            Event::OptionEnabled { id, .. } => Some(*id),
            Event::OptionDisabled { id, .. } => Some(*id),
            Event::Subnegotiation { id, .. } => Some(*id),
            Event::Iac { id, .. } => Some(*id),
            Event::BufferResized { id, .. } => Some(*id),
            Event::InputLine { id, .. } => Some(*id),
            Event::Shortcut { id, .. } => Some(*id),
            Event::KeyPress { id, .. } => Some(*id),
            Event::GmcpEnabled { id, .. } => Some(*id),
            Event::GmcpDisabled { id, .. } => Some(*id),
            Event::GmcpMessage { id, .. } => Some(*id),
            Event::ResumeSession { id, .. } => Some(*id),
            Event::ConfigReloaded {  } => None,
            Event::PythonReloaded {  } => None,
        }
    }
}

} // verus!
