//! Error types of the library.

use vstd::prelude::*;

use crate::text::{debug_quoted, owned, push_str};

verus! {

/// Configuration errors.
#[derive(Debug, Clone, PartialEq, Eq)]
pub enum ConfigError {
    /// The TOML content could not be deserialized; holds the parser's message.
    Toml(String),
    /// A character definition is invalid.
    InvalidCharacter(String),
    /// A MUD definition is invalid.
    InvalidMud(String),
    /// No MUD with the given name is configured.
    MissingMud(String),
}

impl ConfigError {
    /// The error's message, as the error's `Display` renders it.
    pub fn to_string(&self) -> (s: String)
        ensures
            s@ == match self {
                ConfigError::Toml(m) => "deserializing TOML content: "@ + m@,
                ConfigError::InvalidCharacter(m) => "invalid character in config: "@ + m@,
                ConfigError::InvalidMud(m) => "invalid MUD server: "@ + m@,
                ConfigError::MissingMud(m) => "no MUD named "@ + m@,
            },
    {
        let (prefix, m) = match self {
            ConfigError::Toml(m) => ("deserializing TOML content: ", m),
            ConfigError::InvalidCharacter(m) => ("invalid character in config: ", m),
            ConfigError::InvalidMud(m) => ("invalid MUD server: ", m),
            ConfigError::MissingMud(m) => ("no MUD named ", m),
        };
        let mut s = owned(prefix);
        push_str(&mut s, m.as_str());
        s
    }
}

/// GMCP errors.
#[derive(Debug, Clone, Copy, PartialEq, Eq, Structural)]
pub enum GmcpError {
    /// The message was not valid UTF-8.
    InvalidEncoding,
    /// The message was not a package name and a payload separated by a space.
    Malformed,
    /// The payload could not be serialized as JSON.
    InvalidJson,
    /// GMCP has not been negotiated.
    NotReady,
}

impl GmcpError {
    /// The error's message, as the error's `Display` renders it.
    pub fn to_string(&self) -> (s: String)
        ensures
            s@ == match self {
                GmcpError::InvalidEncoding => "message had invalid non-utf8 encoding"@,
                GmcpError::Malformed => "message was malformed"@,
                GmcpError::InvalidJson => "message payload was invalid JSON"@,
                GmcpError::NotReady => "GMCP is not ready"@,
            },
    {
        match self {
            GmcpError::InvalidEncoding => owned("message had invalid non-utf8 encoding"),
            GmcpError::Malformed => owned("message was malformed"),
            GmcpError::InvalidJson => owned("message payload was invalid JSON"),
            GmcpError::NotReady => owned("GMCP is not ready"),
        }
    }
}

/// Pattern errors.
#[derive(Debug, Clone, PartialEq, Eq)]
pub enum PatternError {
    /// The regular expression did not compile; holds the compiler's message.
    InvalidRegex(String),
    /// A capture group of a match took no part in it, so it has no text to report.
    UnmatchedGroup,
}

impl PatternError {
    /// The error's message, as the error's `Display` renders it.
    pub fn to_string(&self) -> (s: String)
        ensures
            s@ == match self {
                PatternError::InvalidRegex(m) => "invalid regex pattern: "@ + m@,
                PatternError::UnmatchedGroup => "a capture group took no part in the match"@,
            },
    {
        match self {
            PatternError::InvalidRegex(m) => {
                let mut s = owned("invalid regex pattern: ");
                push_str(&mut s, m.as_str());
                s
            },
            PatternError::UnmatchedGroup => owned("a capture group took no part in the match"),
        }
    }
}

/// Key binding errors.
#[derive(Debug, Clone, PartialEq, Eq)]
pub enum KeyBindingError {
    /// An input mode name that is not known.
    UnknownMode(String),
    /// A shortcut name that is not known.
    UnknownShortcut(String),
    /// A key description that can't be parsed.
    InvalidKeys(String),
}

impl KeyBindingError {
    /// The error's message, as the error's `Display` renders it (names are quoted).
    pub fn to_string(&self) -> (s: String)
        ensures
            s@ == match self {
                KeyBindingError::UnknownMode(m) => "unknown input mode: "@ + crate::text::debug_str(
                    m@,
                ),
                KeyBindingError::UnknownShortcut(m) => "unknown shortcut: "@
                    + crate::text::debug_str(m@),
                KeyBindingError::InvalidKeys(m) => "invalid keybinding keys: "@ + m@,
            },
    {
        match self {
            KeyBindingError::UnknownMode(m) => {
                let mut s = owned("unknown input mode: ");
                let q = debug_quoted(m.as_str());
                push_str(&mut s, q.as_str());
                s
            },
            KeyBindingError::UnknownShortcut(m) => {
                let mut s = owned("unknown shortcut: ");
                let q = debug_quoted(m.as_str());
                push_str(&mut s, q.as_str());
                s
            },
            KeyBindingError::InvalidKeys(m) => {
                let mut s = owned("invalid keybinding keys: ");
                push_str(&mut s, m.as_str());
                s
            },
        }
    }
}

/// Errors of the session registry.
#[derive(Debug, Clone, Copy, PartialEq, Eq, Structural)]
pub enum SessionError {
    /// No session has the given identifier.
    NoSuchSession(u32),
    /// Every session identifier has been handed out.
    IdsExhausted,
}

impl SessionError {
    /// The error's message, as the error's `Display` renders it.
    pub fn to_string(&self) -> (s: String)
        ensures
            s@ == match self {
                SessionError::NoSuchSession(id) => "session ID "@ + crate::text::decimal(
                    *id as nat,
                ) + " does not exist"@,
                SessionError::IdsExhausted => "unexpected internal error: session IDs exhausted"@,
            },
    {
        match self {
            SessionError::NoSuchSession(id) => {
                let mut s = owned("session ID ");
                crate::text::push_decimal(&mut s, *id as u64);
                push_str(&mut s, " does not exist");
                s
            },
            SessionError::IdsExhausted => owned("unexpected internal error: session IDs exhausted"),
        }
    }
}

} // verus!
