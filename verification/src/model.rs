//! The data model shared by sessions and the user interface: session and MUD descriptions,
//! key and mouse events, shortcuts, received and sent lines, and prompt modes.

use vstd::prelude::*;

use crate::error::KeyBindingError;
use crate::idmap::Identifiable;
use crate::keyboard;
use crate::keyboard::{digits_value, is_digit, joined_with_dashes, lemma_digits_value_grows, named_key};
use crate::input::EchoState;
use crate::net::telnet::command;
use crate::text::{
    ascii_lower_seq, blank, chars_of, debug_quoted, debug_str, decimal, digit_char,
    eq_ascii_lower, is_ascii_seq, is_blank, lowercase, lowercase_spec, owned, push_char, push_decimal,
    push_str, split_char, split_on, string_from_chars,
};
use vstd::utf8::{decode_utf8, encode_utf8, valid_utf8};

verus! {

/// The identity of a session: its identifier and the name of the MUD it is connected to.
#[derive(Clone, Debug, Default, Eq, PartialEq, Hash, Ord, PartialOrd)]
pub struct SessionInfo {
    pub id: u32,
    pub mud_name: String,
}

impl SessionInfo {
    /// The textual form, `Session(<id>, <mud name>)`.
    pub open spec fn spec_display(&self) -> Seq<char> {
        "Session("@ + decimal(self.id as nat) + ", "@ + self.mud_name@ + ")"@
    }

    /// The textual form of the session.
    pub fn to_string(&self) -> (s: String)
        ensures
            s@ == self.spec_display(),
    {
        let mut s = owned("Session(");
        push_decimal(&mut s, self.id as u64);
        push_str(&mut s, ", ");
        push_str(&mut s, self.mud_name.as_str());
        push_str(&mut s, ")");
        s
    }
}

impl Identifiable for SessionInfo {
    open spec fn spec_id(&self) -> u32 {
        self.id
    }

    fn id(&self) -> (r: u32) {
        self.id
    }
}

/// Possible TLS states for a MUD.
#[derive(Clone, Copy, Debug, Default, Eq, PartialEq, Hash, Ord, PartialOrd, Structural)]
pub enum Tls {
    #[default]
    Disabled,
    Enabled,
    InsecureSkipVerify,
}

/// MUD configuration.
///
/// Identified by a unique `name`. Holds what is needed to connect to a MUD server (`host`,
/// `port`, `tls`) alongside per-session settings such as whether to hold prompt lines at the
/// bottom of the screen, or to disable text wrapping.
#[derive(Clone, Debug, Default, Eq, PartialEq, Hash, Ord, PartialOrd)]
pub struct Mud {
    pub name: String,
    pub host: String,
    pub port: u16,
    /// Whether TLS is used for the connection.
    pub tls: Tls,
    /// Whether TCP keepalives are left unconfigured.
    pub no_tcp_keepalive: bool,
    /// Whether to hold the most recent prompt line at the bottom of the output buffer.
    pub hold_prompt: bool,
    /// Whether input sent to the MUD is echoed in the output buffer.
    pub echo_input: bool,
    /// Whether output lines are left unwrapped when wider than the output buffer.
    pub no_line_wrap: bool,
    /// Whether received GMCP messages are shown in the output buffer.
    pub debug_gmcp: bool,
    /// The percentage of the screen used by the split view of the output history.
    pub splitview_percentage: u16,
    /// The columns of margin on the sides of the split view.
    pub splitview_margin_horizontal: u16,
    /// The rows of margin above and below the split view.
    pub splitview_margin_vertical: u16,
    /// The separator between several commands sent in one line.
    pub command_separator: Option<String>,
}

impl Mud {
    /// The textual form, `<name> (<host>:<port>)`.
    pub open spec fn spec_display(&self) -> Seq<char> {
        self.name@ + " ("@ + self.host@ + ":"@ + decimal(self.port as nat) + ")"@
    }

    /// The textual form of the MUD.
    pub fn to_string(&self) -> (s: String)
        ensures
            s@ == self.spec_display(),
    {
        let mut s = owned(self.name.as_str());
        push_str(&mut s, " (");
        push_str(&mut s, self.host.as_str());
        push_str(&mut s, ":");
        push_decimal(&mut s, self.port as u64);
        push_str(&mut s, ")");
        s
    }

    /// The two definitions hold the same texts and values.
    pub open spec fn same_as(self, other: Mud) -> bool {
        &&& self.name@ == other.name@
        &&& self.host@ == other.host@
        &&& self.port == other.port
        &&& self.tls == other.tls
        &&& self.no_tcp_keepalive == other.no_tcp_keepalive
        &&& self.hold_prompt == other.hold_prompt
        &&& self.echo_input == other.echo_input
        &&& self.no_line_wrap == other.no_line_wrap
        &&& self.debug_gmcp == other.debug_gmcp
        &&& self.splitview_percentage == other.splitview_percentage
        &&& self.splitview_margin_horizontal == other.splitview_margin_horizontal
        &&& self.splitview_margin_vertical == other.splitview_margin_vertical
        &&& match (self.command_separator, other.command_separator) {
            (Some(a), Some(b)) => a@ == b@,
            (None, None) => true,
            _ => false,
        }
    }

    /// A copy of the definition.
    pub fn duplicate(&self) -> (m: Mud)
        ensures
            m.same_as(*self),
    {
        Mud {
            name: self.name.clone(),
            host: self.host.clone(),
            port: self.port,
            tls: self.tls,
            no_tcp_keepalive: self.no_tcp_keepalive,
            hold_prompt: self.hold_prompt,
            echo_input: self.echo_input,
            no_line_wrap: self.no_line_wrap,
            debug_gmcp: self.debug_gmcp,
            splitview_percentage: self.splitview_percentage,
            splitview_margin_horizontal: self.splitview_margin_horizontal,
            splitview_margin_vertical: self.splitview_margin_vertical,
            command_separator: match &self.command_separator {
                Some(s) => Some(s.clone()),
                None => None,
            },
        }
    }

    /// The value of `no_tcp_keepalive` when a configuration leaves it out.
    pub fn default_no_tcp_keepalive() -> (b: bool)
        ensures
            !b,
    {
        false
    }

    /// The value of `hold_prompt` when a configuration leaves it out.
    pub fn default_hold_prompt() -> (b: bool)
        ensures
            b,
    {
        true
    }

    /// The value of `echo_input` when a configuration leaves it out.
    pub fn default_echo_input() -> (b: bool)
        ensures
            b,
    {
        true
    }

    /// The value of `no_line_wrap` when a configuration leaves it out.
    pub fn default_no_line_wrap() -> (b: bool)
        ensures
            !b,
    {
        false
    }

    /// The value of `debug_gmcp` when a configuration leaves it out.
    pub fn default_debug_gmcp() -> (b: bool)
        ensures
            !b,
    {
        false
    }

    /// The value of `splitview_percentage` when a configuration leaves it out.
    pub fn default_splitview_percentage() -> (n: u16)
        ensures
            n == 70,
    {
        70
    }

    /// The value of `splitview_margin_horizontal` when a configuration leaves it out.
    pub fn default_splitview_margin_horizontal() -> (n: u16)
        ensures
            n == 6,
    {
        6
    }

    /// The value of `splitview_margin_vertical` when a configuration leaves it out.
    pub fn default_splitview_margin_vertical() -> (n: u16)
        ensures
            n == 0,
    {
        0
    }

    /// The value of `command_separator` when a configuration leaves it out: `;;`.
    pub fn default_command_separator() -> (s: Option<String>)
        ensures
            s matches Some(t) && t@ == ";;"@,
    {
        Some(owned(";;"))
    }
}

/// The input mode of the user interface.
#[derive(Debug, Default, Clone, Copy, PartialEq, Eq, Hash, Ord, PartialOrd, Structural)]
pub enum InputMode {
    MudList,
    #[default]
    MudSession,
}

/// The input mode named by a text, ignoring ASCII case.
pub open spec fn input_mode_named(s: Seq<char>) -> Option<InputMode> {
    let l = ascii_lower_seq(s);
    if l == "mudlist"@ {
        Some(InputMode::MudList)
    } else if l == "mudsession"@ {
        Some(InputMode::MudSession)
    } else {
        None
    }
}

impl InputMode {
    /// The name of the mode.
    pub open spec fn spec_display(self) -> Seq<char> {
        match self {
            InputMode::MudList => "MudList"@,
            InputMode::MudSession => "MudSession"@,
        }
    }

    /// The name of the mode.
    pub fn to_string(&self) -> (s: String)
        ensures
            s@ == self.spec_display(),
    {
        match self {
            InputMode::MudList => owned("MudList"),
            InputMode::MudSession => owned("MudSession"),
        }
    }

    /// The mode named by `s`, ignoring ASCII case.
    pub fn parse(s: &str) -> (m: Option<InputMode>)
        ensures
            m == input_mode_named(s@),
    {
        let v = chars_of(s);
        if eq_ascii_lower(&v, &chars_of("mudlist")) {
            Some(InputMode::MudList)
        } else if eq_ascii_lower(&v, &chars_of("mudsession")) {
            Some(InputMode::MudSession)
        } else {
            None
        }
    }
}

/// A set of key modifiers, as bit flags.
#[derive(Debug, Clone, Copy, PartialEq, Eq, Hash, PartialOrd, Ord, Structural)]
pub struct KeyModifiers(pub u8);

/// The modifier named by a text, ignoring ASCII case: `ctrl`, `shift` or `alt`.
pub open spec fn modifier_named(s: Seq<char>) -> Option<KeyModifiers> {
    let l = ascii_lower_seq(s);
    if l == "ctrl"@ {
        Some(KeyModifiers(keyboard::CONTROL_BITS))
    } else if l == "shift"@ {
        Some(KeyModifiers(keyboard::SHIFT_BITS))
    } else if l == "alt"@ {
        Some(KeyModifiers(keyboard::ALT_BITS))
    } else {
        None
    }
}

impl KeyModifiers {
    /// No modifiers.
    pub fn none() -> (m: KeyModifiers)
        ensures
            m.0 == 0,
    {
        KeyModifiers(0)
    }

    /// The shift key.
    pub fn shift() -> (m: KeyModifiers)
        ensures
            m.0 == keyboard::SHIFT_BITS,
    {
        KeyModifiers(keyboard::SHIFT_BITS)
    }

    /// The control key.
    pub fn control() -> (m: KeyModifiers)
        ensures
            m.0 == keyboard::CONTROL_BITS,
    {
        KeyModifiers(keyboard::CONTROL_BITS)
    }

    /// The alt key.
    pub fn alt() -> (m: KeyModifiers)
        ensures
            m.0 == keyboard::ALT_BITS,
    {
        KeyModifiers(keyboard::ALT_BITS)
    }

    /// The raw bits.
    pub fn bits(&self) -> (b: u8)
        ensures
            b == self.0,
    {
        self.0
    }

    /// Every bit of `other` is set in `self`.
    pub open spec fn spec_contains(self, other: KeyModifiers) -> bool {
        (self.0 & other.0) == other.0
    }

    /// Whether every modifier of `other` is present.
    pub fn contains(&self, other: KeyModifiers) -> (b: bool)
        ensures
            b == self.spec_contains(other),
    {
        (self.0 & other.0) == other.0
    }

    /// Add the modifiers of `other`.
    pub fn insert(&mut self, other: KeyModifiers)
        ensures
            final(self).0 == old(self).0 | other.0,
    {
        self.0 = self.0 | other.0;
    }

    /// The names of the modifiers that are present, in the order ctrl, shift, alt.
    pub open spec fn spec_modifiers(self) -> Seq<Seq<char>> {
        keyboard::KeyModifiers(self.0).spec_names()
    }

    /// The names of the modifiers that are present, in the order ctrl, shift, alt.
    pub fn modifiers(&self) -> (v: Vec<String>)
        ensures
            v@.len() == self.spec_modifiers().len(),
            forall|i: int| 0 <= i < v@.len() ==> #[trigger] v@[i]@ == self.spec_modifiers()[i],
    {
        keyboard::KeyModifiers(self.0).to_vec()
    }

    /// The modifier a name denotes, ignoring ASCII case: `ctrl`, `shift` or `alt`.
    pub fn from_string(s: &str) -> (m: Option<KeyModifiers>)
        ensures
            m == modifier_named(s@),
    {
        let v = chars_of(s);
        if eq_ascii_lower(&v, &chars_of("ctrl")) {
            Some(KeyModifiers::control())
        } else if eq_ascii_lower(&v, &chars_of("shift")) {
            Some(KeyModifiers::shift())
        } else if eq_ascii_lower(&v, &chars_of("alt")) {
            Some(KeyModifiers::alt())
        } else {
            None
        }
    }
}

/// A key, independent of modifiers.
#[derive(Debug, Clone, Copy, PartialEq, Eq, Hash, PartialOrd, Ord, Structural)]
pub enum KeyCode {
    Char(char),
    F(u8),
    Backspace,
    Enter,
    Left,
    Right,
    Up,
    Down,
    Home,
    End,
    PageUp,
    PageDown,
    Tab,
    Delete,
    Insert,
    Esc,
}

/// A text without its leading `+`, if it has one and more after it.
pub open spec fn without_plus(s: Seq<char>) -> Seq<char> {
    if s.len() > 1 && s[0] == '+' {
        s.skip(1)
    } else {
        s
    }
}

/// The value of one or more ASCII digits, if it is at most 255.
pub open spec fn digits_u8(d: Seq<char>) -> Option<u8> {
    if d.len() > 0 && (forall|i: int| 0 <= i < d.len() ==> is_digit(#[trigger] d[i]))
        && digits_value(d) <= 255 {
        Some(digits_value(d) as u8)
    } else {
        None
    }
}

/// The value of a text as `str::parse::<u8>` reads it: an optional `+`, then one or more ASCII
/// digits whose value is at most 255.
pub open spec fn u8_text_value(s: Seq<char>) -> Option<u8> {
    digits_u8(without_plus(s))
}

/// The key code a text denotes, or the message of the error: a text that starts with `f` is an
/// F-key `f1`..`f12` (the number read as `str::parse::<u8>` reads it); otherwise one of the
/// named keys, or a single ASCII character.
pub open spec fn parse_code_text(v: Seq<char>) -> Result<KeyCode, Seq<char>> {
    if v.len() > 0 && v[0] == 'f' {
        match u8_text_value(v.skip(1)) {
            Some(n) => if 1 <= n <= 12 {
                Ok(KeyCode::F(n))
            } else {
                Err("invalid F-key: "@ + v)
            },
            None => Err("invalid F-key: "@ + v),
        }
    } else if named_key(v) is Some {
        Ok(KeyCode::from_key(named_key(v).unwrap()))
    } else if v.len() == 1 && (v[0] as u32) < 128 {
        Ok(KeyCode::Char(v[0]))
    } else {
        Err("unknown key code: "@ + debug_str(v))
    }
}

impl KeyCode {
    /// The same key as a key code of the keyboard module.
    pub open spec fn as_key(self) -> keyboard::KeyCode {
        match self {
            KeyCode::Char(c) => keyboard::KeyCode::Char(c),
            KeyCode::F(n) => keyboard::KeyCode::F(n),
            KeyCode::Backspace => keyboard::KeyCode::Backspace,
            KeyCode::Enter => keyboard::KeyCode::Enter,
            KeyCode::Left => keyboard::KeyCode::Left,
            KeyCode::Right => keyboard::KeyCode::Right,
            KeyCode::Up => keyboard::KeyCode::Up,
            KeyCode::Down => keyboard::KeyCode::Down,
            KeyCode::Home => keyboard::KeyCode::Home,
            KeyCode::End => keyboard::KeyCode::End,
            KeyCode::PageUp => keyboard::KeyCode::PageUp,
            KeyCode::PageDown => keyboard::KeyCode::PageDown,
            KeyCode::Tab => keyboard::KeyCode::Tab,
            KeyCode::Delete => keyboard::KeyCode::Delete,
            KeyCode::Insert => keyboard::KeyCode::Insert,
            KeyCode::Esc => keyboard::KeyCode::Esc,
        }
    }

    /// The same key as a key code of this module.
    pub open spec fn from_key(k: keyboard::KeyCode) -> KeyCode {
        match k {
            keyboard::KeyCode::Char(c) => KeyCode::Char(c),
            keyboard::KeyCode::F(n) => KeyCode::F(n),
            keyboard::KeyCode::Backspace => KeyCode::Backspace,
            keyboard::KeyCode::Enter => KeyCode::Enter,
            keyboard::KeyCode::Left => KeyCode::Left,
            keyboard::KeyCode::Right => KeyCode::Right,
            keyboard::KeyCode::Up => KeyCode::Up,
            keyboard::KeyCode::Down => KeyCode::Down,
            keyboard::KeyCode::Home => KeyCode::Home,
            keyboard::KeyCode::End => KeyCode::End,
            keyboard::KeyCode::PageUp => KeyCode::PageUp,
            keyboard::KeyCode::PageDown => KeyCode::PageDown,
            keyboard::KeyCode::Tab => KeyCode::Tab,
            keyboard::KeyCode::Delete => KeyCode::Delete,
            keyboard::KeyCode::Insert => KeyCode::Insert,
            keyboard::KeyCode::Esc => KeyCode::Esc,
        }
    }

    /// The textual form of a key code: the character, `f<n>`, or the key's name.
    pub open spec fn spec_display(self) -> Seq<char> {
        self.as_key().spec_display()
    }

    /// The same key as a key code of the keyboard module.
    pub fn to_key(&self) -> (k: keyboard::KeyCode)
        ensures
            k == self.as_key(),
    {
        match *self {
            KeyCode::Char(c) => keyboard::KeyCode::Char(c),
            KeyCode::F(n) => keyboard::KeyCode::F(n),
            KeyCode::Backspace => keyboard::KeyCode::Backspace,
            KeyCode::Enter => keyboard::KeyCode::Enter,
            KeyCode::Left => keyboard::KeyCode::Left,
            KeyCode::Right => keyboard::KeyCode::Right,
            KeyCode::Up => keyboard::KeyCode::Up,
            KeyCode::Down => keyboard::KeyCode::Down,
            KeyCode::Home => keyboard::KeyCode::Home,
            KeyCode::End => keyboard::KeyCode::End,
            KeyCode::PageUp => keyboard::KeyCode::PageUp,
            KeyCode::PageDown => keyboard::KeyCode::PageDown,
            KeyCode::Tab => keyboard::KeyCode::Tab,
            KeyCode::Delete => keyboard::KeyCode::Delete,
            KeyCode::Insert => keyboard::KeyCode::Insert,
            KeyCode::Esc => keyboard::KeyCode::Esc,
        }
    }

    /// The same key as a key code of this module.
    pub fn of_key(k: keyboard::KeyCode) -> (r: KeyCode)
        ensures
            r == KeyCode::from_key(k),
    {
        match k {
            keyboard::KeyCode::Char(c) => KeyCode::Char(c),
            keyboard::KeyCode::F(n) => KeyCode::F(n),
            keyboard::KeyCode::Backspace => KeyCode::Backspace,
            keyboard::KeyCode::Enter => KeyCode::Enter,
            keyboard::KeyCode::Left => KeyCode::Left,
            keyboard::KeyCode::Right => KeyCode::Right,
            keyboard::KeyCode::Up => KeyCode::Up,
            keyboard::KeyCode::Down => KeyCode::Down,
            keyboard::KeyCode::Home => KeyCode::Home,
            keyboard::KeyCode::End => KeyCode::End,
            keyboard::KeyCode::PageUp => KeyCode::PageUp,
            keyboard::KeyCode::PageDown => KeyCode::PageDown,
            keyboard::KeyCode::Tab => KeyCode::Tab,
            keyboard::KeyCode::Delete => KeyCode::Delete,
            keyboard::KeyCode::Insert => KeyCode::Insert,
            keyboard::KeyCode::Esc => KeyCode::Esc,
        }
    }

    /// The textual form of the key code, e.g. `a`, `f5`, `enter`.
    pub fn to_string(&self) -> (s: String)
        ensures
            s@ == self.spec_display(),
    {
        self.to_key().to_string()
    }

    /// Parse a key code (see [`parse_code_text`]); the error is the message.
    pub fn parse(value: &str) -> (res: Result<KeyCode, String>)
        ensures
            match parse_code_text(value@) {
                Ok(code) => res == Ok::<KeyCode, String>(code),
                Err(msg) => res matches Err(m) && m@ == msg,
            },
    {
        let v = chars_of(value);
        if v.len() > 0 && v[0] == 'f' {
            let n = u8_value_from(&v, 1);
            match n {
                Some(n) => {
                    if 1 <= n && n <= 12 {
                        return Ok(KeyCode::F(n));
                    }
                },
                None => {},
            }
            let mut msg = owned("invalid F-key: ");
            push_str(&mut msg, value);
            return Err(msg);
        }
        match crate::keyboard::named_key_from_chars(&v) {
            Some(k) => Ok(KeyCode::of_key(k)),
            None => {
                if v.len() == 1 && (v[0] as u32) < 128 {
                    Ok(KeyCode::Char(v[0]))
                } else {
                    let mut msg = owned("unknown key code: ");
                    let q = debug_quoted(value);
                    push_str(&mut msg, q.as_str());
                    Err(msg)
                }
            },
        }
    }
}

/// The value of the characters of `v` from `start` on, read as `str::parse::<u8>` reads them.
fn u8_value_from(v: &Vec<char>, start: usize) -> (r: Option<u8>)
    requires
        start <= v@.len(),
    ensures
        r == u8_text_value(v@.skip(start as int)),
{
    let ghost s = v@.skip(start as int);
    let mut first: usize = start;
    if v.len() - start > 1 && v[start] == '+' {
        first = start + 1;
    }
    let ghost digits = v@.skip(first as int);
    proof {
        if s.len() > 1 && s[0] == '+' {
            assert(s.skip(1) =~= digits);
        } else {
            assert(s =~= digits);
        }
        assert(without_plus(s) == digits);
    }
    if first == v.len() {
        proof {
            assert(digits.len() == 0);
        }
        return None;
    }
    let mut i: usize = first;
    while i < v.len()
        invariant
            first <= i <= v@.len(),
            digits == v@.skip(first as int),
            without_plus(v@.skip(start as int)) == digits,
            forall|j: int| first <= j < i ==> is_digit(#[trigger] v@[j]),
        decreases v@.len() - i,
    {
        if !('0' <= v[i] && v[i] <= '9') {
            proof {
                assert(!is_digit(digits[i - first]));
            }
            return None;
        }
        i += 1;
    }
    assert forall|j: int| 0 <= j < digits.len() implies is_digit(#[trigger] digits[j]) by {
        assert(is_digit(v@[j + first]));
    }
    let mut acc: u64 = 0;
    let mut k: usize = first;
    while k < v.len()
        invariant
            first <= k <= v@.len(),
            digits == v@.skip(first as int),
            without_plus(v@.skip(start as int)) == digits,
            forall|j: int| 0 <= j < digits.len() ==> is_digit(#[trigger] digits[j]),
            acc as nat == digits_value(digits.take(k - first)),
            acc <= 255,
        decreases v@.len() - k,
    {
        proof {
            assert(digits.take(k - first + 1).drop_last() =~= digits.take(k - first));
            assert(digits[k - first] == v@[k as int]);
        }
        let d: u64 = (v[k] as u32 - 48) as u64;
        acc = acc * 10 + d;
        proof {
            let t = digits.take(k - first + 1);
            assert(t.last() == v@[k as int]);
            assert(acc as nat == digits_value(t));
        }
        if acc > 255 {
            proof {
                lemma_digits_value_grows(digits, k - first + 1);
            }
            return None;
        }
        k += 1;
    }
    proof {
        assert(digits.take(k - first) =~= digits);
    }
    Some(acc as u8)
}

/// A key press: a key code and the modifiers held with it.
#[derive(Debug, Clone, Copy, PartialEq, Eq, Hash, PartialOrd, Ord, Structural)]
pub struct KeyEvent {
    pub code: KeyCode,
    pub modifiers: KeyModifiers,
}

/// Walk the dash separated parts of a key description: leading parts that name modifiers are
/// accumulated; the first part that does not ends the walk and is returned.
pub open spec fn scan_parts(parts: Seq<Seq<char>>, mods: u8) -> (u8, Option<Seq<char>>)
    decreases parts.len(),
{
    if parts.len() == 0 {
        (mods, None)
    } else {
        match modifier_named(parts[0]) {
            Some(m) => scan_parts(parts.drop_first(), mods | m.0),
            None => (mods, Some(parts[0])),
        }
    }
}

/// The text the key code of a key description is parsed from: the lowercased first part that
/// is not a modifier name, or nothing.
pub open spec fn key_part(s: Seq<char>) -> Seq<char> {
    match scan_parts(split_char(s, '-'), 0).1 {
        Some(p) => lowercase_spec(p),
        None => seq![],
    }
}

/// The modifiers of a key description.
pub open spec fn key_modifiers_of(s: Seq<char>) -> KeyModifiers {
    KeyModifiers(scan_parts(split_char(s, '-'), 0).0)
}

impl KeyEvent {
    /// The textual form of the key code.
    pub fn get_code(&self) -> (s: String)
        ensures
            s@ == self.code.spec_display(),
    {
        self.code.to_string()
    }

    /// The names of the modifiers held, in the order ctrl, shift, alt.
    pub fn get_modifiers(&self) -> (v: Vec<String>)
        ensures
            v@.len() == self.modifiers.spec_modifiers().len(),
            forall|i: int| 0 <= i < v@.len() ==> #[trigger] v@[i]@ == self.modifiers.spec_modifiers()[i],
    {
        self.modifiers.modifiers()
    }

    /// A key event for a code and modifiers.
    pub fn new(code: KeyCode, modifiers: KeyModifiers) -> (e: KeyEvent)
        ensures
            e.code == code,
            e.modifiers == modifiers,
    {
        KeyEvent { code, modifiers }
    }

    /// The textual form: each modifier followed by `-`, then the key code.
    pub open spec fn spec_display(self) -> Seq<char> {
        joined_with_dashes(self.modifiers.spec_modifiers()) + self.code.spec_display()
    }

    /// The textual form of the key event, e.g. `ctrl-shift-enter`.
    pub fn to_string(&self) -> (s: String)
        ensures
            s@ == self.spec_display(),
    {
        let mut s = keyboard::KeyModifiers(self.modifiers.0).to_string();
        let c = self.code.to_string();
        push_str(&mut s, c.as_str());
        s
    }

    /// Parse a key description such as `Ctrl-Shift-a`.
    ///
    /// The description is split on `-`. Leading parts that name modifiers (in any ASCII case)
    /// are collected; the first other part is lowercased and parsed as the key code. A
    /// description with no such part has an empty key code, which is an error.
    pub fn parse(s: &str) -> (res: Result<KeyEvent, KeyBindingError>)
        ensures
            match parse_code_text(key_part(s@)) {
                Ok(code) => res == Ok::<KeyEvent, KeyBindingError>(
                    KeyEvent { code, modifiers: key_modifiers_of(s@) },
                ),
                Err(msg) => res matches Err(KeyBindingError::InvalidKeys(m)) && m@ == msg,
            },
    {
        let chars = chars_of(s);
        let parts = split_on(&chars, '-');
        let ghost all = split_char(s@, '-');
        let mut modifiers = KeyModifiers::none();
        let mut final_part: Option<String> = None;
        let ghost mut found: Seq<char> = seq![];
        proof {
            assert(all.skip(0) =~= all);
        }
        let mut i: usize = 0;
        while i < parts.len()
            invariant_except_break
                final_part is None,
            invariant
                i <= parts@.len(),
                parts@.len() == all.len(),
                forall|j: int| 0 <= j < parts@.len() ==> #[trigger] parts@[j]@ == all[j],
                scan_parts(all, 0) == scan_parts(all.skip(i as int), modifiers.0),
            ensures
                final_part is None ==> scan_parts(all, 0) == (modifiers.0, None::<Seq<char>>),
                final_part matches Some(p) ==> scan_parts(all, 0) == (modifiers.0, Some(found))
                    && p@ == lowercase_spec(found),
            decreases parts@.len() - i,
        {
            proof {
                assert(all.skip(i as int).drop_first() =~= all.skip(i + 1));
                assert(all.skip(i as int)[0] == parts@[i as int]@);
            }
            let part = string_from_chars(parts[i].as_slice());
            match KeyModifiers::from_string(part.as_str()) {
                Some(m) => {
                    modifiers.insert(m);
                },
                None => {
                    let lowered = lowercase(&parts[i]);
                    final_part = Some(string_from_chars(lowered.as_slice()));
                    proof {
                        found = parts@[i as int]@;
                    }
                    break ;
                },
            }
            i += 1;
        }
        let code_text = match final_part {
            Some(p) => p,
            None => String::new(),
        };
        match KeyCode::parse(code_text.as_str()) {
            Ok(code) => Ok(KeyEvent::new(code, modifiers)),
            Err(msg) => Err(KeyBindingError::InvalidKeys(msg)),
        }
    }
}

/// The key events whose textual form parses back to them: no modifier bits besides ctrl,
/// shift and alt, an F-key number from 1 to 12, and a character key that is ASCII, not an
/// uppercase letter (parsing lowercases the key), not `-` (the separator) and not `f` (which
/// parsing reads as the start of an F-key).
pub open spec fn text_round_trips(e: KeyEvent) -> bool {
    &&& e.modifiers.0 < 8
    &&& match e.code {
        KeyCode::Char(c) => (c as u32) < 128 && !('A' <= c && c <= 'Z') && c != '-' && c != 'f',
        KeyCode::F(n) => 1 <= n <= 12,
        _ => true,
    }
}

proof fn lemma_scan_step(name: Seq<char>, rest: Seq<Seq<char>>, m: u8)
    requires
        modifier_named(name) is Some,
    ensures
        scan_parts(seq![name] + rest, m) == scan_parts(rest, m | modifier_named(name).unwrap().0),
{
    let p = seq![name] + rest;
    assert(p[0] == name);
    assert(p.drop_first() =~= rest);
}

proof fn lemma_scan_last(t: Seq<char>, m: u8)
    requires
        modifier_named(t) is None,
    ensures
        scan_parts(seq![t], m) == (m, Some(t)),
{
    let p = seq![t];
    assert(p[0] == t);
    assert(p.drop_first() =~= Seq::<Seq<char>>::empty());
}

/// Parsing the textual form of a key event gives the key event back, for every key event that
/// can be written unambiguously (see [`text_round_trips`]).
pub proof fn lemma_key_event_text_roundtrip(e: KeyEvent)
    requires
        text_round_trips(e),
    ensures
        parse_code_text(key_part(e.spec_display())) == Ok::<KeyCode, Seq<char>>(e.code),
        key_modifiers_of(e.spec_display()) == e.modifiers,
{
    reveal_strlit("ctrl");
    reveal_strlit("shift");
    reveal_strlit("alt");
    reveal_strlit("backspace");
    reveal_strlit("enter");
    reveal_strlit("left");
    reveal_strlit("right");
    reveal_strlit("up");
    reveal_strlit("down");
    reveal_strlit("home");
    reveal_strlit("end");
    reveal_strlit("pageup");
    reveal_strlit("pagedown");
    reveal_strlit("tab");
    reveal_strlit("delete");
    reveal_strlit("insert");
    reveal_strlit("esc");
    let names = e.modifiers.spec_modifiers();
    let t = e.code.spec_display();
    let k = e.code.as_key();
    keyboard::lemma_key_code_roundtrip(k);
    if let KeyCode::F(n) = e.code {
        keyboard::lemma_decimal_digits(n as nat);
    }
    assert(!t.contains('-')) by {
        if t.contains('-') {
            let i = choose|i: int| 0 <= i < t.len() && t[i] == '-';
            if let KeyCode::F(n) = e.code {
                if i > 0 {
                    assert(t[i] == decimal(n as nat)[i - 1]);
                }
            }
        }
    }
    assert forall|i: int| 0 <= i < names.len() implies !(#[trigger] names[i]).contains('-') by {
        let n = names[i];
        if n.contains('-') {
            let j = choose|j: int| 0 <= j < n.len() && n[j] == '-';
        }
    }
    keyboard::lemma_split_display(names, t);
    let parts = names + seq![t];
    assert(e.spec_display() == joined_with_dashes(names) + t);
    // The key code part is not a modifier name.
    assert(modifier_named(t) is None) by {
        let l = ascii_lower_seq(t);
        assert(l.len() == t.len());
        if let KeyCode::Char(c) = e.code {
            assert(l.len() == 1);
        } else if let KeyCode::F(n) = e.code {
            assert(l[0] == 'f');
        } else {
            assert(l =~= t);
        }
    }
    // The key code part is unchanged by lowercasing.
    assert(is_ascii_seq(t) && ascii_lower_seq(t) == t) by {
        if let KeyCode::F(n) = e.code {
            assert forall|i: int| 0 <= i < t.len() implies (t[i] as u32) < 128 by {
                if i > 0 {
                    assert(t[i] == decimal(n as nat)[i - 1]);
                    assert(is_digit(decimal(n as nat)[i - 1]));
                }
            }
            assert forall|i: int| 0 <= i < t.len() implies crate::text::ascii_lower(t[i])
                == t[i] by {
                if i > 0 {
                    assert(t[i] == decimal(n as nat)[i - 1]);
                    assert(is_digit(decimal(n as nat)[i - 1]));
                }
            }
        }
        assert(ascii_lower_seq(t) =~= t);
    }
    let m = e.modifiers.0;
    let c = m & keyboard::CONTROL_BITS == keyboard::CONTROL_BITS;
    let s = m & keyboard::SHIFT_BITS == keyboard::SHIFT_BITS;
    let a = m & keyboard::ALT_BITS == keyboard::ALT_BITS;
    assert(ascii_lower_seq("ctrl"@) =~= "ctrl"@);
    assert(ascii_lower_seq("shift"@) =~= "shift"@);
    assert(ascii_lower_seq("alt"@) =~= "alt"@);
    let m0: u8 = if c { 2u8 } else { 0u8 };
    let m1: u8 = m0 | (if s { 1u8 } else { 0u8 });
    let m2: u8 = m1 | (if a { 4u8 } else { 0u8 });
    assert(modifier_named("ctrl"@) == Some(KeyModifiers(keyboard::CONTROL_BITS)));
    assert(modifier_named("shift"@) == Some(KeyModifiers(keyboard::SHIFT_BITS))) by {
        assert("shift"@ != "ctrl"@);
    }
    assert(modifier_named("alt"@) == Some(KeyModifiers(keyboard::ALT_BITS))) by {
        assert("alt"@ != "ctrl"@);
        assert("alt"@ != "shift"@);
    }
    let names_c: Seq<Seq<char>> = if c { seq!["ctrl"@] } else { seq![] };
    let names_s: Seq<Seq<char>> = if s { seq!["shift"@] } else { seq![] };
    let names_a: Seq<Seq<char>> = if a { seq!["alt"@] } else { seq![] };
    assert(names == names_c + names_s + names_a);
    lemma_scan_last(t, m2);
    assert(scan_parts(names_a + seq![t], m1) == (m2, Some(t))) by {
        if a {
            assert(names_a + seq![t] =~= seq!["alt"@] + seq![t]);
            lemma_scan_step("alt"@, seq![t], m1);
        } else {
            assert(names_a + seq![t] =~= seq![t]);
            assert(m1 | 0u8 == m1) by (bit_vector);
        }
    }
    assert(scan_parts(names_s + names_a + seq![t], m0) == (m2, Some(t))) by {
        if s {
            assert(names_s + names_a + seq![t] =~= seq!["shift"@] + (names_a + seq![t]));
            lemma_scan_step("shift"@, names_a + seq![t], m0);
        } else {
            assert(names_s + names_a + seq![t] =~= names_a + seq![t]);
            assert(m0 | 0u8 == m0) by (bit_vector);
        }
    }
    assert(scan_parts(parts, 0) == (m2, Some(t))) by {
        if c {
            assert(parts =~= seq!["ctrl"@] + (names_s + names_a + seq![t]));
            lemma_scan_step("ctrl"@, names_s + names_a + seq![t], 0);
            assert(0u8 | 2u8 == 2u8) by (bit_vector);
        } else {
            assert(parts =~= names_s + names_a + seq![t]);
        }
    }
    assert(((if c { 2u8 } else { 0u8 }) | (if s { 1u8 } else { 0u8 }) | (if a { 4u8 } else {
        0u8
    })) == m) by (bit_vector)
        requires
            m < 8,
            c == (m & 2 == 2),
            s == (m & 1 == 1),
            a == (m & 4 == 4),
    ;
    assert(key_part(e.spec_display()) == t);
    // The key code part parses to the key code.
    match e.code {
        KeyCode::F(n) => {
            assert(t.skip(1) =~= decimal(n as nat));
            assert(without_plus(decimal(n as nat)) == decimal(n as nat));
        },
        KeyCode::Char(ch) => {
            assert(t =~= seq![ch]);
        },
        _ => {
            assert(t[0] != 'f');
        },
    }
}

/// Each input mode's name names that mode.
pub proof fn lemma_input_mode_name_roundtrip(m: InputMode)
    ensures
        input_mode_named(m.spec_display()) == Some(m),
{
    reveal_strlit("MudList");
    reveal_strlit("MudSession");
    reveal_strlit("mudlist");
    reveal_strlit("mudsession");
    assert(ascii_lower_seq("MudList"@) =~= "mudlist"@);
    assert(ascii_lower_seq("MudSession"@) =~= "mudsession"@);
}

/// Each shortcut's name names that shortcut.
pub proof fn lemma_shortcut_name_roundtrip(s: Shortcut)
    ensures
        Shortcut::spec_named(s.spec_display()) == Some(s),
{
    reveal_strlit("Quit");
    reveal_strlit("quit");
    reveal_strlit("TabNext");
    reveal_strlit("tabnext");
    reveal_strlit("TabPrev");
    reveal_strlit("tabprev");
    reveal_strlit("TabClose");
    reveal_strlit("tabclose");
    reveal_strlit("TabSwapLeft");
    reveal_strlit("tabswapleft");
    reveal_strlit("TabSwapRight");
    reveal_strlit("tabswapright");
    reveal_strlit("MudListNext");
    reveal_strlit("mudlistnext");
    reveal_strlit("MudListPrev");
    reveal_strlit("mudlistprev");
    reveal_strlit("MudListConnect");
    reveal_strlit("mudlistconnect");
    reveal_strlit("ToggleLineWrap");
    reveal_strlit("togglelinewrap");
    reveal_strlit("ToggleInputEcho");
    reveal_strlit("toggleinputecho");
    reveal_strlit("ToggleMouseMode");
    reveal_strlit("togglemousemode");
    reveal_strlit("HistoryNext");
    reveal_strlit("historynext");
    reveal_strlit("HistoryPrevious");
    reveal_strlit("historyprevious");
    reveal_strlit("ScrollUp");
    reveal_strlit("scrollup");
    reveal_strlit("ScrollDown");
    reveal_strlit("scrolldown");
    reveal_strlit("ScrollTop");
    reveal_strlit("scrolltop");
    reveal_strlit("ScrollBottom");
    reveal_strlit("scrollbottom");
    match s {
        Shortcut::Quit => {
            assert(ascii_lower_seq("Quit"@) =~= "quit"@);
        },
        Shortcut::TabNext => {
            assert(ascii_lower_seq("TabNext"@) =~= "tabnext"@);
            assert("tabnext"@ != "quit"@);
        },
        Shortcut::TabPrev => {
            assert(ascii_lower_seq("TabPrev"@) =~= "tabprev"@);
            assert("tabprev"@ != "quit"@);
            assert("tabprev"@ != "tabnext"@) by {
                assert("tabprev"@[3] != "tabnext"@[3]);
            }
        },
        Shortcut::TabClose => {
            assert(ascii_lower_seq("TabClose"@) =~= "tabclose"@);
            assert("tabclose"@ != "quit"@);
            assert("tabclose"@ != "tabnext"@);
            assert("tabclose"@ != "tabprev"@);
        },
        Shortcut::TabSwapLeft => {
            assert(ascii_lower_seq("TabSwapLeft"@) =~= "tabswapleft"@);
            assert("tabswapleft"@ != "quit"@);
            assert("tabswapleft"@ != "tabnext"@);
            assert("tabswapleft"@ != "tabprev"@);
            assert("tabswapleft"@ != "tabclose"@);
        },
        Shortcut::TabSwapRight => {
            assert(ascii_lower_seq("TabSwapRight"@) =~= "tabswapright"@);
            assert("tabswapright"@ != "quit"@);
            assert("tabswapright"@ != "tabnext"@);
            assert("tabswapright"@ != "tabprev"@);
            assert("tabswapright"@ != "tabclose"@);
            assert("tabswapright"@ != "tabswapleft"@);
        },
        Shortcut::MudListNext => {
            assert(ascii_lower_seq("MudListNext"@) =~= "mudlistnext"@);
            assert("mudlistnext"@ != "quit"@);
            assert("mudlistnext"@ != "tabnext"@);
            assert("mudlistnext"@ != "tabprev"@);
            assert("mudlistnext"@ != "tabclose"@);
            assert("mudlistnext"@ != "tabswapleft"@) by {
                assert("mudlistnext"@[0] != "tabswapleft"@[0]);
            }
            assert("mudlistnext"@ != "tabswapright"@);
        },
        Shortcut::MudListPrev => {
            assert(ascii_lower_seq("MudListPrev"@) =~= "mudlistprev"@);
            assert("mudlistprev"@ != "quit"@);
            assert("mudlistprev"@ != "tabnext"@);
            assert("mudlistprev"@ != "tabprev"@);
            assert("mudlistprev"@ != "tabclose"@);
            assert("mudlistprev"@ != "tabswapleft"@) by {
                assert("mudlistprev"@[0] != "tabswapleft"@[0]);
            }
            assert("mudlistprev"@ != "tabswapright"@);
            assert("mudlistprev"@ != "mudlistnext"@) by {
                assert("mudlistprev"@[7] != "mudlistnext"@[7]);
            }
        },
        Shortcut::MudListConnect => {
            assert(ascii_lower_seq("MudListConnect"@) =~= "mudlistconnect"@);
            assert("mudlistconnect"@ != "quit"@);
            assert("mudlistconnect"@ != "tabnext"@);
            assert("mudlistconnect"@ != "tabprev"@);
            assert("mudlistconnect"@ != "tabclose"@);
            assert("mudlistconnect"@ != "tabswapleft"@);
            assert("mudlistconnect"@ != "tabswapright"@);
            assert("mudlistconnect"@ != "mudlistnext"@);
            assert("mudlistconnect"@ != "mudlistprev"@);
        },
        Shortcut::ToggleLineWrap => {
            assert(ascii_lower_seq("ToggleLineWrap"@) =~= "togglelinewrap"@);
            assert("togglelinewrap"@ != "quit"@);
            assert("togglelinewrap"@ != "tabnext"@);
            assert("togglelinewrap"@ != "tabprev"@);
            assert("togglelinewrap"@ != "tabclose"@);
            assert("togglelinewrap"@ != "tabswapleft"@);
            assert("togglelinewrap"@ != "tabswapright"@);
            assert("togglelinewrap"@ != "mudlistnext"@);
            assert("togglelinewrap"@ != "mudlistprev"@);
            assert("togglelinewrap"@ != "mudlistconnect"@) by {
                assert("togglelinewrap"@[0] != "mudlistconnect"@[0]);
            }
        },
        Shortcut::ToggleInputEcho => {
            assert(ascii_lower_seq("ToggleInputEcho"@) =~= "toggleinputecho"@);
            assert("toggleinputecho"@ != "quit"@);
            assert("toggleinputecho"@ != "tabnext"@);
            assert("toggleinputecho"@ != "tabprev"@);
            assert("toggleinputecho"@ != "tabclose"@);
            assert("toggleinputecho"@ != "tabswapleft"@);
            assert("toggleinputecho"@ != "tabswapright"@);
            assert("toggleinputecho"@ != "mudlistnext"@);
            assert("toggleinputecho"@ != "mudlistprev"@);
            assert("toggleinputecho"@ != "mudlistconnect"@);
            assert("toggleinputecho"@ != "togglelinewrap"@);
        },
        Shortcut::ToggleMouseMode => {
            assert(ascii_lower_seq("ToggleMouseMode"@) =~= "togglemousemode"@);
            assert("togglemousemode"@ != "quit"@);
            assert("togglemousemode"@ != "tabnext"@);
            assert("togglemousemode"@ != "tabprev"@);
            assert("togglemousemode"@ != "tabclose"@);
            assert("togglemousemode"@ != "tabswapleft"@);
            assert("togglemousemode"@ != "tabswapright"@);
            assert("togglemousemode"@ != "mudlistnext"@);
            assert("togglemousemode"@ != "mudlistprev"@);
            assert("togglemousemode"@ != "mudlistconnect"@);
            assert("togglemousemode"@ != "togglelinewrap"@);
            assert("togglemousemode"@ != "toggleinputecho"@) by {
                assert("togglemousemode"@[6] != "toggleinputecho"@[6]);
            }
        },
        Shortcut::HistoryNext => {
            assert(ascii_lower_seq("HistoryNext"@) =~= "historynext"@);
            assert("historynext"@ != "quit"@);
            assert("historynext"@ != "tabnext"@);
            assert("historynext"@ != "tabprev"@);
            assert("historynext"@ != "tabclose"@);
            assert("historynext"@ != "tabswapleft"@) by {
                assert("historynext"@[0] != "tabswapleft"@[0]);
            }
            assert("historynext"@ != "tabswapright"@);
            assert("historynext"@ != "mudlistnext"@) by {
                assert("historynext"@[0] != "mudlistnext"@[0]);
            }
            assert("historynext"@ != "mudlistprev"@) by {
                assert("historynext"@[0] != "mudlistprev"@[0]);
            }
            assert("historynext"@ != "mudlistconnect"@);
            assert("historynext"@ != "togglelinewrap"@);
            assert("historynext"@ != "toggleinputecho"@);
            assert("historynext"@ != "togglemousemode"@);
        },
        Shortcut::HistoryPrevious => {
            assert(ascii_lower_seq("HistoryPrevious"@) =~= "historyprevious"@);
            assert("historyprevious"@ != "quit"@);
            assert("historyprevious"@ != "tabnext"@);
            assert("historyprevious"@ != "tabprev"@);
            assert("historyprevious"@ != "tabclose"@);
            assert("historyprevious"@ != "tabswapleft"@);
            assert("historyprevious"@ != "tabswapright"@);
            assert("historyprevious"@ != "mudlistnext"@);
            assert("historyprevious"@ != "mudlistprev"@);
            assert("historyprevious"@ != "mudlistconnect"@);
            assert("historyprevious"@ != "togglelinewrap"@);
            assert("historyprevious"@ != "toggleinputecho"@) by {
                assert("historyprevious"@[0] != "toggleinputecho"@[0]);
            }
            assert("historyprevious"@ != "togglemousemode"@) by {
                assert("historyprevious"@[0] != "togglemousemode"@[0]);
            }
            assert("historyprevious"@ != "historynext"@);
        },
        Shortcut::ScrollUp => {
            assert(ascii_lower_seq("ScrollUp"@) =~= "scrollup"@);
            assert("scrollup"@ != "quit"@);
            assert("scrollup"@ != "tabnext"@);
            assert("scrollup"@ != "tabprev"@);
            assert("scrollup"@ != "tabclose"@) by {
                assert("scrollup"@[0] != "tabclose"@[0]);
            }
            assert("scrollup"@ != "tabswapleft"@);
            assert("scrollup"@ != "tabswapright"@);
            assert("scrollup"@ != "mudlistnext"@);
            assert("scrollup"@ != "mudlistprev"@);
            assert("scrollup"@ != "mudlistconnect"@);
            assert("scrollup"@ != "togglelinewrap"@);
            assert("scrollup"@ != "toggleinputecho"@);
            assert("scrollup"@ != "togglemousemode"@);
            assert("scrollup"@ != "historynext"@);
            assert("scrollup"@ != "historyprevious"@);
        },
        Shortcut::ScrollDown => {
            assert(ascii_lower_seq("ScrollDown"@) =~= "scrolldown"@);
            assert("scrolldown"@ != "quit"@);
            assert("scrolldown"@ != "tabnext"@);
            assert("scrolldown"@ != "tabprev"@);
            assert("scrolldown"@ != "tabclose"@);
            assert("scrolldown"@ != "tabswapleft"@);
            assert("scrolldown"@ != "tabswapright"@);
            assert("scrolldown"@ != "mudlistnext"@);
            assert("scrolldown"@ != "mudlistprev"@);
            assert("scrolldown"@ != "mudlistconnect"@);
            assert("scrolldown"@ != "togglelinewrap"@);
            assert("scrolldown"@ != "toggleinputecho"@);
            assert("scrolldown"@ != "togglemousemode"@);
            assert("scrolldown"@ != "historynext"@);
            assert("scrolldown"@ != "historyprevious"@);
            assert("scrolldown"@ != "scrollup"@);
        },
        Shortcut::ScrollTop => {
            assert(ascii_lower_seq("ScrollTop"@) =~= "scrolltop"@);
            assert("scrolltop"@ != "quit"@);
            assert("scrolltop"@ != "tabnext"@);
            assert("scrolltop"@ != "tabprev"@);
            assert("scrolltop"@ != "tabclose"@);
            assert("scrolltop"@ != "tabswapleft"@);
            assert("scrolltop"@ != "tabswapright"@);
            assert("scrolltop"@ != "mudlistnext"@);
            assert("scrolltop"@ != "mudlistprev"@);
            assert("scrolltop"@ != "mudlistconnect"@);
            assert("scrolltop"@ != "togglelinewrap"@);
            assert("scrolltop"@ != "toggleinputecho"@);
            assert("scrolltop"@ != "togglemousemode"@);
            assert("scrolltop"@ != "historynext"@);
            assert("scrolltop"@ != "historyprevious"@);
            assert("scrolltop"@ != "scrollup"@);
            assert("scrolltop"@ != "scrolldown"@);
        },
        Shortcut::ScrollBottom => {
            assert(ascii_lower_seq("ScrollBottom"@) =~= "scrollbottom"@);
            assert("scrollbottom"@ != "quit"@);
            assert("scrollbottom"@ != "tabnext"@);
            assert("scrollbottom"@ != "tabprev"@);
            assert("scrollbottom"@ != "tabclose"@);
            assert("scrollbottom"@ != "tabswapleft"@);
            assert("scrollbottom"@ != "tabswapright"@) by {
                assert("scrollbottom"@[0] != "tabswapright"@[0]);
            }
            assert("scrollbottom"@ != "mudlistnext"@);
            assert("scrollbottom"@ != "mudlistprev"@);
            assert("scrollbottom"@ != "mudlistconnect"@);
            assert("scrollbottom"@ != "togglelinewrap"@);
            assert("scrollbottom"@ != "toggleinputecho"@);
            assert("scrollbottom"@ != "togglemousemode"@);
            assert("scrollbottom"@ != "historynext"@);
            assert("scrollbottom"@ != "historyprevious"@);
            assert("scrollbottom"@ != "scrollup"@);
            assert("scrollbottom"@ != "scrolldown"@);
            assert("scrollbottom"@ != "scrolltop"@);
        },
    }
}


impl TryFrom<&str> for KeyCode {
    type Error = String;

    fn try_from(value: &str) -> Result<Self, Self::Error> {
        KeyCode::parse(value)
    }
}

impl vstd::std_specs::convert::TryFromSpecImpl<&str> for KeyCode {
    open spec fn obeys_try_from_spec() -> bool {
        false
    }

    open spec fn try_from_spec(v: &str) -> Result<KeyCode, String> {
        arbitrary()
    }
}

impl TryFrom<&str> for KeyEvent {
    type Error = KeyBindingError;

    fn try_from(value: &str) -> Result<Self, Self::Error> {
        KeyEvent::parse(value)
    }
}

impl vstd::std_specs::convert::TryFromSpecImpl<&str> for KeyEvent {
    open spec fn obeys_try_from_spec() -> bool {
        false
    }

    open spec fn try_from_spec(v: &str) -> Result<KeyEvent, KeyBindingError> {
        arbitrary()
    }
}

/// The kinds of mouse events the user interface reports.
#[derive(Debug, Clone, Copy, PartialEq, Eq, Structural)]
pub enum MouseEventKind {
    LeftButtonDown,
    RightButtonDown,
    MiddleButtonDown,
    Moved,
    ScrollDown,
    ScrollUp,
    ScrollLeft,
    ScrollRight,
}

/// The mouse event kind named by a text, ignoring ASCII case.
pub open spec fn mouse_event_kind_named(s: Seq<char>) -> Option<MouseEventKind> {
    let l = ascii_lower_seq(s);
    if l == "leftbuttondown"@ {
        Some(MouseEventKind::LeftButtonDown)
    } else if l == "rightbuttondown"@ {
        Some(MouseEventKind::RightButtonDown)
    } else if l == "middlebuttondown"@ {
        Some(MouseEventKind::MiddleButtonDown)
    } else if l == "moved"@ {
        Some(MouseEventKind::Moved)
    } else if l == "scrolldown"@ {
        Some(MouseEventKind::ScrollDown)
    } else if l == "scrollup"@ {
        Some(MouseEventKind::ScrollUp)
    } else if l == "scrollleft"@ {
        Some(MouseEventKind::ScrollLeft)
    } else if l == "scrollright"@ {
        Some(MouseEventKind::ScrollRight)
    } else {
        None
    }
}

impl MouseEventKind {
    /// The name of the kind.
    pub open spec fn spec_display(self) -> Seq<char> {
        match self {
            MouseEventKind::LeftButtonDown => "LeftButtonDown"@,
            MouseEventKind::RightButtonDown => "RightButtonDown"@,
            MouseEventKind::MiddleButtonDown => "MiddleButtonDown"@,
            MouseEventKind::Moved => "Moved"@,
            MouseEventKind::ScrollDown => "ScrollDown"@,
            MouseEventKind::ScrollUp => "ScrollUp"@,
            MouseEventKind::ScrollLeft => "ScrollLeft"@,
            MouseEventKind::ScrollRight => "ScrollRight"@,
        }
    }

    /// The name of the kind.
    pub fn to_string(&self) -> (s: String)
        ensures
            s@ == self.spec_display(),
    {
        match self {
            MouseEventKind::LeftButtonDown => owned("LeftButtonDown"),
            MouseEventKind::RightButtonDown => owned("RightButtonDown"),
            MouseEventKind::MiddleButtonDown => owned("MiddleButtonDown"),
            MouseEventKind::Moved => owned("Moved"),
            MouseEventKind::ScrollDown => owned("ScrollDown"),
            MouseEventKind::ScrollUp => owned("ScrollUp"),
            MouseEventKind::ScrollLeft => owned("ScrollLeft"),
            MouseEventKind::ScrollRight => owned("ScrollRight"),
        }
    }

    /// The kind named by `s`, ignoring ASCII case.
    pub fn parse(s: &str) -> (k: Option<MouseEventKind>)
        ensures
            k == mouse_event_kind_named(s@),
    {
        let v = chars_of(s);
        if eq_ascii_lower(&v, &chars_of("leftbuttondown")) {
            Some(MouseEventKind::LeftButtonDown)
        } else if eq_ascii_lower(&v, &chars_of("rightbuttondown")) {
            Some(MouseEventKind::RightButtonDown)
        } else if eq_ascii_lower(&v, &chars_of("middlebuttondown")) {
            Some(MouseEventKind::MiddleButtonDown)
        } else if eq_ascii_lower(&v, &chars_of("moved")) {
            Some(MouseEventKind::Moved)
        } else if eq_ascii_lower(&v, &chars_of("scrolldown")) {
            Some(MouseEventKind::ScrollDown)
        } else if eq_ascii_lower(&v, &chars_of("scrollup")) {
            Some(MouseEventKind::ScrollUp)
        } else if eq_ascii_lower(&v, &chars_of("scrollleft")) {
            Some(MouseEventKind::ScrollLeft)
        } else if eq_ascii_lower(&v, &chars_of("scrollright")) {
            Some(MouseEventKind::ScrollRight)
        } else {
            None
        }
    }
}

/// A mouse event: what happened, where, and the modifiers held.
#[derive(Debug, Clone, Copy, PartialEq, Eq, Structural)]
pub struct MouseEvent {
    pub kind: MouseEventKind,
    pub column: u16,
    pub row: u16,
    pub modifiers: KeyModifiers,
}

/// Names separated by `, `.
pub open spec fn joined_with_commas(names: Seq<Seq<char>>) -> Seq<char>
    decreases names.len(),
{
    if names.len() == 0 {
        seq![]
    } else if names.len() == 1 {
        names[0]
    } else {
        joined_with_commas(names.drop_last()) + ", "@ + names.last()
    }
}

impl MouseEvent {
    /// The description of the modifiers: `no modifiers` when no bit is set, otherwise
    /// `modifiers: ` and the names of the present modifiers separated by `, `.
    pub open spec fn spec_modifiers_text(self) -> Seq<char> {
        if self.modifiers.0 == 0 {
            "no modifiers"@
        } else {
            "modifiers: "@ + joined_with_commas(self.modifiers.spec_modifiers())
        }
    }

    /// The textual form, `<kind> at (<column>, <row>) with <modifiers>`.
    pub open spec fn spec_display(self) -> Seq<char> {
        self.kind.spec_display() + " at ("@ + decimal(self.column as nat) + ", "@ + decimal(
            self.row as nat,
        ) + ") with "@ + self.spec_modifiers_text()
    }

    /// The textual form of the mouse event.
    pub fn to_string(&self) -> (s: String)
        ensures
            s@ == self.spec_display(),
    {
        let mut s = self.kind.to_string();
        push_str(&mut s, " at (");
        push_decimal(&mut s, self.column as u64);
        push_str(&mut s, ", ");
        push_decimal(&mut s, self.row as u64);
        push_str(&mut s, ") with ");
        if self.modifiers.0 == 0 {
            push_str(&mut s, "no modifiers");
        } else {
            push_str(&mut s, "modifiers: ");
            let names = self.modifiers.modifiers();
            let ghost start = s@;
            let mut i: usize = 0;
            while i < names.len()
                invariant
                    i <= names@.len(),
                    names@.len() == self.modifiers.spec_modifiers().len(),
                    forall|j: int|
                        0 <= j < names@.len() ==> #[trigger] names@[j]@
                            == self.modifiers.spec_modifiers()[j],
                    s@ == start + joined_with_commas(
                        self.modifiers.spec_modifiers().take(i as int),
                    ),
                decreases names@.len() - i,
            {
                let ghost before = s@;
                if i > 0 {
                    push_str(&mut s, ", ");
                }
                push_str(&mut s, names[i].as_str());
                proof {
                    let n = self.modifiers.spec_modifiers();
                    assert(n.take(i + 1).drop_last() =~= n.take(i as int));
                    if i == 0 {
                        assert(n.take(1) =~= seq![n[0]]);
                    }
                    assert(s@ =~= start + joined_with_commas(n.take(i + 1)));
                }
                i += 1;
            }
            proof {
                assert(self.modifiers.spec_modifiers().take(i as int)
                    =~= self.modifiers.spec_modifiers());
            }
        }
        s
    }

    /// The names of the modifiers held during the event.
    pub fn get_modifiers(&self) -> (v: Vec<String>)
        ensures
            v@.len() == self.modifiers.spec_modifiers().len(),
            forall|i: int|
                0 <= i < v@.len() ==> #[trigger] v@[i]@ == self.modifiers.spec_modifiers()[i],
    {
        self.modifiers.modifiers()
    }
}

/// Actions that can be bound to keys.
#[derive(Debug, Clone, Copy, PartialEq, Eq, Structural)]
#[non_exhaustive]
pub enum Shortcut {
    Quit,
    TabNext,
    TabPrev,
    TabClose,
    TabSwapLeft,
    TabSwapRight,
    MudListNext,
    MudListPrev,
    MudListConnect,
    ToggleLineWrap,
    ToggleInputEcho,
    ToggleMouseMode,
    HistoryNext,
    HistoryPrevious,
    ScrollUp,
    ScrollDown,
    ScrollTop,
    ScrollBottom,
}

impl Shortcut {
    /// The name of the shortcut.
    pub open spec fn spec_display(self) -> Seq<char> {
        match self {
            Shortcut::Quit => "Quit"@,
            Shortcut::TabNext => "TabNext"@,
            Shortcut::TabPrev => "TabPrev"@,
            Shortcut::TabClose => "TabClose"@,
            Shortcut::TabSwapLeft => "TabSwapLeft"@,
            Shortcut::TabSwapRight => "TabSwapRight"@,
            Shortcut::MudListNext => "MudListNext"@,
            Shortcut::MudListPrev => "MudListPrev"@,
            Shortcut::MudListConnect => "MudListConnect"@,
            Shortcut::ToggleLineWrap => "ToggleLineWrap"@,
            Shortcut::ToggleInputEcho => "ToggleInputEcho"@,
            Shortcut::ToggleMouseMode => "ToggleMouseMode"@,
            Shortcut::HistoryNext => "HistoryNext"@,
            Shortcut::HistoryPrevious => "HistoryPrevious"@,
            Shortcut::ScrollUp => "ScrollUp"@,
            Shortcut::ScrollDown => "ScrollDown"@,
            Shortcut::ScrollTop => "ScrollTop"@,
            Shortcut::ScrollBottom => "ScrollBottom"@,
        }
    }

    /// The name of the shortcut.
    pub fn to_string(&self) -> (s: String)
        ensures
            s@ == self.spec_display(),
    {
        match self {
            Shortcut::Quit => owned("Quit"),
            Shortcut::TabNext => owned("TabNext"),
            Shortcut::TabPrev => owned("TabPrev"),
            Shortcut::TabClose => owned("TabClose"),
            Shortcut::TabSwapLeft => owned("TabSwapLeft"),
            Shortcut::TabSwapRight => owned("TabSwapRight"),
            Shortcut::MudListNext => owned("MudListNext"),
            Shortcut::MudListPrev => owned("MudListPrev"),
            Shortcut::MudListConnect => owned("MudListConnect"),
            Shortcut::ToggleLineWrap => owned("ToggleLineWrap"),
            Shortcut::ToggleInputEcho => owned("ToggleInputEcho"),
            Shortcut::ToggleMouseMode => owned("ToggleMouseMode"),
            Shortcut::HistoryNext => owned("HistoryNext"),
            Shortcut::HistoryPrevious => owned("HistoryPrevious"),
            Shortcut::ScrollUp => owned("ScrollUp"),
            Shortcut::ScrollDown => owned("ScrollDown"),
            Shortcut::ScrollTop => owned("ScrollTop"),
            Shortcut::ScrollBottom => owned("ScrollBottom"),
        }
    }

    /// The shortcut whose name, ignoring ASCII case, is `s`.
    pub open spec fn spec_named(s: Seq<char>) -> Option<Shortcut> {
        let l = ascii_lower_seq(s);
        if l == "quit"@ {
            Some(Shortcut::Quit)
        } else if l == "tabnext"@ {
            Some(Shortcut::TabNext)
        } else if l == "tabprev"@ {
            Some(Shortcut::TabPrev)
        } else if l == "tabclose"@ {
            Some(Shortcut::TabClose)
        } else if l == "tabswapleft"@ {
            Some(Shortcut::TabSwapLeft)
        } else if l == "tabswapright"@ {
            Some(Shortcut::TabSwapRight)
        } else if l == "mudlistnext"@ {
            Some(Shortcut::MudListNext)
        } else if l == "mudlistprev"@ {
            Some(Shortcut::MudListPrev)
        } else if l == "mudlistconnect"@ {
            Some(Shortcut::MudListConnect)
        } else if l == "togglelinewrap"@ {
            Some(Shortcut::ToggleLineWrap)
        } else if l == "toggleinputecho"@ {
            Some(Shortcut::ToggleInputEcho)
        } else if l == "togglemousemode"@ {
            Some(Shortcut::ToggleMouseMode)
        } else if l == "historynext"@ {
            Some(Shortcut::HistoryNext)
        } else if l == "historyprevious"@ {
            Some(Shortcut::HistoryPrevious)
        } else if l == "scrollup"@ {
            Some(Shortcut::ScrollUp)
        } else if l == "scrolldown"@ {
            Some(Shortcut::ScrollDown)
        } else if l == "scrolltop"@ {
            Some(Shortcut::ScrollTop)
        } else if l == "scrollbottom"@ {
            Some(Shortcut::ScrollBottom)
        } else {
            None
        }
    }

    /// The shortcut named by `s`, ignoring ASCII case.
    pub fn parse(s: &str) -> (r: Option<Shortcut>)
        ensures
            r == Shortcut::spec_named(s@),
    {
        let v = chars_of(s);
        if eq_ascii_lower(&v, &chars_of("quit")) {
            Some(Shortcut::Quit)
        } else if eq_ascii_lower(&v, &chars_of("tabnext")) {
            Some(Shortcut::TabNext)
        } else if eq_ascii_lower(&v, &chars_of("tabprev")) {
            Some(Shortcut::TabPrev)
        } else if eq_ascii_lower(&v, &chars_of("tabclose")) {
            Some(Shortcut::TabClose)
        } else if eq_ascii_lower(&v, &chars_of("tabswapleft")) {
            Some(Shortcut::TabSwapLeft)
        } else if eq_ascii_lower(&v, &chars_of("tabswapright")) {
            Some(Shortcut::TabSwapRight)
        } else if eq_ascii_lower(&v, &chars_of("mudlistnext")) {
            Some(Shortcut::MudListNext)
        } else if eq_ascii_lower(&v, &chars_of("mudlistprev")) {
            Some(Shortcut::MudListPrev)
        } else if eq_ascii_lower(&v, &chars_of("mudlistconnect")) {
            Some(Shortcut::MudListConnect)
        } else if eq_ascii_lower(&v, &chars_of("togglelinewrap")) {
            Some(Shortcut::ToggleLineWrap)
        } else if eq_ascii_lower(&v, &chars_of("toggleinputecho")) {
            Some(Shortcut::ToggleInputEcho)
        } else if eq_ascii_lower(&v, &chars_of("togglemousemode")) {
            Some(Shortcut::ToggleMouseMode)
        } else if eq_ascii_lower(&v, &chars_of("historynext")) {
            Some(Shortcut::HistoryNext)
        } else if eq_ascii_lower(&v, &chars_of("historyprevious")) {
            Some(Shortcut::HistoryPrevious)
        } else if eq_ascii_lower(&v, &chars_of("scrollup")) {
            Some(Shortcut::ScrollUp)
        } else if eq_ascii_lower(&v, &chars_of("scrolldown")) {
            Some(Shortcut::ScrollDown)
        } else if eq_ascii_lower(&v, &chars_of("scrolltop")) {
            Some(Shortcut::ScrollTop)
        } else if eq_ascii_lower(&v, &chars_of("scrollbottom")) {
            Some(Shortcut::ScrollBottom)
        } else {
            None
        }
    }

    /// The shortcut a mouse event triggers: scrolling the wheel up or down scrolls the output.
    pub fn from_mouse(kind: MouseEventKind) -> (r: Option<Shortcut>)
        ensures
            r == match kind {
                MouseEventKind::ScrollUp => Some(Shortcut::ScrollUp),
                MouseEventKind::ScrollDown => Some(Shortcut::ScrollDown),
                _ => None::<Shortcut>,
            },
    {
        match kind {
            MouseEventKind::ScrollUp => Some(Shortcut::ScrollUp),
            MouseEventKind::ScrollDown => Some(Shortcut::ScrollDown),
            _ => None,
        }
    }
}

/// The text a byte string reads as, with invalid UTF-8 sequences replaced by U+FFFD, as
/// `String::from_utf8_lossy` reads it.
pub uninterp spec fn utf8_lossy(bytes: Seq<u8>) -> Seq<char>;

/// `String::from_utf8_lossy`: the bytes read as UTF-8, invalid sequences replaced by U+FFFD.
/// Valid UTF-8 reads as the text it encodes; otherwise the result is named by `utf8_lossy`.
#[verifier::external_body]
pub(crate) fn lossy_text(bytes: &[u8]) -> (s: String)
    ensures
        s@ == utf8_lossy(bytes@),
        valid_utf8(bytes@) ==> s@ == decode_utf8(bytes@),
{
    String::from_utf8_lossy(bytes).into_owned()
}

/// A text with its ANSI escape sequences removed, as `strip_ansi_escapes::strip_str` computes
/// it.
pub uninterp spec fn ansi_stripped(s: Seq<char>) -> Seq<char>;

/// `strip_ansi_escapes::strip_str`: the text with its ANSI escape sequences removed, named by
/// `ansi_stripped`.
#[verifier::external_body]
fn strip_ansi(s: &str) -> (r: String)
    ensures
        r@ == ansi_stripped(s@),
{
    strip_ansi_escapes::strip_str(s)
}

/// A line received from a MUD: its raw bytes, and whether it is a prompt or is gagged.
#[derive(Debug, Default, Clone, Eq, PartialEq)]
pub struct MudLine {
    pub raw: Vec<u8>,
    pub prompt: bool,
    pub gag: bool,
}

impl MudLine {
    /// A line holding a copy of `value`, neither a prompt nor gagged.
    pub fn new(value: &[u8]) -> (l: MudLine)
        ensures
            l.raw@ == value@,
            !l.prompt,
            !l.gag,
    {
        MudLine { raw: vstd::slice::slice_to_vec(value), prompt: false, gag: false }
    }

    /// The text of the line, invalid UTF-8 replaced by U+FFFD.
    pub fn to_str(&self) -> (s: String)
        ensures
            s@ == utf8_lossy(self.raw@),
    {
        lossy_text(self.raw.as_slice())
    }

    /// The textual form of the line: its text (see [`MudLine::to_str`]).
    pub fn to_string(&self) -> (s: String)
        ensures
            s@ == utf8_lossy(self.raw@),
    {
        self.to_str()
    }

    /// A copy of the raw bytes.
    pub fn raw(&self) -> (v: Vec<u8>)
        ensures
            v@ == self.raw@,
    {
        self.raw.clone()
    }

    /// The text of the line without ANSI escape sequences.
    pub fn stripped(&self) -> (s: String)
        ensures
            s@ == ansi_stripped(utf8_lossy(self.raw@)),
    {
        let t = self.to_str();
        strip_ansi(t.as_str())
    }

    /// Replace the content of the line by the UTF-8 encoding of `value`.
    pub fn set(&mut self, value: &str)
        ensures
            final(self).raw@ == encode_utf8(value@),
            final(self).prompt == old(self).prompt,
            final(self).gag == old(self).gag,
    {
        self.raw = vstd::slice::slice_to_vec(value.as_bytes());
    }
}

/// A line of input sent, or to be sent, to a MUD.
#[derive(Debug, Default, Clone, Eq, PartialEq)]
pub struct InputLine {
    /// The text sent.
    pub sent: String,
    /// The text the user typed, when an alias replaced it.
    pub original: Option<String>,
    /// Whether the line is shown, or masked as a password.
    pub echo: EchoState,
    /// Whether a script produced the line.
    pub scripted: bool,
}

/// The pieces of `s` between the non-overlapping occurrences of `sep`, found from the left,
/// as `str::split` with a string pattern yields them. An empty separator splits between any
/// two characters and at both ends.
pub open spec fn split_text(s: Seq<char>, sep: Seq<char>) -> Seq<Seq<char>>
    decreases s.len(),
{
    if sep.len() == 0 {
        seq![Seq::<char>::empty()] + s.map_values(|c: char| seq![c]) + seq![Seq::<char>::empty()]
    } else if s.len() < sep.len() {
        seq![s]
    } else if s.take(sep.len() as int) == sep {
        seq![Seq::<char>::empty()] + split_text(s.skip(sep.len() as int), sep)
    } else {
        let rest = split_text(s.skip(1), sep);
        rest.update(0, seq![s[0]] + rest[0])
    }
}

/// The pieces that are not blank, in order.
pub open spec fn non_blank(pieces: Seq<Seq<char>>) -> Seq<Seq<char>>
    decreases pieces.len(),
{
    if pieces.len() == 0 {
        pieces
    } else {
        let r = non_blank(pieces.drop_last());
        if is_blank(pieces.last()) {
            r
        } else {
            r.push(pieces.last())
        }
    }
}

/// `p` prepended to the first piece.
pub open spec fn prefix_first(p: Seq<char>, pieces: Seq<Seq<char>>) -> Seq<Seq<char>> {
    pieces.update(0, p + pieces[0])
}

/// Splitting yields at least one piece.
pub proof fn lemma_split_text_nonempty(s: Seq<char>, sep: Seq<char>)
    ensures
        split_text(s, sep).len() >= 1,
    decreases s.len(),
{
    if sep.len() > 0 && s.len() >= sep.len() {
        if s.take(sep.len() as int) == sep {
            lemma_split_text_nonempty(s.skip(sep.len() as int), sep);
        } else {
            lemma_split_text_nonempty(s.skip(1), sep);
        }
    }
}

/// Whether `sep` occurs in `s` at index `i`.
fn occurs_at(s: &Vec<char>, sep: &Vec<char>, i: usize) -> (b: bool)
    requires
        i + sep@.len() <= s@.len(),
    ensures
        b == (s@.subrange(i as int, i + sep@.len()) == sep@),
{
    let n = s.len();
    let mut j: usize = 0;
    while j < sep.len()
        invariant
            n == s@.len(),
            i + sep@.len() <= s@.len(),
            j <= sep@.len(),
            forall|k: int| 0 <= k < j ==> s@[i + k] == sep@[k],
        decreases sep@.len() - j,
    {
        assert(i + j < s@.len());
        if s[i + j] != sep[j] {
            proof {
                assert(s@.subrange(i as int, i + sep@.len())[j as int] != sep@[j as int]);
            }
            return false;
        }
        j += 1;
    }
    proof {
        assert(s@.subrange(i as int, i + sep@.len()) =~= sep@);
    }
    true
}

/// A copy of `s[from..to]`.
fn chars_between(s: &Vec<char>, from: usize, to: usize) -> (r: Vec<char>)
    requires
        from <= to <= s@.len(),
    ensures
        r@ == s@.subrange(from as int, to as int),
{
    let mut r: Vec<char> = Vec::new();
    let mut i: usize = from;
    while i < to
        invariant
            from <= i <= to <= s@.len(),
            r@ == s@.subrange(from as int, i as int),
        decreases to - i,
    {
        r.push(s[i]);
        i += 1;
        proof {
            assert(r@ =~= s@.subrange(from as int, i as int));
        }
    }
    r
}

/// The pieces of `s` between occurrences of `sep` (see [`split_text`]).
pub(crate) fn split_chars(s: &Vec<char>, sep: &Vec<char>) -> (pieces: Vec<Vec<char>>)
    ensures
        pieces@.len() == split_text(s@, sep@).len(),
        forall|j: int| 0 <= j < pieces@.len() ==> #[trigger] pieces@[j]@ == split_text(s@, sep@)[j],
{
    let mut pieces: Vec<Vec<char>> = Vec::new();
    if sep.len() == 0 {
        pieces.push(Vec::new());
        let mut i: usize = 0;
        while i < s.len()
            invariant
                i <= s@.len(),
                pieces@.len() == i + 1,
                pieces@[0]@ == Seq::<char>::empty(),
                forall|j: int| 1 <= j <= i ==> #[trigger] pieces@[j]@ == seq![s@[j - 1]],
            decreases s@.len() - i,
        {
            let mut one: Vec<char> = Vec::new();
            one.push(s[i]);
            pieces.push(one);
            i += 1;
        }
        pieces.push(Vec::new());
        proof {
            let t = split_text(s@, sep@);
            assert(t.len() == s@.len() + 2);
            assert forall|j: int| 0 <= j < pieces@.len() implies #[trigger] pieces@[j]@ == t[j] by {
                if 1 <= j <= s@.len() {
                    assert(t[j] == s@.map_values(|c: char| seq![c])[j - 1]);
                }
            }
        }
        return pieces;
    }
    let k = sep.len();
    let ghost all = split_text(s@, sep@);
    let ghost mut done: Seq<Seq<char>> = seq![];
    let mut start: usize = 0;
    let mut i: usize = 0;
    proof {
        lemma_split_text_nonempty(s@, sep@);
        assert(s@.skip(0) =~= s@);
        assert(prefix_first(Seq::<char>::empty(), all) =~= all);
    }
    while k <= s.len() - i
        invariant
            k == sep@.len(),
            k > 0,
            start <= i <= s@.len(),
            all == split_text(s@, sep@),
            pieces@.len() == done.len(),
            forall|j: int| 0 <= j < pieces@.len() ==> #[trigger] pieces@[j]@ == done[j],
            all == done + prefix_first(s@.subrange(start as int, i as int), split_text(s@.skip(i as int), sep@)),
        decreases s@.len() - i,
    {
        let ghost t = s@.skip(i as int);
        let ghost p = s@.subrange(start as int, i as int);
        proof {
            assert(t.take(k as int) =~= s@.subrange(i as int, i + k));
        }
        if occurs_at(s, sep, i) {
            let piece = chars_between(s, start, i);
            pieces.push(piece);
            proof {
                assert(t.skip(k as int) =~= s@.skip(i + k));
                lemma_split_text_nonempty(s@.skip(i + k), sep@);
                let x = split_text(s@.skip(i + k), sep@);
                assert(prefix_first(p, seq![Seq::<char>::empty()] + x) =~= seq![p] + x);
                assert(prefix_first(s@.subrange(i + k, i + k), x) =~= x);
                done = done.push(p);
                assert(all =~= done + prefix_first(s@.subrange(i + k, i + k), x));
            }
            i = i + k;
            start = i;
        } else {
            proof {
                assert(t.skip(1) =~= s@.skip(i + 1));
                lemma_split_text_nonempty(s@.skip(i + 1), sep@);
                let rest = split_text(s@.skip(i + 1), sep@);
                assert(split_text(t, sep@) == rest.update(0, seq![t[0]] + rest[0]));
                assert(s@.subrange(start as int, i + 1) =~= p + seq![t[0]]);
                assert((p + seq![t[0]]) + rest[0] =~= p + (seq![t[0]] + rest[0]));
                assert(prefix_first(p, rest.update(0, seq![t[0]] + rest[0])) =~= prefix_first(
                    s@.subrange(start as int, i + 1),
                    rest,
                ));
            }
            i = i + 1;
        }
    }
    let last = chars_between(s, start, s.len());
    pieces.push(last);
    proof {
        let t = s@.skip(i as int);
        assert(split_text(t, sep@) == seq![t]);
        assert(s@.subrange(start as int, i as int) + t =~= s@.subrange(start as int, s@.len() as int));
        assert(all =~= done.push(s@.subrange(start as int, s@.len() as int)));
    }
    pieces
}

impl InputLine {
    /// A copy of the line.
    pub fn duplicate(&self) -> (l: InputLine)
        ensures
            l == *self,
    {
        InputLine {
            sent: self.sent.clone(),
            original: match &self.original {
                Some(o) => Some(o.clone()),
                None => None,
            },
            echo: self.echo,
            scripted: self.scripted,
        }
    }

    /// A line as typed: no original text; shown when `echo` holds, masked otherwise.
    pub fn new(sent: String, echo: bool, scripted: bool) -> (l: InputLine)
        ensures
            l.sent@ == sent@,
            l.original is None,
            l.echo == (if echo {
                EchoState::Enabled
            } else {
                EchoState::Password
            }),
            l.scripted == scripted,
    {
        InputLine {
            sent,
            original: None,
            echo: if echo {
                EchoState::Enabled
            } else {
                EchoState::Password
            },
            scripted,
        }
    }

    /// Whether nothing but whitespace was sent.
    pub fn empty(&self) -> (b: bool)
        ensures
            b == is_blank(self.sent@),
    {
        let v = chars_of(self.sent.as_str());
        blank(&v)
    }

    /// The lines between occurrences of `sep` in the sent text, leaving out blank ones; each
    /// keeps the echo state and origin of this line and has no original text.
    pub fn split(&self, sep: &str) -> (lines: Vec<InputLine>)
        ensures
            lines@.len() == non_blank(split_text(self.sent@, sep@)).len(),
            forall|i: int|
                0 <= i < lines@.len() ==> {
                    &&& #[trigger] lines@[i].sent@ == non_blank(split_text(self.sent@, sep@))[i]
                    &&& lines@[i].original is None
                    &&& lines@[i].echo == self.echo
                    &&& lines@[i].scripted == self.scripted
                },
    {
        let text = chars_of(self.sent.as_str());
        let sep_chars = chars_of(sep);
        let pieces = split_chars(&text, &sep_chars);
        let ghost all = split_text(self.sent@, sep@);
        let mut lines: Vec<InputLine> = Vec::new();
        let mut j: usize = 0;
        while j < pieces.len()
            invariant
                j <= pieces@.len(),
                pieces@.len() == all.len(),
                forall|m: int| 0 <= m < pieces@.len() ==> #[trigger] pieces@[m]@ == all[m],
                lines@.len() == non_blank(all.take(j as int)).len(),
                forall|m: int|
                    0 <= m < lines@.len() ==> #[trigger] lines@[m].sent@ == non_blank(
                        all.take(j as int),
                    )[m],
                forall|m: int|
                    0 <= m < lines@.len() ==> {
                        &&& (#[trigger] lines@[m]).original is None
                        &&& lines@[m].echo == self.echo
                        &&& lines@[m].scripted == self.scripted
                    },
            decreases pieces@.len() - j,
        {
            proof {
                assert(all.take(j + 1).drop_last() =~= all.take(j as int));
                assert(all.take(j + 1).last() == pieces@[j as int]@);
                assert(non_blank(all.take(j + 1)) == (if is_blank(all[j as int]) {
                    non_blank(all.take(j as int))
                } else {
                    non_blank(all.take(j as int)).push(all[j as int])
                }));
            }
            let ghost prev = lines@;
            if !blank(&pieces[j]) {
                let sent = string_from_chars(pieces[j].as_slice());
                lines.push(
                    InputLine { sent, original: None, echo: self.echo, scripted: self.scripted },
                );
                proof {
                    let nb = non_blank(all.take(j + 1));
                    assert forall|m: int| 0 <= m < lines@.len() implies #[trigger] lines@[m].sent@
                        == nb[m] by {
                        if m < prev.len() {
                            assert(lines@[m] == prev[m]);
                        }
                    }
                }
            }
            j += 1;
        }
        proof {
            assert(all.take(j as int) =~= all);
        }
        lines
    }

    /// A copy whose sent text is the original text (empty when there is none), and whose
    /// original text is the sent text.
    pub fn clone_with_original(&self) -> (l: InputLine)
        ensures
            l.sent@ == (match self.original {
                Some(o) => o@,
                None => Seq::<char>::empty(),
            }),
            l.original matches Some(o) && o@ == self.sent@,
            l.echo == self.echo,
            l.scripted == self.scripted,
    {
        let sent = match &self.original {
            Some(o) => owned(o.as_str()),
            None => String::new(),
        };
        InputLine {
            sent,
            original: Some(owned(self.sent.as_str())),
            echo: self.echo,
            scripted: self.scripted,
        }
    }

    /// The textual form: the sent text, or as many `*` as it has bytes when masked.
    pub open spec fn spec_display(&self) -> Seq<char> {
        match self.echo {
            EchoState::Enabled => self.sent@,
            EchoState::Password => Seq::new(encode_utf8(self.sent@).len(), |i: int| '*'),
        }
    }

    /// The textual form of the line.
    pub fn to_string(&self) -> (s: String)
        ensures
            s@ == self.spec_display(),
    {
        match self.echo {
            EchoState::Enabled => {
                let t = owned(self.sent.as_str());
                proof {
                    assert(self.spec_display() == self.sent@);
                }
                t
            },
            EchoState::Password => {
                let n = self.sent.as_str().as_bytes().len();
                let mut s = String::new();
                let mut i: usize = 0;
                while i < n
                    invariant
                        i <= n,
                        s@ == Seq::new(i as nat, |k: int| '*'),
                    decreases n - i,
                {
                    push_char(&mut s, '*');
                    i += 1;
                    proof {
                        assert(s@ =~= Seq::new(i as nat, |k: int| '*'));
                    }
                }
                s
            },
        }
    }
}

/// How a MUD marks its prompts.
#[derive(Debug, Copy, Clone, Eq, PartialEq, Structural)]
pub enum PromptSignal {
    /// Prompts end with telnet's end of record.
    EndOfRecord,
    /// Prompts end with telnet's go ahead.
    GoAhead,
}

impl PromptSignal {
    /// The telnet command that ends a prompt.
    pub open spec fn spec_command(self) -> u8 {
        match self {
            PromptSignal::EndOfRecord => command::EOR,
            PromptSignal::GoAhead => command::GA,
        }
    }

    /// The textual form of the signal.
    pub open spec fn spec_display(self) -> Seq<char> {
        match self {
            PromptSignal::EndOfRecord => "end of record (EoR)"@,
            PromptSignal::GoAhead => "go ahead (GA)"@,
        }
    }

    /// The textual form of the signal.
    pub fn to_string(&self) -> (s: String)
        ensures
            s@ == self.spec_display(),
    {
        match self {
            PromptSignal::EndOfRecord => owned("end of record (EoR)"),
            PromptSignal::GoAhead => owned("go ahead (GA)"),
        }
    }
}

impl From<PromptSignal> for u8 {
    /// The telnet command that ends a prompt.
    fn from(value: PromptSignal) -> (b: u8) {
        match value {
            PromptSignal::EndOfRecord => command::EOR,
            PromptSignal::GoAhead => command::GA,
        }
    }
}

impl vstd::std_specs::convert::FromSpecImpl<PromptSignal> for u8 {
    open spec fn obeys_from_spec() -> bool {
        true
    }

    open spec fn from_spec(value: PromptSignal) -> u8 {
        match value {
            PromptSignal::EndOfRecord => command::EOR,
            PromptSignal::GoAhead => command::GA,
        }
    }
}

/// How prompts are recognised.
#[derive(Debug, Clone, Copy, Eq, PartialEq, Structural)]
pub enum PromptMode {
    /// The MUD does not mark prompts: a partial line still unterminated when the timeout (in
    /// milliseconds) expires is taken for a prompt.
    Unsignalled { timeout_ms: u64 },
    /// The MUD ends prompts with a telnet command.
    Signalled { signal: PromptSignal },
}

/// The three decimal digits of a fraction of a thousand, without trailing zeros.
pub open spec fn millis_fraction(f: nat) -> Seq<char> {
    let a = digit_char(f / 100);
    let b = digit_char((f / 10) % 10);
    let c = digit_char(f % 10);
    if f % 10 != 0 {
        seq![a, b, c]
    } else if (f / 10) % 10 != 0 {
        seq![a, b]
    } else {
        seq![a]
    }
}

/// The `Debug` form of a duration of whole milliseconds: `0ns`, `<n>ms` below a second, and
/// seconds with the fraction's trailing zeros removed otherwise (`1.5s`, `2s`).
pub open spec fn millis_debug(ms: nat) -> Seq<char> {
    if ms == 0 {
        "0ns"@
    } else if ms < 1000 {
        decimal(ms) + "ms"@
    } else if ms % 1000 == 0 {
        decimal(ms / 1000) + "s"@
    } else {
        decimal(ms / 1000) + "."@ + millis_fraction(ms % 1000) + "s"@
    }
}

/// Append the `Debug` form of a duration of `ms` milliseconds.
pub(crate) fn push_millis(s: &mut String, ms: u64)
    ensures
        final(s)@ == old(s)@ + millis_debug(ms as nat),
{
    if ms == 0 {
        push_str(s, "0ns");
    } else if ms < 1000 {
        push_decimal(s, ms);
        push_str(s, "ms");
    } else if ms % 1000 == 0 {
        push_decimal(s, ms / 1000);
        push_str(s, "s");
    } else {
        push_decimal(s, ms / 1000);
        push_str(s, ".");
        let f: u64 = ms % 1000;
        let a: char = ((f / 100) as u8 + 48) as char;
        let b: char = (((f / 10) % 10) as u8 + 48) as char;
        let c: char = ((f % 10) as u8 + 48) as char;
        push_char(s, a);
        if f % 10 != 0 {
            push_char(s, b);
            push_char(s, c);
        } else if (f / 10) % 10 != 0 {
            push_char(s, b);
        }
        push_str(s, "s");
        proof {
            assert(digit_char((f / 100) as nat) == a);
        }
    }
}

impl PromptMode {
    /// The default mode: unsignalled, with a 200 millisecond timeout.
    pub fn default_mode() -> (m: PromptMode)
        ensures
            m == (PromptMode::Unsignalled { timeout_ms: 200 }),
    {
        PromptMode::Unsignalled { timeout_ms: 200 }
    }

    /// The signal that ends prompts, if the MUD marks them.
    pub fn signal(&self) -> (r: Option<PromptSignal>)
        ensures
            r == match *self {
                PromptMode::Unsignalled { .. } => None::<PromptSignal>,
                PromptMode::Signalled { signal } => Some(signal),
            },
    {
        match self {
            PromptMode::Unsignalled { .. } => None,
            PromptMode::Signalled { signal } => Some(*signal),
        }
    }

    /// The textual form of the mode.
    pub open spec fn spec_display(self) -> Seq<char> {
        match self {
            PromptMode::Unsignalled { timeout_ms } => "unterminated prompt mode ("@ + millis_debug(
                timeout_ms as nat,
            ) + " timeout)"@,
            PromptMode::Signalled { signal } => "terminated prompt mode ("@
                + signal.spec_display() + ")"@,
        }
    }

    /// The textual form of the mode, e.g. `unterminated prompt mode (200ms timeout)`.
    pub fn to_string(&self) -> (s: String)
        ensures
            s@ == self.spec_display(),
    {
        match self {
            PromptMode::Unsignalled { timeout_ms } => {
                let mut s = owned("unterminated prompt mode (");
                push_millis(&mut s, *timeout_ms);
                push_str(&mut s, " timeout)");
                s
            },
            PromptMode::Signalled { signal } => {
                let mut s = owned("terminated prompt mode (");
                let t = signal.to_string();
                push_str(&mut s, t.as_str());
                push_str(&mut s, ")");
                s
            },
        }
    }
}

impl Default for PromptMode {
    fn default() -> (m: PromptMode)
        ensures
            m == (PromptMode::Unsignalled { timeout_ms: 200 }),
    {
        PromptMode::default_mode()
    }
}

} // verus!
