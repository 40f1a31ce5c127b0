//! Representations of key events, key codes and key modifiers, independent of any terminal
//! library, with their textual form (e.g. `ctrl-shift-enter`).

use std::str::FromStr;

use vstd::prelude::*;

use crate::error::KeyBindingError;
use crate::text::{
    ascii_lower, ascii_lower_seq, chars_of, debug_quoted, debug_str, decimal, digit_char,
    eq_ascii_lower, eq_lit, is_ascii_seq, lowercase, lowercase_spec, owned, push_char,
    push_decimal, push_str, split_char, split_on, string_from_chars,
};

verus! {

/// A set of key modifiers, as bit flags.
#[derive(Debug, Clone, Copy, PartialEq, Eq, Hash, PartialOrd, Ord, Structural)]
pub struct KeyModifiers(pub u8);

/// The bits of the control modifier.
pub const CONTROL_BITS: u8 = 2;

/// The bits of the shift modifier.
pub const SHIFT_BITS: u8 = 1;

/// The bits of the alt modifier.
pub const ALT_BITS: u8 = 4;

/// The bits of the meta modifier (shift and alt together).
pub const META_BITS: u8 = 5;

impl KeyModifiers {
    /// No modifiers.
    pub fn none() -> (m: KeyModifiers)
        ensures
            m.0 == 0,
    {
        KeyModifiers(0)
    }

    /// The shift key.
    pub fn shift() -> (m: KeyModifiers)
        ensures
            m.0 == SHIFT_BITS,
    {
        KeyModifiers(SHIFT_BITS)
    }

    /// The control key.
    pub fn control() -> (m: KeyModifiers)
        ensures
            m.0 == CONTROL_BITS,
    {
        KeyModifiers(CONTROL_BITS)
    }

    /// The alt key.
    pub fn alt() -> (m: KeyModifiers)
        ensures
            m.0 == ALT_BITS,
    {
        KeyModifiers(ALT_BITS)
    }

    /// The meta key (reported as shift and alt together).
    pub fn meta() -> (m: KeyModifiers)
        ensures
            m.0 == META_BITS,
    {
        KeyModifiers(META_BITS)
    }

    /// Every bit of `other` is set in `self`.
    pub open spec fn spec_contains(self, other: KeyModifiers) -> bool {
        (self.0 & other.0) == other.0
    }

    /// Whether every modifier of `other` is present.
    pub fn contains(self, other: KeyModifiers) -> (b: bool)
        ensures
            b == self.spec_contains(other),
    {
        (self.0 & other.0) == other.0
    }

    /// Add the modifiers of `other`.
    pub fn insert(&mut self, other: KeyModifiers)
        ensures
            final(self).0 == old(self).0 | other.0,
    {
        self.0 = self.0 | other.0;
    }

    /// The names of the displayed modifiers, in order: ctrl, shift, alt.
    pub open spec fn spec_names(self) -> Seq<Seq<char>> {
        let c = if self.spec_contains(KeyModifiers(CONTROL_BITS)) {
            seq!["ctrl"@]
        } else {
            seq![]
        };
        let s = if self.spec_contains(KeyModifiers(SHIFT_BITS)) {
            seq!["shift"@]
        } else {
            seq![]
        };
        let a = if self.spec_contains(KeyModifiers(ALT_BITS)) {
            seq!["alt"@]
        } else {
            seq![]
        };
        c + s + a
    }

    /// The names of the modifiers that are present, in the order ctrl, shift, alt.
    pub fn to_vec(&self) -> (v: Vec<String>)
        ensures
            v@.len() == self.spec_names().len(),
            forall|i: int| 0 <= i < v@.len() ==> #[trigger] v@[i]@ == self.spec_names()[i],
    {
        let mut v: Vec<String> = Vec::new();
        if self.contains(KeyModifiers::control()) {
            v.push(owned("ctrl"));
        }
        if self.contains(KeyModifiers::shift()) {
            v.push(owned("shift"));
        }
        if self.contains(KeyModifiers::alt()) {
            v.push(owned("alt"));
        }
        proof {
            let n = self.spec_names();
            assert(v@.len() == n.len());
            assert forall|i: int| 0 <= i < v@.len() implies #[trigger] v@[i]@ == n[i] by {}
        }
        v
    }

    /// The textual form: each modifier name followed by `-`.
    pub open spec fn spec_display(self) -> Seq<char> {
        joined_with_dashes(self.spec_names())
    }

    /// The textual form of the modifiers, e.g. `ctrl-shift-`.
    pub fn to_string(&self) -> (s: String)
        ensures
            s@ == self.spec_display(),
    {
        let names = self.to_vec();
        let mut s = String::new();
        let mut i: usize = 0;
        while i < names.len()
            invariant
                i <= names@.len(),
                names@.len() == self.spec_names().len(),
                forall|j: int| 0 <= j < names@.len() ==> #[trigger] names@[j]@ == self.spec_names()[j],
                s@ == joined_with_dashes(self.spec_names().take(i as int)),
            decreases names@.len() - i,
        {
            push_str(&mut s, names[i].as_str());
            push_char(&mut s, '-');
            proof {
                assert(self.spec_names().take(i + 1).drop_last() =~= self.spec_names().take(
                    i as int,
                ));
                assert(s@ =~= joined_with_dashes(self.spec_names().take(i + 1)));
            }
            i += 1;
        }
        proof {
            assert(self.spec_names().take(i as int) =~= self.spec_names());
        }
        s
    }

    /// Parse a modifier name, ignoring ASCII case: `ctrl`, `shift`, `alt` or `meta`.
    pub fn parse(s: &str) -> (res: Result<KeyModifiers, KeyBindingError>)
        ensures
            match modifier_named(s@) {
                Some(m) => res == Ok::<KeyModifiers, KeyBindingError>(m),
                None => res matches Err(KeyBindingError::InvalidKeys(msg)) && msg@
                    == "unknown key modifier: "@ + s@,
            },
    {
        let v = chars_of(s);
        match modifier_from_chars(&v) {
            Some(m) => Ok(m),
            None => {
                let mut msg = owned("unknown key modifier: ");
                push_str(&mut msg, s);
                Err(KeyBindingError::InvalidKeys(msg))
            },
        }
    }
}

/// Names each followed by a dash, concatenated.
pub open spec fn joined_with_dashes(names: Seq<Seq<char>>) -> Seq<char>
    decreases names.len(),
{
    if names.len() == 0 {
        seq![]
    } else {
        joined_with_dashes(names.drop_last()) + names.last() + seq!['-']
    }
}

/// The modifier a name denotes, ignoring ASCII case.
pub open spec fn modifier_named(s: Seq<char>) -> Option<KeyModifiers> {
    let l = ascii_lower_seq(s);
    if l == "ctrl"@ {
        Some(KeyModifiers(CONTROL_BITS))
    } else if l == "shift"@ {
        Some(KeyModifiers(SHIFT_BITS))
    } else if l == "alt"@ {
        Some(KeyModifiers(ALT_BITS))
    } else if l == "meta"@ {
        Some(KeyModifiers(META_BITS))
    } else {
        None
    }
}

/// The modifier named by `v`, ignoring ASCII case.
pub fn modifier_from_chars(v: &Vec<char>) -> (m: Option<KeyModifiers>)
    ensures
        m == modifier_named(v@),
{
    let ctrl = chars_of("ctrl");
    let shift = chars_of("shift");
    let alt = chars_of("alt");
    let meta = chars_of("meta");
    if eq_ascii_lower(v, &ctrl) {
        Some(KeyModifiers::control())
    } else if eq_ascii_lower(v, &shift) {
        Some(KeyModifiers::shift())
    } else if eq_ascii_lower(v, &alt) {
        Some(KeyModifiers::alt())
    } else if eq_ascii_lower(v, &meta) {
        Some(KeyModifiers::meta())
    } else {
        None
    }
}

impl FromStr for KeyModifiers {
    type Err = KeyBindingError;

    fn from_str(s: &str) -> Result<Self, Self::Err> {
        KeyModifiers::parse(s)
    }
}

impl From<&KeyModifiers> for Vec<String> {
    fn from(modifiers: &KeyModifiers) -> Vec<String> {
        modifiers.to_vec()
    }
}

impl vstd::std_specs::convert::FromSpecImpl<&KeyModifiers> for Vec<String> {
    open spec fn obeys_from_spec() -> bool {
        false
    }

    open spec fn from_spec(v: &KeyModifiers) -> Vec<String> {
        arbitrary()
    }
}

/// A key, independent of modifiers.
#[derive(Debug, Clone, Copy, PartialEq, Eq, Hash, PartialOrd, Ord, Structural)]
pub enum KeyCode {
    Char(char),
    F(u8),
    Backspace,
    Enter,
    Left,
    Right,
    Up,
    Down,
    Home,
    End,
    PageUp,
    PageDown,
    Tab,
    Delete,
    Insert,
    Esc,
}

/// The names of the named keys.
pub open spec fn named_key(v: Seq<char>) -> Option<KeyCode> {
    if v == "backspace"@ {
        Some(KeyCode::Backspace)
    } else if v == "enter"@ {
        Some(KeyCode::Enter)
    } else if v == "left"@ {
        Some(KeyCode::Left)
    } else if v == "right"@ {
        Some(KeyCode::Right)
    } else if v == "up"@ {
        Some(KeyCode::Up)
    } else if v == "down"@ {
        Some(KeyCode::Down)
    } else if v == "home"@ {
        Some(KeyCode::Home)
    } else if v == "end"@ {
        Some(KeyCode::End)
    } else if v == "pageup"@ {
        Some(KeyCode::PageUp)
    } else if v == "pagedown"@ {
        Some(KeyCode::PageDown)
    } else if v == "tab"@ {
        Some(KeyCode::Tab)
    } else if v == "delete"@ {
        Some(KeyCode::Delete)
    } else if v == "insert"@ {
        Some(KeyCode::Insert)
    } else if v == "esc"@ {
        Some(KeyCode::Esc)
    } else {
        None
    }
}

/// An ASCII decimal digit.
pub open spec fn is_digit(c: char) -> bool {
    '0' <= c && c <= '9'
}

/// The value of a string of decimal digits.
pub open spec fn digits_value(s: Seq<char>) -> nat
    decreases s.len(),
{
    if s.len() == 0 {
        0
    } else {
        digits_value(s.drop_last()) * 10 + ((s.last() as u32) - 48) as nat
    }
}

/// The text has the form of an F-key: `f` or `F` followed by one or more ASCII digits.
pub open spec fn is_fkey_form(v: Seq<char>) -> bool {
    &&& v.len() > 1
    &&& (v[0] == 'f' || v[0] == 'F')
    &&& forall|i: int| 1 <= i < v.len() ==> is_digit(#[trigger] v[i])
}

/// The key code a text denotes: an F-key `f1`..`f12` (either case of `f`, leading zeros
/// allowed), one of the named keys, or a single ASCII character.
pub open spec fn parse_key_code(v: Seq<char>) -> Option<KeyCode> {
    if is_fkey_form(v) {
        let n = digits_value(v.skip(1));
        if 1 <= n <= 12 {
            Some(KeyCode::F(n as u8))
        } else {
            None
        }
    } else if named_key(v) is Some {
        named_key(v)
    } else if v.len() == 1 && (v[0] as u32) < 128 {
        Some(KeyCode::Char(v[0]))
    } else {
        None
    }
}

/// The message of the error for a text that does not denote a key code.
pub open spec fn key_code_error(v: Seq<char>) -> Seq<char> {
    if is_fkey_form(v) {
        "invalid F-key: "@ + v
    } else {
        "unknown key code: "@ + debug_str(v)
    }
}

impl KeyCode {
    /// The textual form of a key code.
    pub open spec fn spec_display(self) -> Seq<char> {
        match self {
            KeyCode::Char(c) => seq![c],
            KeyCode::F(n) => seq!['f'] + decimal(n as nat),
            KeyCode::Backspace => "backspace"@,
            KeyCode::Enter => "enter"@,
            KeyCode::Left => "left"@,
            KeyCode::Right => "right"@,
            KeyCode::Up => "up"@,
            KeyCode::Down => "down"@,
            KeyCode::Home => "home"@,
            KeyCode::End => "end"@,
            KeyCode::PageUp => "pageup"@,
            KeyCode::PageDown => "pagedown"@,
            KeyCode::Tab => "tab"@,
            KeyCode::Delete => "delete"@,
            KeyCode::Insert => "insert"@,
            KeyCode::Esc => "esc"@,
        }
    }

    /// The textual form of the key code, e.g. `a`, `f5`, `enter`.
    pub fn to_string(&self) -> (s: String)
        ensures
            s@ == self.spec_display(),
    {
        match self {
            KeyCode::Char(c) => {
                let mut s = String::new();
                push_char(&mut s, *c);
                proof {
                    assert(s@ =~= seq![*c]);
                }
                s
            },
            KeyCode::F(n) => {
                let mut s = owned("f");
                push_decimal(&mut s, *n as u64);
                proof {
                    reveal_strlit("f");
                    assert(s@ =~= seq!['f'] + decimal(*n as nat));
                }
                s
            },
            KeyCode::Backspace => owned("backspace"),
            KeyCode::Enter => owned("enter"),
            KeyCode::Left => owned("left"),
            KeyCode::Right => owned("right"),
            KeyCode::Up => owned("up"),
            KeyCode::Down => owned("down"),
            KeyCode::Home => owned("home"),
            KeyCode::End => owned("end"),
            KeyCode::PageUp => owned("pageup"),
            KeyCode::PageDown => owned("pagedown"),
            KeyCode::Tab => owned("tab"),
            KeyCode::Delete => owned("delete"),
            KeyCode::Insert => owned("insert"),
            KeyCode::Esc => owned("esc"),
        }
    }

    /// Parse the textual form of a key code (see [`parse_key_code`]).
    pub fn parse(value: &str) -> (res: Result<KeyCode, KeyBindingError>)
        ensures
            match parse_key_code(value@) {
                Some(code) => res == Ok::<KeyCode, KeyBindingError>(code),
                None => res matches Err(KeyBindingError::InvalidKeys(msg)) && msg@
                    == key_code_error(value@),
            },
    {
        let v = chars_of(value);
        match key_code_from_chars(&v) {
            Some(code) => Ok(code),
            None => {
                if fkey_form(&v) {
                    let mut msg = owned("invalid F-key: ");
                    push_str(&mut msg, value);
                    Err(KeyBindingError::InvalidKeys(msg))
                } else {
                    let mut msg = owned("unknown key code: ");
                    let q = debug_quoted(value);
                    push_str(&mut msg, q.as_str());
                    Err(KeyBindingError::InvalidKeys(msg))
                }
            },
        }
    }
}

/// Whether `v` has the form of an F-key.
fn fkey_form(v: &Vec<char>) -> (b: bool)
    ensures
        b == is_fkey_form(v@),
{
    if v.len() <= 1 || !(v[0] == 'f' || v[0] == 'F') {
        return false;
    }
    let mut i: usize = 1;
    while i < v.len()
        invariant
            1 <= i <= v@.len(),
            forall|j: int| 1 <= j < i ==> is_digit(#[trigger] v@[j]),
        decreases v@.len() - i,
    {
        if !('0' <= v[i] && v[i] <= '9') {
            return false;
        }
        i += 1;
    }
    true
}

/// The value of the digits of `v` after the first character, or `None` if it exceeds 255.
fn small_digits_value(v: &Vec<char>) -> (r: Option<u8>)
    requires
        is_fkey_form(v@),
    ensures
        match r {
            Some(n) => n as nat == digits_value(v@.skip(1)),
            None => digits_value(v@.skip(1)) > 255,
        },
{
    let mut acc: u64 = 0;
    let mut i: usize = 1;
    while i < v.len()
        invariant
            is_fkey_form(v@),
            1 <= i <= v@.len(),
            acc as nat == digits_value(v@.subrange(1, i as int)),
            acc <= 255,
        decreases v@.len() - i,
    {
        proof {
            assert(v@.subrange(1, i + 1).drop_last() =~= v@.subrange(1, i as int));
            assert(is_digit(v@[i as int]));
        }
        let d = (v[i] as u32 - 48) as u64;
        acc = acc * 10 + d;
        if acc > 255 {
            proof {
                lemma_digits_value_grows(v@.skip(1), i as int);
                assert(v@.skip(1).take(i as int) =~= v@.subrange(1, i + 1));
            }
            return None;
        }
        i += 1;
    }
    proof {
        assert(v@.subrange(1, i as int) =~= v@.skip(1));
    }
    Some(acc as u8)
}

/// The value of a string of digits is at least that of any prefix.
pub proof fn lemma_digits_value_grows(s: Seq<char>, k: int)
    requires
        0 <= k <= s.len(),
        forall|i: int| 0 <= i < s.len() ==> is_digit(#[trigger] s[i]),
    ensures
        digits_value(s.take(k)) <= digits_value(s),
    decreases s.len() - k,
{
    if k < s.len() {
        lemma_digits_value_grows(s, k + 1);
        assert(s.take(k + 1).drop_last() =~= s.take(k));
    } else {
        assert(s.take(k) =~= s);
    }
}

/// The named key spelled by `v`.
pub(crate) fn named_key_from_chars(v: &Vec<char>) -> (r: Option<KeyCode>)
    ensures
        r == named_key(v@),
{
    if eq_lit(v, "backspace") {
        Some(KeyCode::Backspace)
    } else if eq_lit(v, "enter") {
        Some(KeyCode::Enter)
    } else if eq_lit(v, "left") {
        Some(KeyCode::Left)
    } else if eq_lit(v, "right") {
        Some(KeyCode::Right)
    } else if eq_lit(v, "up") {
        Some(KeyCode::Up)
    } else if eq_lit(v, "down") {
        Some(KeyCode::Down)
    } else if eq_lit(v, "home") {
        Some(KeyCode::Home)
    } else if eq_lit(v, "end") {
        Some(KeyCode::End)
    } else if eq_lit(v, "pageup") {
        Some(KeyCode::PageUp)
    } else if eq_lit(v, "pagedown") {
        Some(KeyCode::PageDown)
    } else if eq_lit(v, "tab") {
        Some(KeyCode::Tab)
    } else if eq_lit(v, "delete") {
        Some(KeyCode::Delete)
    } else if eq_lit(v, "insert") {
        Some(KeyCode::Insert)
    } else if eq_lit(v, "esc") {
        Some(KeyCode::Esc)
    } else {
        None
    }
}

/// The key code spelled by `v`.
fn key_code_from_chars(v: &Vec<char>) -> (r: Option<KeyCode>)
    ensures
        r == parse_key_code(v@),
{
    if fkey_form(v) {
        match small_digits_value(v) {
            Some(n) => {
                if 1 <= n && n <= 12 {
                    Some(KeyCode::F(n))
                } else {
                    None
                }
            },
            None => None,
        }
    } else {
        match named_key_from_chars(v) {
            Some(code) => Some(code),
            None => {
                if v.len() == 1 && (v[0] as u32) < 128 {
                    Some(KeyCode::Char(v[0]))
                } else {
                    None
                }
            },
        }
    }
}

impl FromStr for KeyCode {
    type Err = KeyBindingError;

    fn from_str(value: &str) -> Result<Self, Self::Err> {
        KeyCode::parse(value)
    }
}

/// A key press: a key code and the modifiers held with it.
#[derive(Debug, Clone, Copy, PartialEq, Eq, Hash, PartialOrd, Ord, Structural)]
pub struct KeyEvent {
    pub code: KeyCode,
    pub modifiers: KeyModifiers,
}

/// Walk the dash separated parts of a key description: leading parts that name modifiers are
/// accumulated; the first part that does not ends the walk and is returned.
pub open spec fn scan_parts(parts: Seq<Seq<char>>, mods: u8) -> (u8, Option<Seq<char>>)
    decreases parts.len(),
{
    if parts.len() == 0 {
        (mods, None)
    } else {
        match modifier_named(parts[0]) {
            Some(m) => scan_parts(parts.drop_first(), mods | m.0),
            None => (mods, Some(parts[0])),
        }
    }
}

/// The text the key code of a key description is parsed from: the lowercased first part that
/// is not a modifier name, or nothing.
pub open spec fn key_part(s: Seq<char>) -> Seq<char> {
    match scan_parts(split_char(s, '-'), 0).1 {
        Some(p) => lowercase_spec(p),
        None => seq![],
    }
}

/// The modifiers of a key description.
pub open spec fn key_modifiers_of(s: Seq<char>) -> KeyModifiers {
    KeyModifiers(scan_parts(split_char(s, '-'), 0).0)
}

impl KeyEvent {
    /// The textual form of the key code.
    pub fn get_code(&self) -> (s: String)
        ensures
            s@ == self.code.spec_display(),
    {
        self.code.to_string()
    }

    /// The names of the modifiers held, in the order ctrl, shift, alt, meta.
    pub fn get_modifiers(&self) -> (v: Vec<String>)
        ensures
            v@.len() == self.modifiers.spec_names().len(),
            forall|i: int| 0 <= i < v@.len() ==> #[trigger] v@[i]@ == self.modifiers.spec_names()[i],
    {
        self.modifiers.to_vec()
    }

    /// A key event for a code and modifiers.
    pub fn new(code: KeyCode, modifiers: KeyModifiers) -> (e: KeyEvent)
        ensures
            e.code == code,
            e.modifiers == modifiers,
    {
        KeyEvent { code, modifiers }
    }

    /// The textual form: the modifiers, then the key code, e.g. `ctrl-shift-enter`.
    pub open spec fn spec_display(self) -> Seq<char> {
        self.modifiers.spec_display() + self.code.spec_display()
    }

    /// The textual form of the key event.
    pub fn to_string(&self) -> (s: String)
        ensures
            s@ == self.spec_display(),
    {
        let mut s = self.modifiers.to_string();
        let c = self.code.to_string();
        push_str(&mut s, c.as_str());
        s
    }

    /// Parse a key description such as `Ctrl-Shift-a`.
    ///
    /// The description is split on `-`. Leading parts that name modifiers (in any ASCII case)
    /// are collected; the first other part is lowercased and parsed as the key code. A
    /// description with no such part has an empty key code, which is an error.
    pub fn parse(s: &str) -> (res: Result<KeyEvent, KeyBindingError>)
        ensures
            match parse_key_code(key_part(s@)) {
                Some(code) => res == Ok::<KeyEvent, KeyBindingError>(
                    KeyEvent { code, modifiers: key_modifiers_of(s@) },
                ),
                None => res matches Err(KeyBindingError::InvalidKeys(msg)) && msg@
                    == key_code_error(key_part(s@)),
            },
    {
        let chars = chars_of(s);
        let parts = split_on(&chars, '-');
        let ghost all = split_char(s@, '-');
        let mut modifiers = KeyModifiers::none();
        let mut final_part: Option<String> = None;
        let ghost mut found: Seq<char> = seq![];
        proof {
            assert(all.skip(0) =~= all);
        }
        let mut i: usize = 0;
        while i < parts.len()
            invariant_except_break
                final_part is None,
            invariant
                i <= parts@.len(),
                parts@.len() == all.len(),
                forall|j: int| 0 <= j < parts@.len() ==> #[trigger] parts@[j]@ == all[j],
                scan_parts(all, 0) == scan_parts(all.skip(i as int), modifiers.0),
            ensures
                final_part is None ==> scan_parts(all, 0) == (modifiers.0, None::<Seq<char>>),
                final_part matches Some(p) ==> scan_parts(all, 0) == (modifiers.0, Some(found))
                    && p@ == lowercase_spec(found),
            decreases parts@.len() - i,
        {
            proof {
                assert(all.skip(i as int).drop_first() =~= all.skip(i + 1));
                assert(all.skip(i as int)[0] == parts@[i as int]@);
            }
            match modifier_from_chars(&parts[i]) {
                Some(m) => {
                    modifiers.insert(m);
                },
                None => {
                    let lowered = lowercase(&parts[i]);
                    final_part = Some(string_from_chars(lowered.as_slice()));
                    proof {
                        found = parts@[i as int]@;
                    }
                    break ;
                },
            }
            i += 1;
        }
        let code_text = match final_part {
            Some(p) => p,
            None => String::new(),
        };
        let code = KeyCode::parse(code_text.as_str());
        match code {
            Ok(code) => Ok(KeyEvent::new(code, modifiers)),
            Err(e) => Err(e),
        }
    }
}

impl FromStr for KeyEvent {
    type Err = KeyBindingError;

    fn from_str(s: &str) -> Result<Self, Self::Err> {
        KeyEvent::parse(s)
    }
}

// ---------------------------------------------------------------------------------------------
// Laws
// ---------------------------------------------------------------------------------------------

/// The key codes whose textual form parses back to them: ASCII characters, the F-keys `f1` to
/// `f12`, and every named key.
pub open spec fn code_round_trips(code: KeyCode) -> bool {
    match code {
        KeyCode::Char(c) => (c as u32) < 128,
        KeyCode::F(n) => 1 <= n <= 12,
        _ => true,
    }
}

/// Every character of a decimal rendering is a digit, and reading it back gives the number.
pub proof fn lemma_decimal_digits(n: nat)
    ensures
        decimal(n).len() >= 1,
        forall|i: int| 0 <= i < decimal(n).len() ==> is_digit(#[trigger] decimal(n)[i]),
        digits_value(decimal(n)) == n,
    decreases n,
{
    lemma_digit_char_value(n);
    if n < 10 {
        assert(decimal(n) =~= seq![digit_char(n)]);
        assert(decimal(n).drop_last() =~= Seq::<char>::empty());
        assert(n % 10 == n);
        assert(digits_value(Seq::<char>::empty()) == 0);
        assert(decimal(n).last() == digit_char(n));
        assert(digits_value(decimal(n)) == digits_value(decimal(n).drop_last()) * 10 + ((
        decimal(n).last() as u32) - 48) as nat);
    } else {
        lemma_decimal_digits(n / 10);
        let d = decimal(n);
        assert(d.drop_last() =~= decimal(n / 10));
        vstd::arithmetic::div_mod::lemma_fundamental_div_mod(n as int, 10);
        assert(d.last() == digit_char(n % 10));
        lemma_digit_char_value(n % 10);
        assert((n % 10) % 10 == n % 10);
        assert forall|i: int| 0 <= i < d.len() implies is_digit(#[trigger] d[i]) by {
            if i < d.len() - 1 {
                assert(d[i] == decimal(n / 10)[i]);
            }
        }
    }
}

/// Parsing the textual form of a key code gives the key code back, for every key code whose
/// form denotes it (see [`code_round_trips`]).
pub proof fn lemma_key_code_roundtrip(code: KeyCode)
    requires
        code_round_trips(code),
    ensures
        parse_key_code(code.spec_display()) == Some(code),
{
    reveal_strlit("backspace");
    reveal_strlit("enter");
    reveal_strlit("left");
    reveal_strlit("right");
    reveal_strlit("up");
    reveal_strlit("down");
    reveal_strlit("home");
    reveal_strlit("end");
    reveal_strlit("pageup");
    reveal_strlit("pagedown");
    reveal_strlit("tab");
    reveal_strlit("delete");
    reveal_strlit("insert");
    reveal_strlit("esc");
    let v = code.spec_display();
    match code {
        KeyCode::Char(c) => {
            assert(!is_fkey_form(v));
            assert(named_key(v) is None);
            assert(parse_key_code(v) == Some(code));
        },
        KeyCode::F(n) => {
            lemma_decimal_digits(n as nat);
            assert(v.skip(1) =~= decimal(n as nat));
            assert forall|i: int| 1 <= i < v.len() implies is_digit(#[trigger] v[i]) by {
                assert(v[i] == decimal(n as nat)[i - 1]);
            }
            assert(is_fkey_form(v));
            assert(digits_value(v.skip(1)) == n);
            assert(parse_key_code(v) == Some(code));
        },
        KeyCode::Backspace => {
            assert(v[0] != 'f' && v[0] != 'F');
        },
        KeyCode::Enter => {
            assert(v[0] != 'f' && v[0] != 'F');
            assert(v != "backspace"@);
        },
        KeyCode::Left => {
            assert(v[0] != 'f' && v[0] != 'F');
            assert(v != "backspace"@);
            assert(v != "enter"@);
        },
        KeyCode::Right => {
            assert(v[0] != 'f' && v[0] != 'F');
            assert(v != "backspace"@);
            assert(v != "enter"@);
            assert(v != "left"@);
        },
        KeyCode::Up => {
            assert(v[0] != 'f' && v[0] != 'F');
            assert(v != "backspace"@);
            assert(v != "enter"@);
            assert(v != "left"@);
            assert(v != "right"@);
        },
        KeyCode::Down => {
            assert(v[0] != 'f' && v[0] != 'F');
            assert(v != "backspace"@);
            assert(v != "enter"@);
            assert(v != "left"@);
            assert(v != "right"@);
            assert(v != "up"@);
        },
        KeyCode::Home => {
            assert(v[0] != 'f' && v[0] != 'F');
            assert(v != "backspace"@);
            assert(v != "enter"@);
            assert(v != "left"@);
            assert(v != "right"@);
            assert(v != "up"@);
            assert(v != "down"@);
        },
        KeyCode::End => {
            assert(v[0] != 'f' && v[0] != 'F');
            assert(v != "backspace"@);
            assert(v != "enter"@);
            assert(v != "left"@);
            assert(v != "right"@);
            assert(v != "up"@);
            assert(v != "down"@);
            assert(v != "home"@);
        },
        KeyCode::PageUp => {
            assert(v[0] != 'f' && v[0] != 'F');
            assert(v != "backspace"@);
            assert(v != "enter"@);
            assert(v != "left"@);
            assert(v != "right"@);
            assert(v != "up"@);
            assert(v != "down"@);
            assert(v != "home"@);
            assert(v != "end"@);
        },
        KeyCode::PageDown => {
            assert(v[0] != 'f' && v[0] != 'F');
            assert(v != "backspace"@);
            assert(v != "enter"@);
            assert(v != "left"@);
            assert(v != "right"@);
            assert(v != "up"@);
            assert(v != "down"@);
            assert(v != "home"@);
            assert(v != "end"@);
            assert(v != "pageup"@);
        },
        KeyCode::Tab => {
            assert(v[0] != 'f' && v[0] != 'F');
            assert(v != "backspace"@);
            assert(v != "enter"@);
            assert(v != "left"@);
            assert(v != "right"@);
            assert(v != "up"@);
            assert(v != "down"@);
            assert(v != "home"@);
            assert(v != "end"@);
            assert(v != "pageup"@);
            assert(v != "pagedown"@);
        },
        KeyCode::Delete => {
            assert(v[0] != 'f' && v[0] != 'F');
            assert(v != "backspace"@);
            assert(v != "enter"@);
            assert(v != "left"@);
            assert(v != "right"@);
            assert(v != "up"@);
            assert(v != "down"@);
            assert(v != "home"@);
            assert(v != "end"@);
            assert(v != "pageup"@);
            assert(v != "pagedown"@);
            assert(v != "tab"@);
        },
        KeyCode::Insert => {
            assert(v[0] != 'f' && v[0] != 'F');
            assert(v != "backspace"@);
            assert(v != "enter"@);
            assert(v != "left"@);
            assert(v != "right"@);
            assert(v != "up"@);
            assert(v != "down"@);
            assert(v != "home"@);
            assert(v != "end"@);
            assert(v != "pageup"@);
            assert(v != "pagedown"@);
            assert(v != "tab"@);
            assert(v != "delete"@);
        },
        KeyCode::Esc => {
            assert(v[0] != 'f' && v[0] != 'F');
            assert(v != "backspace"@);
            assert(v != "enter"@);
            assert(v != "left"@);
            assert(v != "right"@);
            assert(v != "up"@);
            assert(v != "down"@);
            assert(v != "home"@);
            assert(v != "end"@);
            assert(v != "pageup"@);
            assert(v != "pagedown"@);
            assert(v != "tab"@);
            assert(v != "delete"@);
            assert(v != "insert"@);
        },
    }
}

/// The key events whose textual form parses back to them: no modifier bits besides ctrl, shift
/// and alt, a key code that round trips, no uppercase ASCII letter (parsing lowercases the key),
/// and not the `-` key (the separator of the textual form).
pub open spec fn event_round_trips(e: KeyEvent) -> bool {
    &&& e.modifiers.0 < 8
    &&& code_round_trips(e.code)
    &&& match e.code {
        KeyCode::Char(c) => !('A' <= c && c <= 'Z') && c != '-',
        _ => true,
    }
}

/// A digit character's code is 48 more than the digit.
pub proof fn lemma_digit_char_value(n: nat)
    ensures
        (digit_char(n) as u32) == (n % 10) + 48,
        is_digit(digit_char(n)),
{
    let d = (n % 10) + 48;
    assert(48 <= d < 58);
}

proof fn lemma_scan_step(name: Seq<char>, rest: Seq<Seq<char>>, m: u8)
    requires
        modifier_named(name) is Some,
    ensures
        scan_parts(seq![name] + rest, m) == scan_parts(rest, m | modifier_named(name).unwrap().0),
{
    let p = seq![name] + rest;
    assert(p[0] == name);
    assert(p.drop_first() =~= rest);
}

proof fn lemma_scan_last(t: Seq<char>, m: u8)
    requires
        modifier_named(t) is None,
    ensures
        scan_parts(seq![t], m) == (m, Some(t)),
{
    let p = seq![t];
    assert(p[0] == t);
    assert(p.drop_first() =~= Seq::<Seq<char>>::empty());
}

/// Splitting modifier names joined with dashes, followed by a final part, on `-` gives the
/// names and the final part back, when none of them holds a dash.
pub proof fn lemma_split_display(names: Seq<Seq<char>>, t: Seq<char>)
    requires
        forall|i: int| 0 <= i < names.len() ==> !(#[trigger] names[i]).contains('-'),
        !t.contains('-'),
    ensures
        split_char(joined_with_dashes(names) + t, '-') == names + seq![t],
    decreases names.len(),
{
    if names.len() == 0 {
        assert(joined_with_dashes(names) + t =~= t);
        crate::text::lemma_split_no_sep(t, '-');
        assert(names + seq![t] =~= seq![t]);
    } else {
        let ns = names.drop_last();
        let n = names.last();
        assert(!n.contains('-')) by {
            assert(n == names[names.len() - 1]);
        }
        lemma_split_display(ns, n);
        assert(joined_with_dashes(names) + t =~= (joined_with_dashes(ns) + n) + seq!['-'] + t);
        crate::text::lemma_split_concat(joined_with_dashes(ns) + n, t, '-');
        crate::text::lemma_split_no_sep(t, '-');
        assert(ns + seq![n] + seq![t] =~= names + seq![t]);
    }
}

/// Parsing the textual form of a key event gives the key event back, for every key event that
/// can be written unambiguously (see [`event_round_trips`]).
pub proof fn lemma_key_event_roundtrip(e: KeyEvent)
    requires
        event_round_trips(e),
    ensures
        parse_key_code(key_part(e.spec_display())) == Some(e.code),
        key_modifiers_of(e.spec_display()) == e.modifiers,
{
    reveal_strlit("ctrl");
    reveal_strlit("shift");
    reveal_strlit("alt");
    reveal_strlit("meta");
    reveal_strlit("backspace");
    reveal_strlit("enter");
    reveal_strlit("left");
    reveal_strlit("right");
    reveal_strlit("up");
    reveal_strlit("down");
    reveal_strlit("home");
    reveal_strlit("end");
    reveal_strlit("pageup");
    reveal_strlit("pagedown");
    reveal_strlit("tab");
    reveal_strlit("delete");
    reveal_strlit("insert");
    reveal_strlit("esc");
    let names = e.modifiers.spec_names();
    let t = e.code.spec_display();
    lemma_key_code_roundtrip(e.code);
    if let KeyCode::F(n) = e.code {
        lemma_decimal_digits(n as nat);
    }
    assert(!t.contains('-')) by {
        if t.contains('-') {
            let i = choose|i: int| 0 <= i < t.len() && t[i] == '-';
            if let KeyCode::F(n) = e.code {
                if i > 0 {
                    assert(t[i] == decimal(n as nat)[i - 1]);
                }
            }
        }
    }
    assert forall|i: int| 0 <= i < names.len() implies !(#[trigger] names[i]).contains('-') by {
        let n = names[i];
        if n.contains('-') {
            let j = choose|j: int| 0 <= j < n.len() && n[j] == '-';
        }
    }
    lemma_split_display(names, t);
    let parts = names + seq![t];
    assert(e.spec_display() == joined_with_dashes(names) + t);
    // The key code part is not a modifier name.
    assert(modifier_named(t) is None) by {
        let l = ascii_lower_seq(t);
        assert(l.len() == t.len());
        if let KeyCode::Char(c) = e.code {
            assert(l.len() == 1);
        } else if let KeyCode::F(n) = e.code {
            assert(l[0] == 'f');
        } else {
            assert(l =~= t);
        }
    }
    // The key code part is unchanged by lowercasing.
    assert(is_ascii_seq(t) && ascii_lower_seq(t) == t) by {
        if let KeyCode::F(n) = e.code {
            assert forall|i: int| 0 <= i < t.len() implies (t[i] as u32) < 128 by {
                if i > 0 {
                    assert(t[i] == decimal(n as nat)[i - 1]);
                    assert(is_digit(decimal(n as nat)[i - 1]));
                }
            }
            assert forall|i: int| 0 <= i < t.len() implies ascii_lower(t[i]) == t[i] by {
                if i > 0 {
                    assert(t[i] == decimal(n as nat)[i - 1]);
                    assert(is_digit(decimal(n as nat)[i - 1]));
                }
            }
        }
        assert(ascii_lower_seq(t) =~= t);
    }
    let m = e.modifiers.0;
    let c = m & CONTROL_BITS == CONTROL_BITS;
    let s = m & SHIFT_BITS == SHIFT_BITS;
    let a = m & ALT_BITS == ALT_BITS;
    assert(ascii_lower_seq("ctrl"@) =~= "ctrl"@);
    assert(ascii_lower_seq("shift"@) =~= "shift"@);
    assert(ascii_lower_seq("alt"@) =~= "alt"@);
    let m0: u8 = if c { 2u8 } else { 0u8 };
    let m1: u8 = m0 | (if s { 1u8 } else { 0u8 });
    let m2: u8 = m1 | (if a { 4u8 } else { 0u8 });
    assert(modifier_named("ctrl"@) == Some(KeyModifiers(CONTROL_BITS)));
    assert(modifier_named("shift"@) == Some(KeyModifiers(SHIFT_BITS))) by {
        assert("shift"@ != "ctrl"@);
    }
    assert(modifier_named("alt"@) == Some(KeyModifiers(ALT_BITS))) by {
        assert("alt"@ != "ctrl"@);
        assert("alt"@ != "shift"@);
    }
    let names_c: Seq<Seq<char>> = if c { seq!["ctrl"@] } else { seq![] };
    let names_s: Seq<Seq<char>> = if s { seq!["shift"@] } else { seq![] };
    let names_a: Seq<Seq<char>> = if a { seq!["alt"@] } else { seq![] };
    assert(names == names_c + names_s + names_a);
    lemma_scan_last(t, m2);
    assert(scan_parts(names_a + seq![t], m1) == (m2, Some(t))) by {
        if a {
            assert(names_a + seq![t] =~= seq!["alt"@] + seq![t]);
            lemma_scan_step("alt"@, seq![t], m1);
        } else {
            assert(names_a + seq![t] =~= seq![t]);
            assert(m1 | 0u8 == m1) by (bit_vector);
        }
    }
    assert(scan_parts(names_s + names_a + seq![t], m0) == (m2, Some(t))) by {
        if s {
            assert(names_s + names_a + seq![t] =~= seq!["shift"@] + (names_a + seq![t]));
            lemma_scan_step("shift"@, names_a + seq![t], m0);
        } else {
            assert(names_s + names_a + seq![t] =~= names_a + seq![t]);
            assert(m0 | 0u8 == m0) by (bit_vector);
        }
    }
    assert(scan_parts(parts, 0) == (m2, Some(t))) by {
        if c {
            assert(parts =~= seq!["ctrl"@] + (names_s + names_a + seq![t]));
            lemma_scan_step("ctrl"@, names_s + names_a + seq![t], 0);
            assert(0u8 | 2u8 == 2u8) by (bit_vector);
        } else {
            assert(parts =~= names_s + names_a + seq![t]);
        }
    }
    assert(((if c { 2u8 } else { 0u8 }) | (if s { 1u8 } else { 0u8 }) | (if a { 4u8 } else {
        0u8
    })) == m) by (bit_vector)
        requires
            m < 8,
            c == (m & 2 == 2),
            s == (m & 1 == 1),
            a == (m & 4 == 4),
    ;
}

/// Inserting modifiers makes them present and keeps every modifier that was present.
pub proof fn lemma_insert_contains(m: KeyModifiers, other: KeyModifiers, kept: KeyModifiers)
    ensures
        KeyModifiers(m.0 | other.0).spec_contains(other),
        m.spec_contains(kept) ==> KeyModifiers(m.0 | other.0).spec_contains(kept),
{
    let (a, b, k) = (m.0, other.0, kept.0);
    assert(((a | b) & b) == b) by (bit_vector);
    assert((a & k) == k ==> ((a | b) & k) == k) by (bit_vector);
}

/// No modifier is present in the empty set of modifiers, except the empty set itself.
pub proof fn lemma_none_contains(other: KeyModifiers)
    ensures
        KeyModifiers(0).spec_contains(other) <==> other.0 == 0,
{
    let b = other.0;
    assert(((0u8 & b) == b) <==> b == 0) by (bit_vector);
}

} // verus!
