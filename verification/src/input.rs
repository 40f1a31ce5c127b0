//! The line-input editor: the line being typed, its cursor, echo state and markup.

use vstd::prelude::*;

use crate::keyboard::KeyCode;
use crate::model::InputLine;
use crate::text::{chars_of, owned, push_char, push_str, string_from_chars};

use crate::shortcut::InputShortcut;

verus! {

/// Whether typed input is shown, or masked as a password.
#[derive(Debug, Copy, Clone, Default, Eq, PartialEq, Structural)]
pub enum EchoState {
    #[default]
    Enabled,
    Password,
}

impl EchoState {
    /// The textual form, `echo state: enabled` or `echo state: password`.
    pub open spec fn spec_display(self) -> Seq<char> {
        match self {
            EchoState::Enabled => "echo state: enabled"@,
            EchoState::Password => "echo state: password"@,
        }
    }

    /// The textual form of the echo state.
    pub fn to_string(&self) -> (s: String)
        ensures
            s@ == self.spec_display(),
    {
        match self {
            EchoState::Enabled => owned("echo state: enabled"),
            EchoState::Password => owned("echo state: password"),
        }
    }
}

impl From<EchoState> for bool {
    /// Whether input is echoed.
    fn from(state: EchoState) -> (b: bool) {
        match state {
            EchoState::Enabled => true,
            EchoState::Password => false,
        }
    }
}

impl vstd::std_specs::convert::FromSpecImpl<EchoState> for bool {
    open spec fn obeys_from_spec() -> bool {
        true
    }

    open spec fn from_spec(state: EchoState) -> bool {
        state == EchoState::Enabled
    }
}

/// Whether a character is alphabetic or numeric, as `char::is_alphanumeric` decides.
pub uninterp spec fn is_alnum(c: char) -> bool;

/// `char::is_alphanumeric`, named by `is_alnum`.
#[verifier::external_body]
fn alphanumeric(c: char) -> (b: bool)
    ensures
        b == is_alnum(c),
{
    c.is_alphanumeric()
}

/// The display width of a character, as `UnicodeWidthChar::width` measures it (none for
/// control characters).
pub uninterp spec fn char_width(c: char) -> Option<usize>;

/// `unicode_width::UnicodeWidthChar::width`, named by `char_width`.
#[verifier::external_body]
fn width_of_char(c: char) -> (w: Option<usize>)
    ensures
        w == char_width(c),
{
    unicode_width::UnicodeWidthChar::width(c)
}

/// The display width of a text, as `UnicodeWidthStr::width` measures it.
pub uninterp spec fn text_width(s: Seq<char>) -> usize;

/// `unicode_width::UnicodeWidthStr::width`, named by `text_width`.
#[verifier::external_body]
pub(crate) fn width_of_text(s: &str) -> (w: usize)
    ensures
        w == text_width(s@),
{
    unicode_width::UnicodeWidthStr::width(s)
}

/// A markup token shown at a character position of the input.
#[derive(Debug, Clone, PartialEq, Eq)]
pub struct MarkupToken {
    pub pos: usize,
    pub token: String,
}

/// The positions of the tokens strictly increase.
pub open spec fn tokens_sorted(t: Seq<MarkupToken>) -> bool {
    forall|i: int, j: int| 0 <= i < j < t.len() ==> t[i].pos < t[j].pos
}

/// The markup tokens of an input, by increasing position, at most one per position.
#[derive(Debug, Default, Clone)]
pub struct Markup {
    tokens: Vec<MarkupToken>,
}

impl View for Markup {
    type V = Seq<MarkupToken>;

    closed spec fn view(&self) -> Seq<MarkupToken> {
        self.tokens@
    }
}

/// The tokens with `t` placed at its position: it replaces the token at that position, or is
/// inserted before the first token after it.
pub open spec fn markup_added(m: Seq<MarkupToken>, t: MarkupToken) -> Seq<MarkupToken> {
    let k = first_at_or_after(m, t.pos);
    if k < m.len() && m[k].pos == t.pos {
        m.update(k, t)
    } else {
        m.insert(k, t)
    }
}

/// The tokens without the one at `pos`, if there is one.
pub open spec fn markup_removed(m: Seq<MarkupToken>, pos: usize) -> Seq<MarkupToken> {
    let k = first_at_or_after(m, pos);
    if k < m.len() && m[k].pos == pos {
        m.remove(k)
    } else {
        m
    }
}

impl Markup {
    /// The tokens, by increasing position.
    pub fn tokens(&self) -> (t: &[MarkupToken])
        ensures
            t@ == self@,
    {
        self.tokens.as_slice()
    }

    /// The position in the tokens of the first one at or after `pos`.
    fn seek(&self, pos: usize) -> (k: usize)
        requires
            tokens_sorted(self@),
        ensures
            k == first_at_or_after(self@, pos),
            k <= self@.len(),
            forall|i: int| 0 <= i < k ==> self@[i].pos < pos,
            forall|i: int| k <= i < self@.len() ==> self@[i].pos >= pos,
    {
        let ghost m = self.tokens@;
        proof {
            lemma_first_at_or_after(m, pos);
        }
        let mut k: usize = 0;
        proof {
            assert(m.skip(0) =~= m);
        }
        while k < self.tokens.len() && self.tokens[k].pos < pos
            invariant
                self.tokens@ == m,
                k <= m.len(),
                first_at_or_after(m, pos) == k + first_at_or_after(m.skip(k as int), pos),
            decreases m.len() - k,
        {
            proof {
                assert(m.skip(k as int).drop_first() =~= m.skip(k + 1));
            }
            k += 1;
        }
        proof {
            if k < m.len() {
                assert(m.skip(k as int)[0] == m[k as int]);
            }
        }
        k
    }

    /// Place a token at its position, replacing the token there.
    pub fn add(&mut self, t: MarkupToken)
        requires
            tokens_sorted(old(self)@),
        ensures
            tokens_sorted(final(self)@),
            final(self)@ == markup_added(old(self)@, t),
    {
        let ghost m = self.tokens@;
        let pos = t.pos;
        let k = self.seek(pos);
        if k < self.tokens.len() && self.tokens[k].pos == pos {
            self.tokens.set(k, t);
        } else {
            self.tokens.insert(k, t);
        }
        proof {
            let f = self.tokens@;
            assert forall|i: int, j: int| 0 <= i < j < f.len() implies f[i].pos < f[j].pos by {
                if k < m.len() && m[k as int].pos == pos {
                    if i != k && j != k {
                        assert(f[i] == m[i] && f[j] == m[j]);
                    } else if i == k {
                        assert(f[j] == m[j]);
                    } else {
                        assert(f[i] == m[i]);
                    }
                } else {
                    if j < k {
                        assert(f[i] == m[i] && f[j] == m[j]);
                    } else if j == k {
                        assert(f[i] == m[i]);
                    } else if i < k {
                        assert(f[i] == m[i] && f[j] == m[j - 1]);
                    } else if i == k {
                        assert(f[j] == m[j - 1]);
                    } else {
                        assert(f[i] == m[i - 1] && f[j] == m[j - 1]);
                    }
                }
            }
        }
    }

    /// Remove the token at `pos`, if there is one.
    pub fn remove(&mut self, pos: usize)
        requires
            tokens_sorted(old(self)@),
        ensures
            tokens_sorted(final(self)@),
            final(self)@ == markup_removed(old(self)@, pos),
    {
        let ghost m = self.tokens@;
        let k = self.seek(pos);
        if k < self.tokens.len() && self.tokens[k].pos == pos {
            self.tokens.remove(k);
            proof {
                let f = self.tokens@;
                assert forall|i: int, j: int| 0 <= i < j < f.len() implies f[i].pos < f[j].pos by {
                    let oi = if i < k { i } else { i + 1 };
                    let oj = if j < k { j } else { j + 1 };
                    assert(f[i] == m[oi] && f[j] == m[oj]);
                }
            }
        }
    }

    /// Remove every token.
    pub fn clear_all(&mut self)
        ensures
            final(self)@ == Seq::<MarkupToken>::empty(),
    {
        self.tokens.clear();
    }
}

/// The mathematical model of the input editor.
pub struct InputView {
    /// The characters of the line being typed.
    pub text: Seq<char>,
    /// The original text of the line, when an alias replaced it.
    pub original: Option<Seq<char>>,
    /// Whether the line is shown, or masked.
    pub echo: EchoState,
    /// Whether a script produced the line.
    pub scripted: bool,
    /// The echo state the telnet connection asked for.
    pub telnet_echo: EchoState,
    /// The cursor, as a character index.
    pub cursor: nat,
    /// The markup tokens, by increasing position.
    pub markup: Seq<MarkupToken>,
}

/// The line-input editor.
#[derive(Debug, Default, Clone)]
pub struct Input {
    line: InputLine,
    telnet_echo: EchoState,
    markup: Markup,
    cursor: usize,
}

impl View for Input {
    type V = InputView;

    closed spec fn view(&self) -> InputView {
        InputView {
            text: self.line.sent@,
            original: match self.line.original {
                Some(o) => Some(o@),
                None => None,
            },
            echo: self.line.echo,
            scripted: self.line.scripted,
            telnet_echo: self.telnet_echo,
            cursor: self.cursor as nat,
            markup: self.markup@,
        }
    }
}

/// The index after walking back from `j` over characters that are not alphanumeric.
pub open spec fn back_over_non_alnum(s: Seq<char>, j: int) -> int
    decreases j,
{
    if j <= 0 || j > s.len() {
        if j <= 0 {
            0
        } else {
            j
        }
    } else if !is_alnum(s[j - 1]) {
        back_over_non_alnum(s, j - 1)
    } else {
        j
    }
}

/// The index after walking back from `j` over alphanumeric characters.
pub open spec fn back_over_alnum(s: Seq<char>, j: int) -> int
    decreases j,
{
    if j <= 0 || j > s.len() {
        if j <= 0 {
            0
        } else {
            j
        }
    } else if is_alnum(s[j - 1]) {
        back_over_alnum(s, j - 1)
    } else {
        j
    }
}

/// The index after walking forward from `j` over alphanumeric characters.
pub open spec fn forward_over_alnum(s: Seq<char>, j: int) -> int
    decreases s.len() - j,
{
    if j < 0 || j >= s.len() {
        j
    } else if is_alnum(s[j]) {
        forward_over_alnum(s, j + 1)
    } else {
        j
    }
}

/// The index after walking forward from `j` over characters that are not alphanumeric.
pub open spec fn forward_over_non_alnum(s: Seq<char>, j: int) -> int
    decreases s.len() - j,
{
    if j < 0 || j >= s.len() {
        j
    } else if !is_alnum(s[j]) {
        forward_over_non_alnum(s, j + 1)
    } else {
        j
    }
}

/// Where the word before the cursor starts: back over separators, then over the word.
pub open spec fn word_left(s: Seq<char>, cursor: int) -> int {
    back_over_alnum(s, back_over_non_alnum(s, cursor))
}

/// Where the next word after the cursor starts: forward over the rest of the current word,
/// then over separators.
pub open spec fn word_right(s: Seq<char>, cursor: int) -> int {
    forward_over_non_alnum(s, forward_over_alnum(s, cursor))
}

/// The content with the tokens (by increasing position, from `from` on) placed before the
/// characters at their positions; tokens beyond the end are left out.
pub open spec fn decorate(content: Seq<char>, tokens: Seq<MarkupToken>, from: int) -> Seq<char>
    decreases tokens.len(),
{
    if tokens.len() == 0 || tokens[0].pos > content.len() {
        content.skip(from)
    } else {
        content.subrange(from, tokens[0].pos as int) + tokens[0].token@ + decorate(
            content,
            tokens.drop_first(),
            tokens[0].pos as int,
        )
    }
}

/// The text the input shows: the line (or, when it is empty, its original text), masked
/// with one `*` per character when echo is off, with the markup placed in it.
pub open spec fn decorated(v: InputView) -> Seq<char> {
    let content = if v.text.len() > 0 {
        Some(v.text)
    } else {
        v.original
    };
    match content {
        None => Seq::empty(),
        Some(c) => {
            let shown = match v.echo {
                EchoState::Password => Seq::new(c.len(), |i: int| '*'),
                EchoState::Enabled => c,
            };
            if v.markup.len() == 0 {
                shown
            } else {
                decorate(shown, v.markup, 0)
            }
        },
    }
}

/// Edits the keyboard can ask of the input.
#[derive(Debug, Clone, Copy, PartialEq, Eq, Structural)]
pub enum Edit {
    DeletePrev,
    DeleteNext,
    CursorLeft,
    CursorWordLeft,
    CursorRight,
    CursorWordRight,
    Reset,
    DeleteWordLeft,
    DeleteWordRight,
    DeleteToEnd,
    CursorStart,
    CursorEnd,
    Insert(char),
}

/// No modifier held (terminal modifier bits).
pub const MOD_NONE: u8 = 0;

/// The shift modifier (terminal modifier bits).
pub const MOD_SHIFT: u8 = 1;

/// The control modifier (terminal modifier bits).
pub const MOD_CONTROL: u8 = 2;

/// The meta modifier (terminal modifier bits).
pub const MOD_META: u8 = 32;

/// The edit a key press asks for, with the modifiers given as terminal modifier bits: the
/// usual line editing keys, emacs style control and meta chords, and plain or shifted
/// characters for insertion.
pub open spec fn edit_for_key(code: KeyCode, mods: u8) -> Option<Edit> {
    if (code == KeyCode::Backspace && mods == MOD_NONE) || (code == KeyCode::Char('h') && mods
        == MOD_CONTROL) {
        Some(Edit::DeletePrev)
    } else if code == KeyCode::Delete && mods == MOD_NONE {
        Some(Edit::DeleteNext)
    } else if (code == KeyCode::Left && mods == MOD_NONE) || (code == KeyCode::Char('b') && mods
        == MOD_CONTROL) {
        Some(Edit::CursorLeft)
    } else if (code == KeyCode::Left && mods == MOD_CONTROL) || (code == KeyCode::Char('b') && mods
        == MOD_META) {
        Some(Edit::CursorWordLeft)
    } else if (code == KeyCode::Right && mods == MOD_NONE) || (code == KeyCode::Char('f') && mods
        == MOD_CONTROL) {
        Some(Edit::CursorRight)
    } else if (code == KeyCode::Right && mods == MOD_CONTROL) || (code == KeyCode::Char('f')
        && mods == MOD_META) {
        Some(Edit::CursorWordRight)
    } else if code == KeyCode::Char('u') && mods == MOD_CONTROL {
        Some(Edit::Reset)
    } else if (code == KeyCode::Char('w') && mods == MOD_CONTROL) || ((code == KeyCode::Char('d')
        || code == KeyCode::Backspace) && mods == MOD_META) {
        Some(Edit::DeleteWordLeft)
    } else if code == KeyCode::Delete && mods == MOD_CONTROL {
        Some(Edit::DeleteWordRight)
    } else if code == KeyCode::Char('k') && mods == MOD_CONTROL {
        Some(Edit::DeleteToEnd)
    } else if (code == KeyCode::Char('a') && mods == MOD_CONTROL) || (code == KeyCode::Home && mods
        == MOD_NONE) {
        Some(Edit::CursorStart)
    } else if (code == KeyCode::Char('e') && mods == MOD_CONTROL) || (code == KeyCode::End && mods
        == MOD_NONE) {
        Some(Edit::CursorEnd)
    } else {
        match code {
            KeyCode::Char(c) => if mods == MOD_NONE || mods == MOD_SHIFT {
                Some(Edit::Insert(c))
            } else {
                None
            },
            _ => None,
        }
    }
}

/// The edit a key press asks for (see [`edit_for_key`]).
pub fn key_edit(code: KeyCode, mods: u8) -> (e: Option<Edit>)
    ensures
        e == edit_for_key(code, mods),
{
    if (code == KeyCode::Backspace && mods == MOD_NONE) || (code == KeyCode::Char('h') && mods
        == MOD_CONTROL) {
        Some(Edit::DeletePrev)
    } else if code == KeyCode::Delete && mods == MOD_NONE {
        Some(Edit::DeleteNext)
    } else if (code == KeyCode::Left && mods == MOD_NONE) || (code == KeyCode::Char('b') && mods
        == MOD_CONTROL) {
        Some(Edit::CursorLeft)
    } else if (code == KeyCode::Left && mods == MOD_CONTROL) || (code == KeyCode::Char('b') && mods
        == MOD_META) {
        Some(Edit::CursorWordLeft)
    } else if (code == KeyCode::Right && mods == MOD_NONE) || (code == KeyCode::Char('f') && mods
        == MOD_CONTROL) {
        Some(Edit::CursorRight)
    } else if (code == KeyCode::Right && mods == MOD_CONTROL) || (code == KeyCode::Char('f')
        && mods == MOD_META) {
        Some(Edit::CursorWordRight)
    } else if code == KeyCode::Char('u') && mods == MOD_CONTROL {
        Some(Edit::Reset)
    } else if (code == KeyCode::Char('w') && mods == MOD_CONTROL) || ((code == KeyCode::Char('d')
        || code == KeyCode::Backspace) && mods == MOD_META) {
        Some(Edit::DeleteWordLeft)
    } else if code == KeyCode::Delete && mods == MOD_CONTROL {
        Some(Edit::DeleteWordRight)
    } else if code == KeyCode::Char('k') && mods == MOD_CONTROL {
        Some(Edit::DeleteToEnd)
    } else if (code == KeyCode::Char('a') && mods == MOD_CONTROL) || (code == KeyCode::Home && mods
        == MOD_NONE) {
        Some(Edit::CursorStart)
    } else if (code == KeyCode::Char('e') && mods == MOD_CONTROL) || (code == KeyCode::End && mods
        == MOD_NONE) {
        Some(Edit::CursorEnd)
    } else {
        match code {
            KeyCode::Char(c) => if mods == MOD_NONE || mods == MOD_SHIFT {
                Some(Edit::Insert(c))
            } else {
                None
            },
            _ => None,
        }
    }
}

/// Walk back from `j` over characters that are not alphanumeric.
fn walk_back_non_alnum(s: &Vec<char>, j: usize) -> (r: usize)
    requires
        j <= s@.len(),
    ensures
        r == back_over_non_alnum(s@, j as int),
        r <= j,
{
    let mut k = j;
    while k > 0 && !alphanumeric(s[k - 1])
        invariant
            k <= j <= s@.len(),
            back_over_non_alnum(s@, j as int) == back_over_non_alnum(s@, k as int),
        decreases k,
    {
        k -= 1;
    }
    k
}

/// Walk back from `j` over alphanumeric characters.
fn walk_back_alnum(s: &Vec<char>, j: usize) -> (r: usize)
    requires
        j <= s@.len(),
    ensures
        r == back_over_alnum(s@, j as int),
        r <= j,
{
    let mut k = j;
    while k > 0 && alphanumeric(s[k - 1])
        invariant
            k <= j <= s@.len(),
            back_over_alnum(s@, j as int) == back_over_alnum(s@, k as int),
        decreases k,
    {
        k -= 1;
    }
    k
}

/// Walk forward from `j` over alphanumeric characters.
fn walk_forward_alnum(s: &Vec<char>, j: usize) -> (r: usize)
    requires
        j <= s@.len(),
    ensures
        r == forward_over_alnum(s@, j as int),
        j <= r <= s@.len(),
{
    let mut k = j;
    while k < s.len() && alphanumeric(s[k])
        invariant
            j <= k <= s@.len(),
            forward_over_alnum(s@, j as int) == forward_over_alnum(s@, k as int),
        decreases s@.len() - k,
    {
        k += 1;
    }
    k
}

/// Walk forward from `j` over characters that are not alphanumeric.
fn walk_forward_non_alnum(s: &Vec<char>, j: usize) -> (r: usize)
    requires
        j <= s@.len(),
    ensures
        r == forward_over_non_alnum(s@, j as int),
        j <= r <= s@.len(),
{
    let mut k = j;
    while k < s.len() && !alphanumeric(s[k])
        invariant
            j <= k <= s@.len(),
            forward_over_non_alnum(s@, j as int) == forward_over_non_alnum(s@, k as int),
        decreases s@.len() - k,
    {
        k += 1;
    }
    k
}

/// A copy of `s[from..to]`.
fn slice_chars(s: &Vec<char>, from: usize, to: usize) -> (r: Vec<char>)
    requires
        from <= to <= s@.len(),
    ensures
        r@ == s@.subrange(from as int, to as int),
{
    let mut r: Vec<char> = Vec::new();
    let mut i: usize = from;
    while i < to
        invariant
            from <= i <= to <= s@.len(),
            r@ == s@.subrange(from as int, i as int),
        decreases to - i,
    {
        r.push(s[i]);
        i += 1;
        proof {
            assert(r@ =~= s@.subrange(from as int, i as int));
        }
    }
    r
}

/// The scroll that brings a position `target` columns in view, moving by `w` columns at a
/// time.
pub open spec fn scroll_steps(target: int, w: int) -> int
    decreases target,
    when w > 0
{
    if target <= 0 {
        0
    } else if target <= w {
        w
    } else {
        w + scroll_steps(target - w, w)
    }
}

impl Input {
    /// The input is well formed: the cursor is within the line and the markup is sorted.
    pub closed spec fn wf(&self) -> bool {
        &&& self.cursor <= self.line.sent@.len()
        &&& tokens_sorted(self.markup@)
    }

    /// An empty input with echo on.
    pub fn new() -> (i: Input)
        ensures
            i.wf(),
            i@ == (InputView {
                text: Seq::empty(),
                original: None,
                echo: EchoState::Enabled,
                scripted: false,
                telnet_echo: EchoState::Enabled,
                cursor: 0,
                markup: Seq::empty(),
            }),
    {
        let i = Input {
            line: InputLine {
                sent: String::new(),
                original: None,
                echo: EchoState::Enabled,
                scripted: false,
            },
            telnet_echo: EchoState::Enabled,
            markup: Markup { tokens: Vec::new() },
            cursor: 0,
        };
        proof {
            assert(i@.text =~= Seq::<char>::empty());
            assert(i@.markup =~= Seq::<MarkupToken>::empty());
        }
        i
    }

    /// The line being typed.
    pub fn value(&self) -> (l: InputLine)
        ensures
            l == self.line_value(),
            l.sent@ == self@.text,
            l.echo == self@.echo,
            l.scripted == self@.scripted,
            match l.original {
                Some(o) => self@.original == Some(o@),
                None => self@.original is None,
            },
    {
        self.line.duplicate()
    }

    /// The line being typed.
    pub closed spec fn line_value(&self) -> InputLine {
        self.line
    }

    /// The cursor, as a character index.
    pub fn cursor(&self) -> (c: usize)
        ensures
            c == self@.cursor,
    {
        self.cursor
    }

    /// The echo state the telnet connection asked for.
    pub fn telnet_echo(&self) -> (e: EchoState)
        ensures
            e == self@.telnet_echo,
    {
        self.telnet_echo
    }

    /// The characters of the line.
    fn chars(&self) -> (v: Vec<char>)
        ensures
            v@ == self@.text,
    {
        chars_of(self.line.sent.as_str())
    }

    /// The display width of the line before the cursor.
    pub fn visual_cursor(&self) -> (w: usize)
        requires
            self.wf(),
        ensures
            w == if self@.cursor == 0 {
                0
            } else {
                text_width(self@.text.take(self@.cursor as int))
            },
    {
        if self.cursor == 0 {
            return 0;
        }
        let v = self.chars();
        let prefix = slice_chars(&v, 0, self.cursor);
        proof {
            assert(v@.subrange(0, self.cursor as int) =~= v@.take(self.cursor as int));
        }
        let s = string_from_chars(prefix.as_slice());
        width_of_text(s.as_str())
    }

    /// How far to scroll the line, a first character's width at a time, to bring the cursor
    /// into a view `width` columns wide.
    pub fn visual_scroll(&self, width: usize) -> (scroll: usize)
        requires
            self.wf(),
            ({
                let vc = if self@.cursor == 0 {
                    0
                } else {
                    text_width(self@.text.take(self@.cursor as int)) as int
                };
                let target = if vc > width {
                    vc - width
                } else {
                    0
                };
                target > 0 && self@.text.len() > 0 ==> (char_width(self@.text[0]) matches Some(w)
                    && w > 0 && target + w <= usize::MAX)
            }),
        ensures
            ({
                let vc = if self@.cursor == 0 {
                    0
                } else {
                    text_width(self@.text.take(self@.cursor as int)) as int
                };
                let target = if vc > width {
                    vc - width
                } else {
                    0
                };
                scroll == if target == 0 || self@.text.len() == 0 {
                    0
                } else {
                    scroll_steps(target, char_width(self@.text[0]).unwrap() as int)
                }
            }),
    {
        let vc = self.visual_cursor();
        let target: usize = if vc > width {
            vc - width
        } else {
            0
        };
        if target == 0 {
            return 0;
        }
        let v = self.chars();
        if v.len() == 0 {
            return 0;
        }
        let w = match width_of_char(v[0]) {
            Some(w) => w,
            None => 0,
        };
        let mut scroll: usize = 0;
        while scroll < target
            invariant
                w > 0,
                target + w <= usize::MAX,
                scroll <= target + w,
                scroll + scroll_steps(target - scroll, w as int) == scroll_steps(target as int, w as int),
            decreases target + w - scroll,
        {
            scroll = scroll + w;
        }
        scroll
    }

    /// How far to scroll the line to bring the cursor into a view `width` columns wide (see
    /// [`Input::visual_scroll`]), or nothing when the scroll would never get there: the
    /// cursor is out of view but the first character takes no columns.
    pub fn visual_scroll_checked(&self, width: usize) -> (scroll: Option<usize>)
        requires
            self.wf(),
        ensures
            ({
                let vc = if self@.cursor == 0 {
                    0
                } else {
                    text_width(self@.text.take(self@.cursor as int)) as int
                };
                let target = if vc > width {
                    vc - width
                } else {
                    0
                };
                let ok = target > 0 && self@.text.len() > 0 ==> (char_width(self@.text[0]) matches Some(
                    w,
                ) && w > 0 && target + w <= usize::MAX);
                &&& scroll is Some <==> ok
                &&& scroll matches Some(n) ==> n == if target == 0 || self@.text.len() == 0 {
                    0
                } else {
                    scroll_steps(target, char_width(self@.text[0]).unwrap() as int)
                }
            }),
    {
        let vc = self.visual_cursor();
        let target: usize = if vc > width {
            vc - width
        } else {
            0
        };
        if target > 0 {
            let v = self.chars();
            if v.len() > 0 {
                match width_of_char(v[0]) {
                    Some(w) => {
                        if w == 0 || w > usize::MAX - target {
                            return None;
                        }
                    },
                    None => return None,
                }
            }
        }
        Some(self.visual_scroll(width))
    }

    /// Clear the line, its original text and its echo state, and put the cursor at the start.
    pub fn reset(&mut self)
        requires
            old(self).wf(),
        ensures
            final(self).wf(),
            final(self)@ == (InputView {
                text: Seq::empty(),
                original: None,
                echo: EchoState::Enabled,
                cursor: 0,
                ..old(self)@
            }),
    {
        self.line.sent = String::new();
        self.line.original = None;
        self.line.echo = EchoState::Enabled;
        self.cursor = 0;
    }

    /// Take the line for sending: nothing if it is empty; otherwise the line (not scripted,
    /// without original text), leaving an empty line with the telnet echo state and the
    /// cursor at the start.
    pub fn pop(&mut self) -> (r: Option<InputLine>)
        requires
            old(self).wf(),
        ensures
            final(self).wf(),
            old(self)@.text.len() == 0 ==> r is None && final(self)@ == old(self)@,
            old(self)@.text.len() > 0 ==> {
                &&& r matches Some(l) && l.sent@ == old(self)@.text && l.echo == old(self)@.echo
                    && l.original is None && !l.scripted
                &&& final(self)@ == (InputView {
                    text: Seq::empty(),
                    echo: old(self)@.telnet_echo,
                    cursor: 0,
                    ..old(self)@
                })
            },
    {
        if chars_of(self.line.sent.as_str()).len() == 0 {
            return None;
        }
        self.cursor = 0;
        let mut sent = String::new();
        std::mem::swap(&mut sent, &mut self.line.sent);
        let echo = self.line.echo;
        self.line.echo = self.telnet_echo;
        Some(InputLine { sent, echo, original: None, scripted: false })
    }

    /// Replace the line, putting the cursor at its end.
    pub fn set_value(&mut self, value: InputLine)
        requires
            old(self).wf(),
        ensures
            final(self).wf(),
            final(self).line_value() == value,
            final(self)@.text == value.sent@,
            final(self)@.echo == value.echo,
            final(self)@.scripted == value.scripted,
            final(self)@.original == match value.original {
                Some(o) => Some(o@),
                None => None::<Seq<char>>,
            },
            final(self)@.cursor == value.sent@.len(),
            final(self)@.telnet_echo == old(self)@.telnet_echo,
            final(self)@.markup == old(self)@.markup,
    {
        let n = chars_of(value.sent.as_str()).len();
        self.line = value;
        self.cursor = n;
    }

    /// Take the telnet echo state, for the line being typed too.
    pub fn set_telnet_echo(&mut self, echo: EchoState)
        requires
            old(self).wf(),
        ensures
            final(self).wf(),
            final(self)@ == (InputView { telnet_echo: echo, echo, ..old(self)@ }),
    {
        self.telnet_echo = echo;
        self.line.echo = echo;
    }

    /// Move the cursor to `pos`, or to the end of the line if that is nearer.
    pub fn set_cursor(&mut self, pos: usize)
        requires
            old(self).wf(),
        ensures
            final(self).wf(),
            final(self)@ == (InputView {
                cursor: if pos as nat <= old(self)@.text.len() {
                    pos as nat
                } else {
                    old(self)@.text.len()
                },
                ..old(self)@
            }),
            final(self).line_value() == old(self).line_value(),
    {
        let n = self.chars().len();
        self.cursor = if pos <= n {
            pos
        } else {
            n
        };
    }

    /// Replace the characters of the line.
    fn set_text(&mut self, v: &Vec<char>)
        ensures
            final(self)@ == (InputView { text: v@, ..old(self)@ }),
            final(self).line_value().original == old(self).line_value().original,
    {
        self.line.sent = string_from_chars(v.as_slice());
    }

    /// Insert a character at the cursor, and move the cursor past it.
    pub fn insert(&mut self, c: char)
        requires
            old(self).wf(),
            old(self)@.text.len() < usize::MAX,
        ensures
            final(self).wf(),
            final(self)@ == (InputView {
                text: old(self)@.text.insert(old(self)@.cursor as int, c),
                cursor: old(self)@.cursor + 1,
                ..old(self)@
            }),
    {
        let v = self.chars();
        let mut w = slice_chars(&v, 0, self.cursor);
        w.push(c);
        let rest = slice_chars(&v, self.cursor, v.len());
        let mut i: usize = 0;
        let ghost head = w@;
        while i < rest.len()
            invariant
                i <= rest@.len(),
                w@ == head + rest@.take(i as int),
            decreases rest@.len() - i,
        {
            w.push(rest[i]);
            i += 1;
            proof {
                assert(w@ =~= head + rest@.take(i as int));
            }
        }
        proof {
            assert(rest@.take(i as int) =~= rest@);
            assert(w@ =~= v@.insert(self.cursor as int, c));
        }
        self.set_text(&w);
        self.cursor = self.cursor + 1;
    }

    /// Type each character of `data` in turn.
    pub fn paste(&mut self, data: &str)
        requires
            old(self).wf(),
            old(self)@.text.len() + data@.len() < usize::MAX,
        ensures
            final(self).wf(),
            final(self)@ == (InputView {
                text: old(self)@.text.take(old(self)@.cursor as int) + data@ + old(self)@.text.skip(
                    old(self)@.cursor as int,
                ),
                cursor: old(self)@.cursor + data@.len(),
                ..old(self)@
            }),
    {
        let d = chars_of(data);
        let mut i: usize = 0;
        proof {
            let o = old(self)@;
            assert(o.text.take(o.cursor as int) + d@.take(0) + o.text.skip(o.cursor as int) =~= o.text);
        }
        while i < d.len()
            invariant
                i <= d@.len(),
                d@ == data@,
                self.wf(),
                old(self).wf(),
                old(self)@.text.len() + data@.len() < usize::MAX,
                self@ == (InputView {
                    text: old(self)@.text.take(old(self)@.cursor as int) + d@.take(i as int)
                        + old(self)@.text.skip(old(self)@.cursor as int),
                    cursor: old(self)@.cursor + i as nat,
                    ..old(self)@
                }),
            decreases d@.len() - i,
        {
            let ghost before = self@;
            proof {
                let o = old(self)@;
                assert(before.text.len() == o.text.len() + i);
            }
            self.insert(d[i]);
            proof {
                let o = old(self)@;
                let c = o.cursor as int;
                assert(d@.take(i + 1) =~= d@.take(i as int).push(d@[i as int]));
                assert(before.text.take(c + i) =~= o.text.take(c) + d@.take(i as int));
                assert(before.text.skip(c + i) =~= o.text.skip(c));
                assert(self@.text =~= o.text.take(c) + d@.take(i + 1) + o.text.skip(c));
            }
            i += 1;
        }
        proof {
            assert(d@.take(i as int) =~= d@);
        }
    }

    /// Remove the character at `index`, if there is one.
    fn drop_index(&mut self, index: usize)
        requires
            old(self).wf(),
            index < old(self)@.text.len(),
            old(self)@.cursor <= old(self)@.text.len() - 1,
        ensures
            final(self).wf(),
            final(self)@ == (InputView { text: old(self)@.text.remove(index as int), ..old(self)@ }),
    {
        let v = self.chars();
        assert(index < v.len());
        let mut w = slice_chars(&v, 0, index);
        let rest = slice_chars(&v, index + 1, v.len());
        let mut i: usize = 0;
        let ghost head = w@;
        while i < rest.len()
            invariant
                i <= rest@.len(),
                w@ == head + rest@.take(i as int),
            decreases rest@.len() - i,
        {
            w.push(rest[i]);
            i += 1;
            proof {
                assert(w@ =~= head + rest@.take(i as int));
            }
        }
        proof {
            assert(rest@.take(i as int) =~= rest@);
            assert(w@ =~= v@.remove(index as int));
        }
        self.set_text(&w);
    }

    /// Delete the character before the cursor, if any, moving the cursor back.
    pub fn delete_prev(&mut self)
        requires
            old(self).wf(),
        ensures
            final(self).wf(),
            old(self)@.cursor == 0 ==> final(self)@ == old(self)@,
            old(self)@.cursor > 0 ==> final(self)@ == (InputView {
                text: old(self)@.text.remove(old(self)@.cursor - 1),
                cursor: (old(self)@.cursor - 1) as nat,
                ..old(self)@
            }),
    {
        if self.cursor == 0 {
            return ;
        }
        self.cursor = self.cursor - 1;
        let c = self.cursor;
        self.drop_index(c);
    }

    /// Delete the character at the cursor, if any.
    pub fn delete_next(&mut self)
        requires
            old(self).wf(),
        ensures
            final(self).wf(),
            old(self)@.cursor == old(self)@.text.len() ==> final(self)@ == old(self)@,
            old(self)@.cursor < old(self)@.text.len() ==> final(self)@ == (InputView {
                text: old(self)@.text.remove(old(self)@.cursor as int),
                ..old(self)@
            }),
    {
        if self.cursor == self.chars().len() {
            return ;
        }
        let c = self.cursor;
        self.drop_index(c);
    }

    /// Delete the word before the cursor (and the separators after it), moving the cursor to
    /// where the word started.
    pub fn delete_word_left(&mut self)
        requires
            old(self).wf(),
        ensures
            final(self).wf(),
            old(self)@.cursor == 0 ==> final(self)@ == old(self)@,
            old(self)@.cursor > 0 ==> {
                let k = word_left(old(self)@.text, old(self)@.cursor as int);
                final(self)@ == (InputView {
                    text: old(self)@.text.take(k) + old(self)@.text.skip(old(self)@.cursor as int),
                    cursor: k as nat,
                    ..old(self)@
                })
            },
    {
        if self.cursor == 0 {
            return ;
        }
        let v = self.chars();
        let j = walk_back_non_alnum(&v, self.cursor);
        let k = walk_back_alnum(&v, j);
        let mut w = slice_chars(&v, 0, k);
        let rest = slice_chars(&v, self.cursor, v.len());
        let mut i: usize = 0;
        let ghost head = w@;
        while i < rest.len()
            invariant
                i <= rest@.len(),
                w@ == head + rest@.take(i as int),
            decreases rest@.len() - i,
        {
            w.push(rest[i]);
            i += 1;
            proof {
                assert(w@ =~= head + rest@.take(i as int));
            }
        }
        proof {
            assert(rest@.take(i as int) =~= rest@);
            assert(w@ =~= v@.take(k as int) + v@.skip(self.cursor as int));
        }
        self.set_text(&w);
        self.cursor = k;
    }

    /// Delete from the cursor to the start of the next word.
    pub fn delete_word_right(&mut self)
        requires
            old(self).wf(),
        ensures
            final(self).wf(),
            old(self)@.cursor == old(self)@.text.len() ==> final(self)@ == old(self)@,
            old(self)@.cursor < old(self)@.text.len() ==> {
                let e = word_right(old(self)@.text, old(self)@.cursor as int);
                final(self)@ == (InputView {
                    text: old(self)@.text.take(old(self)@.cursor as int) + old(self)@.text.skip(e),
                    ..old(self)@
                })
            },
    {
        let v = self.chars();
        if self.cursor == v.len() {
            return ;
        }
        let j = walk_forward_alnum(&v, self.cursor);
        let e = walk_forward_non_alnum(&v, j);
        let mut w = slice_chars(&v, 0, self.cursor);
        let rest = slice_chars(&v, e, v.len());
        let mut i: usize = 0;
        let ghost head = w@;
        while i < rest.len()
            invariant
                i <= rest@.len(),
                w@ == head + rest@.take(i as int),
            decreases rest@.len() - i,
        {
            w.push(rest[i]);
            i += 1;
            proof {
                assert(w@ =~= head + rest@.take(i as int));
            }
        }
        proof {
            assert(rest@.take(i as int) =~= rest@);
            assert(w@ =~= v@.take(self.cursor as int) + v@.skip(e as int));
        }
        self.set_text(&w);
    }

    /// Delete everything from the cursor on.
    pub fn delete_to_end(&mut self)
        requires
            old(self).wf(),
        ensures
            final(self).wf(),
            final(self)@ == (InputView {
                text: old(self)@.text.take(old(self)@.cursor as int),
                ..old(self)@
            }),
    {
        let v = self.chars();
        let w = slice_chars(&v, 0, self.cursor);
        proof {
            assert(w@ =~= v@.take(self.cursor as int));
        }
        self.set_text(&w);
    }

    /// Move the cursor one character back, if it can.
    pub fn cursor_left(&mut self)
        requires
            old(self).wf(),
        ensures
            final(self).wf(),
            final(self)@ == (InputView {
                cursor: if old(self)@.cursor == 0 {
                    0
                } else {
                    (old(self)@.cursor - 1) as nat
                },
                ..old(self)@
            }),
    {
        if self.cursor == 0 {
            return ;
        }
        self.cursor = self.cursor - 1;
    }

    /// Move the cursor one character forward, if it can.
    pub fn cursor_right(&mut self)
        requires
            old(self).wf(),
        ensures
            final(self).wf(),
            final(self)@ == (InputView {
                cursor: if old(self)@.cursor == old(self)@.text.len() {
                    old(self)@.cursor
                } else {
                    old(self)@.cursor + 1
                },
                ..old(self)@
            }),
    {
        if self.cursor == self.chars().len() {
            return ;
        }
        self.cursor = self.cursor + 1;
    }

    /// Move the cursor to the start of the previous word: back over the separators before
    /// it, then over the word's characters.
    pub fn cursor_word_left(&mut self)
        requires
            old(self).wf(),
        ensures
            final(self).wf(),
            final(self)@ == (InputView {
                cursor: word_left(old(self)@.text, old(self)@.cursor as int) as nat,
                ..old(self)@
            }),
            final(self).line_value() == old(self).line_value(),
    {
        let v = self.chars();
        let j = walk_back_non_alnum(&v, self.cursor);
        self.cursor = walk_back_alnum(&v, j);
    }

    /// Move the cursor to the start of the next word, or to the end of the line.
    pub fn cursor_word_right(&mut self)
        requires
            old(self).wf(),
        ensures
            final(self).wf(),
            old(self)@.cursor == old(self)@.text.len() ==> final(self)@ == old(self)@,
            old(self)@.cursor < old(self)@.text.len() ==> final(self)@ == (InputView {
                cursor: word_right(old(self)@.text, old(self)@.cursor as int) as nat,
                ..old(self)@
            }),
    {
        let v = self.chars();
        if self.cursor == v.len() {
            return ;
        }
        let j = walk_forward_alnum(&v, self.cursor);
        self.cursor = walk_forward_non_alnum(&v, j);
    }

    /// Move the cursor to the start of the line.
    pub fn cursor_start(&mut self)
        requires
            old(self).wf(),
        ensures
            final(self).wf(),
            final(self)@ == (InputView { cursor: 0, ..old(self)@ }),
    {
        self.cursor = 0;
    }

    /// Move the cursor to the end of the line.
    pub fn cursor_end(&mut self)
        requires
            old(self).wf(),
        ensures
            final(self).wf(),
            final(self)@ == (InputView { cursor: old(self)@.text.len(), ..old(self)@ }),
    {
        self.cursor = self.chars().len();
    }
}

/// The index of the first token at or after `pos`.
pub open spec fn first_at_or_after(t: Seq<MarkupToken>, pos: usize) -> int
    decreases t.len(),
{
    if t.len() == 0 || t[0].pos >= pos {
        0
    } else {
        1 + first_at_or_after(t.drop_first(), pos)
    }
}

/// In sorted markup, the tokens before [`first_at_or_after`] are the ones before `pos`.
proof fn lemma_first_at_or_after(t: Seq<MarkupToken>, pos: usize)
    requires
        tokens_sorted(t),
    ensures
        0 <= first_at_or_after(t, pos) <= t.len(),
        forall|i: int| 0 <= i < first_at_or_after(t, pos) ==> t[i].pos < pos,
        forall|i: int| first_at_or_after(t, pos) <= i < t.len() ==> t[i].pos >= pos,
    decreases t.len(),
{
    if t.len() > 0 && t[0].pos < pos {
        let u = t.drop_first();
        assert(tokens_sorted(u));
        lemma_first_at_or_after(u, pos);
        assert forall|i: int| 1 <= i < first_at_or_after(t, pos) implies t[i].pos < pos by {
            assert(t[i] == u[i - 1]);
        }
        assert forall|i: int| first_at_or_after(t, pos) <= i < t.len() implies t[i].pos >= pos by {
            assert(t[i] == u[i - 1]);
        }
    }
}

impl Input {
    /// The markup tokens, by increasing position.
    pub fn markup(&self) -> (m: &[MarkupToken])
        ensures
            m@ == self@.markup,
    {
        self.markup.tokens.as_slice()
    }

    /// Place a markup token at a character position of the line (up to its end), replacing
    /// the token there; positions beyond the end are ignored.
    pub fn add_markup(&mut self, pos: usize, token: &str)
        requires
            old(self).wf(),
        ensures
            final(self).wf(),
            pos > old(self)@.text.len() ==> final(self)@ == old(self)@,
            pos <= old(self)@.text.len() ==> exists|t: MarkupToken|
                t.pos == pos && t.token@ == token@ && final(self)@ == (InputView {
                    markup: markup_added(old(self)@.markup, t),
                    ..old(self)@
                }),
    {
        if pos > self.chars().len() {
            return ;
        }
        let t = MarkupToken { pos, token: owned(token) };
        let ghost gt = t;
        self.markup.add(t);
        assert(gt.pos == pos && gt.token@ == token@ && self@ == (InputView {
            markup: markup_added(old(self)@.markup, gt),
            ..old(self)@
        }));
    }

    /// Remove the markup token at `pos`, if there is one.
    pub fn remove_markup(&mut self, pos: usize)
        requires
            old(self).wf(),
        ensures
            final(self).wf(),
            final(self)@ == (InputView {
                markup: markup_removed(old(self)@.markup, pos),
                ..old(self)@
            }),
    {
        self.markup.remove(pos);
    }

    /// Remove every markup token.
    pub fn clear_markup(&mut self)
        requires
            old(self).wf(),
        ensures
            final(self).wf(),
            final(self)@ == (InputView { markup: Seq::empty(), ..old(self)@ }),
    {
        self.markup.clear_all();
    }

    /// The text the input shows (see [`decorated`]).
    pub fn decorated_value(&self) -> (s: String)
        requires
            self.wf(),
        ensures
            s@ == decorated(self@),
    {
        let text = self.chars();
        let content: Vec<char> = if text.len() > 0 {
            text
        } else {
            match &self.line.original {
                Some(o) => chars_of(o.as_str()),
                None => return String::new(),
            }
        };
        let shown: Vec<char> = match self.line.echo {
            EchoState::Password => {
                let mut m: Vec<char> = Vec::new();
                let mut i: usize = 0;
                while i < content.len()
                    invariant
                        i <= content@.len(),
                        m@ == Seq::new(i as nat, |k: int| '*'),
                    decreases content@.len() - i,
                {
                    m.push('*');
                    i += 1;
                    proof {
                        assert(m@ =~= Seq::new(i as nat, |k: int| '*'));
                    }
                }
                m
            },
            EchoState::Enabled => content,
        };
        let ghost c = if self@.text.len() > 0 {
            self@.text
        } else {
            self@.original.unwrap()
        };
        assert(shown@ == match self@.echo {
            EchoState::Password => Seq::new(c.len(), |i: int| '*'),
            EchoState::Enabled => c,
        });
        if self.markup.tokens.len() == 0 {
            return string_from_chars(shown.as_slice());
        }
        let toks = &self.markup.tokens;
        let mut out = String::new();
        let mut cur: usize = 0;
        let mut k: usize = 0;
        proof {
            assert(toks@.skip(0) =~= toks@);
        }
        while k < toks.len() && toks[k].pos <= shown.len()
            invariant
                tokens_sorted(toks@),
                k <= toks@.len(),
                cur <= shown@.len(),
                k > 0 ==> cur == toks@[k - 1].pos,
                k == 0 ==> cur == 0,
                out@ + decorate(shown@, toks@.skip(k as int), cur as int) == decorate(shown@, toks@, 0),
            decreases toks@.len() - k,
        {
            let pos = toks[k].pos;
            proof {
                if k > 0 {
                    assert(toks@[k - 1].pos < toks@[k as int].pos);
                }
                assert(toks@.skip(k as int)[0] == toks@[k as int]);
                assert(toks@.skip(k as int).drop_first() =~= toks@.skip(k + 1));
            }
            let piece = slice_chars(&shown, cur, pos);
            let ghost before = out@;
            let p = string_from_chars(piece.as_slice());
            push_str(&mut out, p.as_str());
            push_str(&mut out, toks[k].token.as_str());
            proof {
                let rest = decorate(shown@, toks@.skip(k + 1), pos as int);
                assert(decorate(shown@, toks@.skip(k as int), cur as int) == shown@.subrange(
                    cur as int,
                    pos as int,
                ) + toks@[k as int].token@ + rest);
                assert(out@ + rest =~= before + (shown@.subrange(cur as int, pos as int)
                    + toks@[k as int].token@ + rest));
            }
            cur = pos;
            k += 1;
        }
        let rest = slice_chars(&shown, cur, shown.len());
        proof {
            if k < toks@.len() {
                assert(toks@.skip(k as int)[0] == toks@[k as int]);
            }
            assert(decorate(shown@, toks@.skip(k as int), cur as int) == shown@.skip(cur as int));
            assert(rest@ =~= shown@.skip(cur as int));
        }
        let r = string_from_chars(rest.as_slice());
        push_str(&mut out, r.as_str());
        out
    }

    /// The textual form of the input: the line typed.
    pub fn to_string(&self) -> (s: String)
        ensures
            s@ == self@.text,
    {
        owned(self.line.sent.as_str())
    }
}

/// The input after an edit.
pub open spec fn edited(v: InputView, e: Edit) -> InputView {
    match e {
        Edit::DeletePrev => if v.cursor == 0 {
            v
        } else {
            InputView { text: v.text.remove(v.cursor - 1), cursor: (v.cursor - 1) as nat, ..v }
        },
        Edit::DeleteNext => if v.cursor == v.text.len() {
            v
        } else {
            InputView { text: v.text.remove(v.cursor as int), ..v }
        },
        Edit::CursorLeft => InputView {
            cursor: if v.cursor == 0 {
                0
            } else {
                (v.cursor - 1) as nat
            },
            ..v
        },
        Edit::CursorWordLeft => InputView {
            cursor: word_left(v.text, v.cursor as int) as nat,
            ..v
        },
        Edit::CursorRight => InputView {
            cursor: if v.cursor == v.text.len() {
                v.cursor
            } else {
                v.cursor + 1
            },
            ..v
        },
        Edit::CursorWordRight => if v.cursor == v.text.len() {
            v
        } else {
            InputView { cursor: word_right(v.text, v.cursor as int) as nat, ..v }
        },
        Edit::Reset => InputView {
            text: Seq::empty(),
            original: None,
            echo: EchoState::Enabled,
            cursor: 0,
            ..v
        },
        Edit::DeleteWordLeft => if v.cursor == 0 {
            v
        } else {
            let k = word_left(v.text, v.cursor as int);
            InputView { text: v.text.take(k) + v.text.skip(v.cursor as int), cursor: k as nat, ..v }
        },
        Edit::DeleteWordRight => if v.cursor == v.text.len() {
            v
        } else {
            let e = word_right(v.text, v.cursor as int);
            InputView { text: v.text.take(v.cursor as int) + v.text.skip(e), ..v }
        },
        Edit::DeleteToEnd => InputView { text: v.text.take(v.cursor as int), ..v },
        Edit::CursorStart => InputView { cursor: 0, ..v },
        Edit::CursorEnd => InputView { cursor: v.text.len(), ..v },
        Edit::Insert(c) => InputView {
            text: v.text.insert(v.cursor as int, c),
            cursor: v.cursor + 1,
            ..v
        },
    }
}

/// The edit an input shortcut asks for; sending asks for none.
pub open spec fn shortcut_edit(s: InputShortcut) -> Option<Edit> {
    match s {
        InputShortcut::Send => None,
        InputShortcut::CursorLeft => Some(Edit::CursorLeft),
        InputShortcut::CursorRight => Some(Edit::CursorRight),
        InputShortcut::CursorToStart => Some(Edit::CursorStart),
        InputShortcut::CursorToEnd => Some(Edit::CursorEnd),
        InputShortcut::CursorWordLeft => Some(Edit::CursorWordLeft),
        InputShortcut::CursorWordRight => Some(Edit::CursorWordRight),
        InputShortcut::DeletePrev => Some(Edit::DeletePrev),
        InputShortcut::DeleteNext => Some(Edit::DeleteNext),
        InputShortcut::CursorDeleteWordLeft => Some(Edit::DeleteWordLeft),
        InputShortcut::CursorDeleteWordRight => Some(Edit::DeleteWordRight),
        InputShortcut::CursorDeleteToEnd => Some(Edit::DeleteToEnd),
        InputShortcut::Reset => Some(Edit::Reset),
    }
}

impl Input {
    /// Apply an edit (see [`edited`]).
    pub fn apply(&mut self, e: Edit)
        requires
            old(self).wf(),
            e is Insert ==> old(self)@.text.len() < usize::MAX,
        ensures
            final(self).wf(),
            final(self)@ == edited(old(self)@, e),
    {
        match e {
            Edit::DeletePrev => self.delete_prev(),
            Edit::DeleteNext => self.delete_next(),
            Edit::CursorLeft => self.cursor_left(),
            Edit::CursorWordLeft => self.cursor_word_left(),
            Edit::CursorRight => self.cursor_right(),
            Edit::CursorWordRight => self.cursor_word_right(),
            Edit::Reset => self.reset(),
            Edit::DeleteWordLeft => self.delete_word_left(),
            Edit::DeleteWordRight => self.delete_word_right(),
            Edit::DeleteToEnd => self.delete_to_end(),
            Edit::CursorStart => self.cursor_start(),
            Edit::CursorEnd => self.cursor_end(),
            Edit::Insert(c) => self.insert(c),
        }
    }

    /// Edit the input as an input shortcut asks (see [`shortcut_edit`]); sending leaves the
    /// input to the caller.
    pub fn shortcut(&mut self, shortcut: &InputShortcut)
        requires
            old(self).wf(),
        ensures
            final(self).wf(),
            final(self)@ == match shortcut_edit(*shortcut) {
                Some(e) => edited(old(self)@, e),
                None => old(self)@,
            },
    {
        match shortcut {
            InputShortcut::Send => {},
            InputShortcut::CursorLeft => self.cursor_left(),
            InputShortcut::CursorRight => self.cursor_right(),
            InputShortcut::CursorToStart => self.cursor_start(),
            InputShortcut::CursorToEnd => self.cursor_end(),
            InputShortcut::CursorWordLeft => self.cursor_word_left(),
            InputShortcut::CursorWordRight => self.cursor_word_right(),
            InputShortcut::DeletePrev => self.delete_prev(),
            InputShortcut::DeleteNext => self.delete_next(),
            InputShortcut::CursorDeleteWordLeft => self.delete_word_left(),
            InputShortcut::CursorDeleteWordRight => self.delete_word_right(),
            InputShortcut::CursorDeleteToEnd => self.delete_to_end(),
            InputShortcut::Reset => self.reset(),
        }
    }

    /// Type a key: a character key inserts its character at the cursor; other keys leave the
    /// input as it is.
    pub fn key_event(&mut self, key: &crate::keyboard::KeyEvent)
        requires
            old(self).wf(),
            old(self)@.text.len() < usize::MAX,
        ensures
            final(self).wf(),
            final(self)@ == match key.code {
                crate::keyboard::KeyCode::Char(c) => edited(old(self)@, Edit::Insert(c)),
                _ => old(self)@,
            },
    {
        match key.code {
            crate::keyboard::KeyCode::Char(c) => self.insert(c),
            _ => {},
        }
    }

    /// Edit the input as a key press asks (see [`edit_for_key`]); other keys leave it as it is.
    pub fn handle_key_event(&mut self, code: KeyCode, modifiers: u8)
        requires
            old(self).wf(),
            old(self)@.text.len() < usize::MAX,
        ensures
            final(self).wf(),
            final(self)@ == match edit_for_key(code, modifiers) {
                Some(e) => edited(old(self)@, e),
                None => old(self)@,
            },
    {
        match key_edit(code, modifiers) {
            Some(e) => self.apply(e),
            None => {},
        }
    }
}

/// The input after a key press: the edit it asks for applied, or the input unchanged.
pub open spec fn after_key(v: InputView, code: KeyCode, mods: u8) -> InputView {
    match edit_for_key(code, mods) {
        Some(e) => edited(v, e),
        None => v,
    }
}

/// What the line editing keys do to the text and the cursor. Delete removes the character at
/// the cursor, leaving the cursor where it is; Backspace (and Ctrl-H) removes the character
/// before the cursor, moving the cursor back onto its place; neither does anything with no
/// character on that side. Left (Ctrl-B) and Right (Ctrl-F) move the cursor one character,
/// not past either end; Home (Ctrl-A) and End (Ctrl-E) move it to the ends; Ctrl-K cuts the
/// text after the cursor; Ctrl-U clears the line; a plain character is inserted at the cursor,
/// which moves past it.
pub proof fn lemma_key_edits(v: InputView, c: char)
    requires
        v.cursor <= v.text.len(),
    ensures
        v.cursor < v.text.len() ==> after_key(v, KeyCode::Delete, MOD_NONE).text == v.text.remove(
            v.cursor as int,
        ) && after_key(v, KeyCode::Delete, MOD_NONE).cursor == v.cursor,
        v.cursor == v.text.len() ==> after_key(v, KeyCode::Delete, MOD_NONE) == v,
        v.cursor > 0 ==> after_key(v, KeyCode::Backspace, MOD_NONE).text == v.text.remove(
            v.cursor - 1,
        ) && after_key(v, KeyCode::Backspace, MOD_NONE).cursor == v.cursor - 1,
        v.cursor == 0 ==> after_key(v, KeyCode::Backspace, MOD_NONE) == v,
        after_key(v, KeyCode::Char('h'), MOD_CONTROL) == after_key(v, KeyCode::Backspace, MOD_NONE),
        after_key(v, KeyCode::Left, MOD_NONE).text == v.text,
        after_key(v, KeyCode::Left, MOD_NONE).cursor == if v.cursor == 0 {
            0int
        } else {
            v.cursor - 1
        },
        after_key(v, KeyCode::Char('b'), MOD_CONTROL) == after_key(v, KeyCode::Left, MOD_NONE),
        after_key(v, KeyCode::Right, MOD_NONE).text == v.text,
        after_key(v, KeyCode::Right, MOD_NONE).cursor == if v.cursor == v.text.len() {
            v.cursor as int
        } else {
            v.cursor + 1 as int
        },
        after_key(v, KeyCode::Char('f'), MOD_CONTROL) == after_key(v, KeyCode::Right, MOD_NONE),
        after_key(v, KeyCode::Home, MOD_NONE).text == v.text,
        after_key(v, KeyCode::Home, MOD_NONE).cursor == 0,
        after_key(v, KeyCode::End, MOD_NONE).text == v.text,
        after_key(v, KeyCode::End, MOD_NONE).cursor == v.text.len(),
        after_key(v, KeyCode::Char('k'), MOD_CONTROL).text == v.text.take(v.cursor as int),
        after_key(v, KeyCode::Char('u'), MOD_CONTROL).text.len() == 0,
        after_key(v, KeyCode::Char('u'), MOD_CONTROL).cursor == 0,
        after_key(v, KeyCode::Char(c), MOD_NONE).text == v.text.insert(v.cursor as int, c),
        after_key(v, KeyCode::Char(c), MOD_NONE).cursor == v.cursor + 1,
{
}

/// Inserting a character and then deleting the character before the cursor gives the input
/// back.
pub proof fn lemma_insert_then_delete_prev(v: InputView, c: char)
    requires
        v.cursor <= v.text.len(),
    ensures
        edited(edited(v, Edit::Insert(c)), Edit::DeletePrev) == v,
{
    let w = edited(v, Edit::Insert(c));
    assert(w.text.remove(v.cursor as int) =~= v.text);
}

/// Every edit keeps the cursor within the line.
pub proof fn lemma_edit_keeps_cursor(v: InputView, e: Edit)
    requires
        v.cursor <= v.text.len(),
    ensures
        edited(v, e).cursor <= edited(v, e).text.len(),
{
    match e {
        Edit::CursorWordRight => {
            if v.cursor < v.text.len() {
                lemma_word_right_bounded(v.text, v.cursor as int);
            }
        },
        Edit::DeleteWordLeft => {
            if v.cursor > 0 {
                lemma_word_left_bounded(v.text, v.cursor as int);
            }
        },
        Edit::CursorWordLeft => {
            lemma_word_left_bounded(v.text, v.cursor as int);
        },
        _ => {},
    }
}

/// Walking forward stays within the text.
proof fn lemma_forward_bounded(s: Seq<char>, j: int)
    requires
        0 <= j <= s.len(),
    ensures
        j <= forward_over_alnum(s, j) <= s.len(),
        j <= forward_over_non_alnum(s, j) <= s.len(),
    decreases s.len() - j,
{
    if j < s.len() {
        lemma_forward_bounded(s, j + 1);
    }
}

/// Walking back stays within the text.
proof fn lemma_back_bounded(s: Seq<char>, j: int)
    requires
        0 <= j <= s.len(),
    ensures
        0 <= back_over_alnum(s, j) <= j,
        0 <= back_over_non_alnum(s, j) <= j,
    decreases j,
{
    if j > 0 {
        lemma_back_bounded(s, j - 1);
    }
}

/// The start of the next word is within the text.
proof fn lemma_word_right_bounded(s: Seq<char>, j: int)
    requires
        0 <= j <= s.len(),
    ensures
        j <= word_right(s, j) <= s.len(),
{
    lemma_forward_bounded(s, j);
    lemma_forward_bounded(s, forward_over_alnum(s, j));
}

/// The start of the previous word is within the text, before the cursor.
proof fn lemma_word_left_bounded(s: Seq<char>, j: int)
    requires
        0 <= j <= s.len(),
    ensures
        0 <= word_left(s, j) <= j,
{
    lemma_back_bounded(s, j);
    lemma_back_bounded(s, back_over_non_alnum(s, j));
}

} // verus!
