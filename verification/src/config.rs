//! Application configuration: global settings that MUDs and characters can override,
//! named MUD and character definitions, their validation, and the resolution of the
//! settings that apply to a character.

use vstd::prelude::*;

use crate::error::ConfigError;
use crate::text::{debug_quoted, debug_str, is_blank, owned, push_str};

verus! {

/// A key and its value.
#[derive(Clone, Debug, Default, PartialEq, Eq)]
pub struct Entry {
    pub key: String,
    pub value: String,
}

/// The value of the last entry with the given key.
pub open spec fn lookup(s: Seq<Entry>, k: Seq<char>) -> Option<Seq<char>>
    decreases s.len(),
{
    if s.len() == 0 {
        None
    } else if s.last().key@ == k {
        Some(s.last().value@)
    } else {
        lookup(s.drop_last(), k)
    }
}

/// The map of keys to values that entries denote: a later entry for a key overrides an
/// earlier one.
pub open spec fn entries_map(s: Seq<Entry>) -> Map<Seq<char>, Seq<char>> {
    Map::new(|k: Seq<char>| lookup(s, k) is Some, |k: Seq<char>| lookup(s, k).unwrap())
}

/// Free-form string settings, for use by scripts.
#[derive(Clone, Debug, Default, Eq)]
pub struct Extras {
    entries: Vec<Entry>,
}

impl View for Extras {
    type V = Map<Seq<char>, Seq<char>>;

    closed spec fn view(&self) -> Map<Seq<char>, Seq<char>> {
        entries_map(self.entries@)
    }
}

/// Replacing the last entry of a key changes the value of that key and no other.
proof fn lemma_lookup_update(s: Seq<Entry>, i: int, e: Entry, k: Seq<char>)
    requires
        0 <= i < s.len(),
        s[i].key@ == e.key@,
        forall|j: int| i < j < s.len() ==> s[j].key@ != e.key@,
    ensures
        lookup(s.update(i, e), k) == if k == e.key@ {
            Some(e.value@)
        } else {
            lookup(s, k)
        },
    decreases s.len(),
{
    let t = s.update(i, e);
    if i < s.len() - 1 {
        assert(t.drop_last() =~= s.drop_last().update(i, e));
        lemma_lookup_update(s.drop_last(), i, e, k);
    } else {
        assert(t.drop_last() =~= s.drop_last());
    }
}

/// A key has a value exactly when some entry has that key.
proof fn lemma_lookup_key(s: Seq<Entry>, k: Seq<char>)
    ensures
        lookup(s, k) is Some <==> exists|j: int| 0 <= j < s.len() && (#[trigger] s[j]).key@ == k,
    decreases s.len(),
{
    if s.len() > 0 {
        let rest = s.drop_last();
        lemma_lookup_key(rest, k);
        if lookup(rest, k) is Some {
            let j = choose|j: int| 0 <= j < rest.len() && (#[trigger] rest[j]).key@ == k;
            assert(s[j] == rest[j]);
        }
        if exists|j: int| 0 <= j < s.len() && (#[trigger] s[j]).key@ == k {
            let j = choose|j: int| 0 <= j < s.len() && (#[trigger] s[j]).key@ == k;
            if j < s.len() - 1 {
                assert(rest[j] == s[j]);
            }
        }
    }
}

/// A key no entry has has no value.
proof fn lemma_lookup_absent(s: Seq<Entry>, k: Seq<char>)
    requires
        forall|j: int| 0 <= j < s.len() ==> s[j].key@ != k,
    ensures
        lookup(s, k) is None,
    decreases s.len(),
{
    if s.len() > 0 {
        lemma_lookup_absent(s.drop_last(), k);
    }
}

impl Extras {
    /// No extras.
    pub fn new() -> (e: Extras)
        ensures
            e@ == Map::<Seq<char>, Seq<char>>::empty(),
    {
        let e = Extras { entries: Vec::new() };
        proof {
            assert(e@ =~= Map::<Seq<char>, Seq<char>>::empty());
        }
        e
    }

    /// Set `key` to `value`, replacing any value it had.
    pub fn insert(&mut self, key: String, value: String)
        ensures
            final(self)@ == old(self)@.insert(key@, value@),
    {
        let mut i: usize = self.entries.len();
        while i > 0
            invariant
                i <= self.entries@.len(),
                self.entries@ == old(self).entries@,
                forall|j: int| i <= j < self.entries@.len() ==> self.entries@[j].key@ != key@,
            decreases i,
        {
            if self.entries[i - 1].key == key {
                let ghost s = self.entries@;
                let e = Entry { key, value };
                let ghost ge = e;
                self.entries.set(i - 1, e);
                proof {
                    assert forall|k: Seq<char>| #[trigger]
                        lookup(self.entries@, k) == if k == ge.key@ {
                            Some(ge.value@)
                        } else {
                            lookup(s, k)
                        } by {
                        lemma_lookup_update(s, i - 1, ge, k);
                    }
                    assert(self@ =~= old(self)@.insert(ge.key@, ge.value@));
                }
                return ;
            }
            i -= 1;
        }
        let ghost s = self.entries@;
        let e = Entry { key, value };
        let ghost ge = e;
        self.entries.push(e);
        proof {
            assert(self.entries@.drop_last() =~= s);
            assert forall|k: Seq<char>| k != ge.key@ implies #[trigger] lookup(self.entries@, k)
                == lookup(s, k) by {}
            assert(self@ =~= old(self)@.insert(ge.key@, ge.value@));
        }
    }

    /// The value of `key`, if it has one.
    pub fn get(&self, key: &str) -> (r: Option<&String>)
        ensures
            match r {
                Some(v) => self@.contains_key(key@) && v@ == self@[key@],
                None => !self@.contains_key(key@),
            },
    {
        let target = owned(key);
        let mut i: usize = self.entries.len();
        proof {
            assert(self.entries@.take(i as int) =~= self.entries@);
        }
        while i > 0
            invariant
                i <= self.entries@.len(),
                target@ == key@,
                lookup(self.entries@, key@) == lookup(self.entries@.take(i as int), key@),
            decreases i,
        {
            proof {
                assert(self.entries@.take(i as int).drop_last() =~= self.entries@.take(i - 1));
                assert(self.entries@.take(i as int).last() == self.entries@[i - 1]);
            }
            if self.entries[i - 1].key == target {
                return Some(&self.entries[i - 1].value);
            }
            i -= 1;
        }
        proof {
            assert(self.entries@.take(0) =~= Seq::<Entry>::empty());
        }
        None
    }

    /// Set every key of `other` to its value there.
    pub fn merge_from(&mut self, other: &Extras)
        ensures
            final(self)@ == old(self)@.union_prefer_right(other@),
    {
        let ghost start = self@;
        let entries = other.entries();
        let mut i: usize = 0;
        proof {
            assert(start.union_prefer_right(entries_map(entries@.take(0))) =~= start);
        }
        while i < entries.len()
            invariant
                i <= entries@.len(),
                entries_map(entries@) == other@,
                self@ == start.union_prefer_right(entries_map(entries@.take(i as int))),
            decreases entries@.len() - i,
        {
            let ghost before = entries_map(entries@.take(i as int));
            self.insert(entries[i].key.clone(), entries[i].value.clone());
            proof {
                let t = entries@.take(i + 1);
                assert(t.drop_last() =~= entries@.take(i as int));
                assert(entries_map(t) =~= before.insert(
                    entries@[i as int].key@,
                    entries@[i as int].value@,
                ));
                assert(self@ =~= start.union_prefer_right(entries_map(t)));
            }
            i += 1;
        }
        proof {
            assert(entries@.take(i as int) =~= entries@);
        }
    }

    /// Whether no key has a value.
    pub fn is_empty(&self) -> (b: bool)
        ensures
            b == (self@.dom().len() == 0),
    {
        let b = self.entries.len() == 0;
        proof {
            if b {
                assert(self@ =~= Map::<Seq<char>, Seq<char>>::empty());
            } else {
                let k = self.entries@.last().key@;
                assert(self@.contains_key(k));
                lemma_entries_finite(self.entries@);
                vstd::set_lib::lemma_set_empty_equivalency_len(self@.dom());
            }
        }
        b
    }

    /// The entries, in the order they were first set.
    pub fn entries(&self) -> (r: &[Entry])
        ensures
            entries_map(r@) == self@,
    {
        self.entries.as_slice()
    }

    /// A copy holding the same keys and values.
    pub fn duplicate(&self) -> (e: Extras)
        ensures
            e@ == self@,
    {
        let mut entries: Vec<Entry> = Vec::new();
        let mut i: usize = 0;
        while i < self.entries.len()
            invariant
                i <= self.entries@.len(),
                entries@.len() == i,
                forall|j: int| 0 <= j < i ==> #[trigger] entries@[j].key@ == self.entries@[j].key@
                    && entries@[j].value@ == self.entries@[j].value@,
            decreases self.entries@.len() - i,
        {
            let e = &self.entries[i];
            entries.push(Entry { key: e.key.clone(), value: e.value.clone() });
            i += 1;
        }
        let e = Extras { entries };
        proof {
            lemma_lookup_same(e.entries@, self.entries@);
            assert(e@ =~= self@);
        }
        e
    }

    /// Whether both hold the same keys with the same values, whatever the order they were
    /// set in.
    fn same_entries(&self, other: &Extras) -> (b: bool)
        ensures
            b == (self@ == other@),
    {
        let mut i: usize = 0;
        while i < self.entries.len()
            invariant
                i <= self.entries@.len(),
                forall|j: int|
                    0 <= j < i ==> other@.contains_key((#[trigger] self.entries@[j]).key@)
                        && self@.contains_key(self.entries@[j].key@) && other@[self.entries@[j].key@]
                        == self@[self.entries@[j].key@],
            decreases self.entries@.len() - i,
        {
            let key = self.entries[i].key.as_str();
            let mine = self.get(key);
            let theirs = other.get(key);
            proof {
                lemma_lookup_key(self.entries@, key@);
            }
            match (mine, theirs) {
                (Some(x), Some(y)) => {
                    if *x != *y {
                        return false;
                    }
                },
                _ => {
                    return false;
                },
            }
            i += 1;
        }
        let mut i: usize = 0;
        while i < other.entries.len()
            invariant
                i <= other.entries@.len(),
                forall|j: int|
                    0 <= j < i ==> self@.contains_key((#[trigger] other.entries@[j]).key@),
                forall|j: int|
                    0 <= j < self.entries@.len() ==> other@.contains_key(
                        (#[trigger] self.entries@[j]).key@,
                    ) && self@.contains_key(self.entries@[j].key@) && other@[self.entries@[j].key@]
                        == self@[self.entries@[j].key@],
            decreases other.entries@.len() - i,
        {
            let key = other.entries[i].key.as_str();
            if self.get(key).is_none() {
                proof {
                    lemma_lookup_key(other.entries@, key@);
                }
                return false;
            }
            i += 1;
        }
        proof {
            assert forall|k: Seq<char>| #![trigger self@.dom().contains(k)]
                #![trigger other@.dom().contains(k)]
                self@.dom().contains(k) == other@.dom().contains(k) && (self@.dom().contains(k)
                    ==> self@[k] == other@[k]) by {
                lemma_lookup_key(self.entries@, k);
                lemma_lookup_key(other.entries@, k);
                if self@.contains_key(k) {
                    let j = choose|j: int|
                        0 <= j < self.entries@.len() && (#[trigger] self.entries@[j]).key@ == k;
                }
                if other@.contains_key(k) {
                    let j = choose|j: int|
                        0 <= j < other.entries@.len() && (#[trigger] other.entries@[j]).key@ == k;
                }
            }
            assert(self@ =~= other@);
        }
        true
    }
}

impl PartialEq for Extras {
    /// Whether both hold the same keys with the same values.
    fn eq(&self, other: &Self) -> (r: bool) {
        self.same_entries(other)
    }
}

impl vstd::std_specs::cmp::PartialEqSpecImpl for Extras {
    open spec fn obeys_eq_spec() -> bool {
        true
    }

    open spec fn eq_spec(&self, other: &Self) -> bool {
        self@ == other@
    }
}

/// Entries with the same keys and values in the same order look up the same.
proof fn lemma_lookup_same(a: Seq<Entry>, b: Seq<Entry>)
    requires
        a.len() == b.len(),
        forall|j: int| 0 <= j < a.len() ==> #[trigger] a[j].key@ == b[j].key@ && a[j].value@ == b[j].value@,
    ensures
        forall|k: Seq<char>| #[trigger] lookup(a, k) == lookup(b, k),
    decreases a.len(),
{
    if a.len() > 0 {
        let a2 = a.drop_last();
        let b2 = b.drop_last();
        assert forall|j: int| 0 <= j < a2.len() implies #[trigger] a2[j].key@ == b2[j].key@
            && a2[j].value@ == b2[j].value@ by {
            assert(a2[j] == a[j] && b2[j] == b[j]);
        }
        lemma_lookup_same(a2, b2);
        assert(a.last() == a[a.len() - 1] && b.last() == b[b.len() - 1]);
        assert forall|k: Seq<char>| #[trigger] lookup(a, k) == lookup(b, k) by {
            assert(lookup(a2, k) == lookup(b2, k));
        }
    }
}

/// The keys of entries form a finite set.
proof fn lemma_entries_finite(s: Seq<Entry>)
    ensures
        entries_map(s).dom().finite(),
    decreases s.len(),
{
    if s.len() > 0 {
        lemma_entries_finite(s.drop_last());
        assert(entries_map(s).dom() =~= entries_map(s.drop_last()).dom().insert(s.last().key@));
    } else {
        assert(entries_map(s).dom() =~= Set::<Seq<char>>::empty());
    }
}

/// Global settings, which MUDs and characters can override.
#[derive(Clone, Debug, Eq)]
pub struct Settings {
    /// Whether output wraps at the buffer edge.
    pub word_wrap: bool,
    /// Separator for sending several commands in one line.
    pub send_separator: String,
    /// Number of lines the scroll shortcuts scroll.
    pub scroll_lines: u16,
    /// Whether input is echoed in the output buffer.
    pub show_input_echo: bool,
    /// Percentage of the screen used by the scrollback overlay.
    pub scrollback_percentage: u16,
    /// Whether received GMCP messages are echoed as debug output.
    pub gmcp_echo: bool,
    /// Free-form settings for scripts.
    pub extras: Extras,
}

impl Settings {
    /// A copy of the settings.
    pub fn duplicate(&self) -> (r: Settings)
        ensures
            r.word_wrap == self.word_wrap,
            r.send_separator@ == self.send_separator@,
            r.scroll_lines == self.scroll_lines,
            r.show_input_echo == self.show_input_echo,
            r.scrollback_percentage == self.scrollback_percentage,
            r.gmcp_echo == self.gmcp_echo,
            r.extras@ == self.extras@,
    {
        Settings {
            word_wrap: self.word_wrap,
            send_separator: self.send_separator.clone(),
            scroll_lines: self.scroll_lines,
            show_input_echo: self.show_input_echo,
            scrollback_percentage: self.scrollback_percentage,
            gmcp_echo: self.gmcp_echo,
            extras: self.extras.duplicate(),
        }
    }
}

/// Whether two settings have the same values.
pub open spec fn same_settings(a: Settings, b: Settings) -> bool {
    &&& a.word_wrap == b.word_wrap
    &&& a.send_separator@ == b.send_separator@
    &&& a.scroll_lines == b.scroll_lines
    &&& a.show_input_echo == b.show_input_echo
    &&& a.scrollback_percentage == b.scrollback_percentage
    &&& a.gmcp_echo == b.gmcp_echo
    &&& a.extras@ == b.extras@
}

impl PartialEq for Settings {
    /// Whether both have the same values.
    fn eq(&self, other: &Self) -> (r: bool) {
        self.word_wrap == other.word_wrap && self.send_separator == other.send_separator
            && self.scroll_lines == other.scroll_lines && self.show_input_echo
            == other.show_input_echo && self.scrollback_percentage == other.scrollback_percentage
            && self.gmcp_echo == other.gmcp_echo && self.extras == other.extras
    }
}

impl vstd::std_specs::cmp::PartialEqSpecImpl for Settings {
    open spec fn obeys_eq_spec() -> bool {
        true
    }

    open spec fn eq_spec(&self, other: &Self) -> bool {
        same_settings(*self, *other)
    }
}

impl Default for Settings {
    /// Wrapping on, `;;` separating commands, five lines per scroll, input echoed, a 70%
    /// scrollback overlay, no GMCP echo and no extras.
    fn default() -> (s: Settings)
        ensures
            s.word_wrap,
            s.send_separator@ == ";;"@,
            s.scroll_lines == 5,
            s.show_input_echo,
            s.scrollback_percentage == 70,
            !s.gmcp_echo,
            s.extras@ == Map::<Seq<char>, Seq<char>>::empty(),
    {
        Settings {
            word_wrap: true,
            send_separator: owned(";;"),
            scroll_lines: 5,
            show_input_echo: true,
            scrollback_percentage: 70,
            gmcp_echo: false,
            extras: Extras::new(),
        }
    }
}

/// Overrides of some settings.
#[derive(Clone, Debug, Eq)]
pub struct SettingsOverlay {
    pub word_wrap: Option<bool>,
    pub send_separator: Option<String>,
    pub scroll_lines: Option<u16>,
    pub show_input_echo: Option<bool>,
    pub scrollback_percentage: Option<u16>,
    pub gmcp_echo: Option<bool>,
    pub extras: Option<Extras>,
}

/// The text an optional text holds.
pub open spec fn opt_text(o: Option<String>) -> Option<Seq<char>> {
    match o {
        Some(s) => Some(s@),
        None => None,
    }
}

/// The keys and values optional extras hold.
pub open spec fn opt_extras(o: Option<Extras>) -> Option<Map<Seq<char>, Seq<char>>> {
    match o {
        Some(e) => Some(e@),
        None => None,
    }
}

/// Whether two optional texts are both absent, or both present and equal.
fn same_opt_text(a: &Option<String>, b: &Option<String>) -> (r: bool)
    ensures
        r == (opt_text(*a) == opt_text(*b)),
{
    match (a, b) {
        (Some(x), Some(y)) => *x == *y,
        (None, None) => true,
        _ => false,
    }
}

/// Whether two optional extras are both absent, or both present with the same entries.
fn same_opt_extras(a: &Option<Extras>, b: &Option<Extras>) -> (r: bool)
    ensures
        r == (opt_extras(*a) == opt_extras(*b)),
{
    match (a, b) {
        (Some(x), Some(y)) => *x == *y,
        (None, None) => true,
        _ => false,
    }
}

/// Whether two overlays override the same settings with the same values.
pub open spec fn same_overlay(a: SettingsOverlay, b: SettingsOverlay) -> bool {
    &&& a.word_wrap == b.word_wrap
    &&& opt_text(a.send_separator) == opt_text(b.send_separator)
    &&& a.scroll_lines == b.scroll_lines
    &&& a.show_input_echo == b.show_input_echo
    &&& a.scrollback_percentage == b.scrollback_percentage
    &&& a.gmcp_echo == b.gmcp_echo
    &&& opt_extras(a.extras) == opt_extras(b.extras)
}

impl PartialEq for SettingsOverlay {
    /// Whether both override the same settings with the same values.
    fn eq(&self, other: &Self) -> (r: bool) {
        self.word_wrap == other.word_wrap && same_opt_text(
            &self.send_separator,
            &other.send_separator,
        ) && self.scroll_lines == other.scroll_lines && self.show_input_echo
            == other.show_input_echo && self.scrollback_percentage == other.scrollback_percentage
            && self.gmcp_echo == other.gmcp_echo && same_opt_extras(&self.extras, &other.extras)
    }
}

impl vstd::std_specs::cmp::PartialEqSpecImpl for SettingsOverlay {
    open spec fn obeys_eq_spec() -> bool {
        true
    }

    open spec fn eq_spec(&self, other: &Self) -> bool {
        same_overlay(*self, *other)
    }
}

impl Default for SettingsOverlay {
    /// No overrides.
    fn default() -> (o: SettingsOverlay)
        ensures
            o.spec_is_empty(),
    {
        SettingsOverlay {
            word_wrap: None,
            send_separator: None,
            scroll_lines: None,
            show_input_echo: None,
            scrollback_percentage: None,
            gmcp_echo: None,
            extras: None,
        }
    }
}

/// The value an override gives, or the base value.
pub open spec fn overridden<T>(over: Option<T>, base: T) -> T {
    match over {
        Some(v) => v,
        None => base,
    }
}

impl SettingsOverlay {
    /// No setting is overridden.
    pub open spec fn spec_is_empty(&self) -> bool {
        &&& self.word_wrap is None
        &&& self.send_separator is None
        &&& self.scroll_lines is None
        &&& self.show_input_echo is None
        &&& self.scrollback_percentage is None
        &&& self.gmcp_echo is None
        &&& self.extras is None
    }

    /// `r` is `base` with these overrides applied: each overridden setting takes the override's
    /// value, except the extras, whose keys are overridden one by one.
    pub open spec fn merges_into(&self, base: Settings, r: Settings) -> bool {
        &&& r.word_wrap == overridden(self.word_wrap, base.word_wrap)
        &&& r.send_separator@ == match self.send_separator {
            Some(s) => s@,
            None => base.send_separator@,
        }
        &&& r.scroll_lines == overridden(self.scroll_lines, base.scroll_lines)
        &&& r.show_input_echo == overridden(self.show_input_echo, base.show_input_echo)
        &&& r.scrollback_percentage == overridden(
            self.scrollback_percentage,
            base.scrollback_percentage,
        )
        &&& r.gmcp_echo == overridden(self.gmcp_echo, base.gmcp_echo)
        &&& r.extras@ == match self.extras {
            Some(e) => base.extras@.union_prefer_right(e@),
            None => base.extras@,
        }
    }

    /// Apply the overrides to base settings.
    pub fn merge(&self, base: Settings) -> (r: Settings)
        ensures
            self.merges_into(base, r),
    {
        let mut r = base;
        if let Some(v) = self.word_wrap {
            r.word_wrap = v;
        }
        if let Some(v) = &self.send_separator {
            r.send_separator = v.clone();
        }
        if let Some(v) = self.scroll_lines {
            r.scroll_lines = v;
        }
        if let Some(v) = self.show_input_echo {
            r.show_input_echo = v;
        }
        if let Some(v) = self.scrollback_percentage {
            r.scrollback_percentage = v;
        }
        if let Some(v) = self.gmcp_echo {
            r.gmcp_echo = v;
        }
        if let Some(e) = &self.extras {
            r.extras.merge_from(e);
        }
        r
    }

    /// Whether no setting is overridden.
    pub fn is_empty(&self) -> (b: bool)
        ensures
            b == self.spec_is_empty(),
    {
        self.word_wrap.is_none() && self.send_separator.is_none() && self.scroll_lines.is_none()
            && self.show_input_echo.is_none() && self.scrollback_percentage.is_none()
            && self.gmcp_echo.is_none() && self.extras.is_none()
    }
}

/// Whether TLS is used to connect to a MUD.
#[derive(Debug, Clone, Copy, Default, Ord, PartialOrd, Eq, PartialEq, Hash, Structural)]
pub enum Tls {
    #[default]
    Disabled,
    Enabled,
    InsecureSkipVerify,
}

/// A MUD server: how to connect to it, and its setting overrides.
#[derive(Clone, Debug, Eq)]
pub struct Mud {
    /// Hostname or IP address.
    pub host: String,
    pub port: u16,
    pub tls: Tls,
    /// Whether TCP keepalives are left off.
    pub no_tcp_keepalive: bool,
    /// MUD specific setting overrides.
    pub settings: SettingsOverlay,
}

impl Mud {
    /// A MUD without overrides, with TLS disabled unless given, and TCP keepalives on.
    pub fn new(host: String, port: u16, tls: Option<Tls>) -> (m: Mud)
        ensures
            m.host@ == host@,
            m.port == port,
            m.tls == match tls {
                Some(t) => t,
                None => Tls::Disabled,
            },
            !m.no_tcp_keepalive,
            m.settings.spec_is_empty(),
    {
        Mud {
            host,
            port,
            tls: match tls {
                Some(t) => t,
                None => Tls::Disabled,
            },
            no_tcp_keepalive: false,
            settings: SettingsOverlay::default(),
        }
    }
}

/// Whether two MUD definitions connect the same way with the same overrides.
pub open spec fn same_mud(a: Mud, b: Mud) -> bool {
    &&& a.host@ == b.host@
    &&& a.port == b.port
    &&& a.tls == b.tls
    &&& a.no_tcp_keepalive == b.no_tcp_keepalive
    &&& same_overlay(a.settings, b.settings)
}

impl PartialEq for Mud {
    /// Whether both connect the same way with the same overrides.
    fn eq(&self, other: &Self) -> (r: bool) {
        self.host == other.host && self.port == other.port && self.tls == other.tls
            && self.no_tcp_keepalive == other.no_tcp_keepalive && self.settings == other.settings
    }
}

impl vstd::std_specs::cmp::PartialEqSpecImpl for Mud {
    open spec fn obeys_eq_spec() -> bool {
        true
    }

    open spec fn eq_spec(&self, other: &Self) -> bool {
        same_mud(*self, *other)
    }
}

/// A character: the MUD it plays on, the script module set up for its sessions, and its
/// setting overrides.
#[derive(Clone, Debug, Eq)]
pub struct Character {
    /// The name of the MUD definition.
    pub mud: String,
    pub module: Option<String>,
    /// Character specific setting overrides.
    pub settings: SettingsOverlay,
}

impl Character {
    /// A character without overrides.
    pub fn new(mud: String, module: Option<String>) -> (c: Character)
        ensures
            c.mud@ == mud@,
            c.module == module,
            c.settings.spec_is_empty(),
    {
        Character { mud, module, settings: SettingsOverlay::default() }
    }
}

/// Whether two character definitions play on the same MUD with the same module and overrides.
pub open spec fn same_character(a: Character, b: Character) -> bool {
    &&& a.mud@ == b.mud@
    &&& opt_text(a.module) == opt_text(b.module)
    &&& same_overlay(a.settings, b.settings)
}

impl PartialEq for Character {
    /// Whether both play on the same MUD with the same module and overrides.
    fn eq(&self, other: &Self) -> (r: bool) {
        self.mud == other.mud && same_opt_text(&self.module, &other.module) && self.settings
            == other.settings
    }
}

impl vstd::std_specs::cmp::PartialEqSpecImpl for Character {
    open spec fn obeys_eq_spec() -> bool {
        true
    }

    open spec fn eq_spec(&self, other: &Self) -> bool {
        same_character(*self, *other)
    }
}

/// A named MUD definition.
#[derive(Clone, Debug, PartialEq, Eq)]
pub struct MudEntry {
    pub name: String,
    pub mud: Mud,
}

/// A named character definition.
#[derive(Clone, Debug, PartialEq, Eq)]
pub struct CharacterEntry {
    pub name: String,
    pub character: Character,
}

/// Top level configuration: MUDs, characters, script modules and global settings.
#[derive(Clone, Debug, Eq)]
pub struct Config {
    /// Whether mouse support is enabled.
    pub mouse_enabled: bool,
    /// Named MUD definitions.
    pub muds: Vec<MudEntry>,
    /// Named character definitions.
    pub characters: Vec<CharacterEntry>,
    /// Script modules loaded at startup.
    pub modules: Vec<String>,
    /// Global settings.
    pub settings: Settings,
}

/// Whether a character of the given name is defined.
pub open spec fn has_character(chars: Seq<CharacterEntry>, name: Seq<char>) -> bool {
    exists|i: int| 0 <= i < chars.len() && chars[i].name@ == name
}

/// The first definition of the MUD named `name`.
#[verifier::opaque]
pub open spec fn named_mud(muds: Seq<MudEntry>, name: Seq<char>) -> Mud {
    muds[first_named_mud(muds, name)->0].mud
}

/// The first definition of the character named `name`.
#[verifier::opaque]
pub open spec fn named_character(chars: Seq<CharacterEntry>, name: Seq<char>) -> Character {
    chars[first_named_character(chars, name)->0].character
}

/// Whether two lists of MUD definitions define the same names, each the same way (the first
/// definition of a name being the one that counts).
pub open spec fn same_muds(a: Seq<MudEntry>, b: Seq<MudEntry>) -> bool {
    forall|n: Seq<char>| #![trigger has_mud(a, n)] #![trigger has_mud(b, n)]
        (has_mud(a, n) <==> has_mud(b, n)) && (has_mud(a, n) ==> same_mud(
            named_mud(a, n),
            named_mud(b, n),
        ))
}

/// Whether two lists of character definitions define the same names, each the same way (the
/// first definition of a name being the one that counts).
pub open spec fn same_characters(a: Seq<CharacterEntry>, b: Seq<CharacterEntry>) -> bool {
    forall|n: Seq<char>| #![trigger has_character(a, n)] #![trigger has_character(b, n)]
        (has_character(a, n) <==> has_character(b, n)) && (has_character(a, n) ==> same_character(
            named_character(a, n),
            named_character(b, n),
        ))
}

/// Whether two lists of texts hold the same texts in the same order.
pub open spec fn same_texts(a: Seq<String>, b: Seq<String>) -> bool {
    a.len() == b.len() && forall|i: int| 0 <= i < a.len() ==> (#[trigger] a[i])@ == b[i]@
}

/// Whether two configurations are the same: mouse support, the MUDs and characters by name,
/// the modules in order, and the global settings.
pub open spec fn same_config(a: Config, b: Config) -> bool {
    &&& a.mouse_enabled == b.mouse_enabled
    &&& same_muds(a.muds@, b.muds@)
    &&& same_characters(a.characters@, b.characters@)
    &&& same_texts(a.modules@, b.modules@)
    &&& same_settings(a.settings, b.settings)
}

/// Whether two lists of texts hold the same texts in the same order.
fn texts_equal(a: &Vec<String>, b: &Vec<String>) -> (r: bool)
    ensures
        r == same_texts(a@, b@),
{
    if a.len() != b.len() {
        return false;
    }
    let mut i: usize = 0;
    while i < a.len()
        invariant
            a@.len() == b@.len(),
            i <= a@.len(),
            forall|j: int| 0 <= j < i ==> (#[trigger] a@[j])@ == b@[j]@,
        decreases a@.len() - i,
    {
        if a[i] != b[i] {
            return false;
        }
        i += 1;
    }
    true
}

/// The first definition of the MUD named `name` in `c`, if any.
fn mud_named<'a>(c: &'a Config, name: &str) -> (r: Option<&'a Mud>)
    ensures
        r is Some <==> has_mud(c.muds@, name@),
        r matches Some(m) ==> *m == named_mud(c.muds@, name@),
{
    proof {
        reveal(named_mud);
    }
    c.mud(name)
}

/// The first definition of the character named `name` in `c`, if any.
fn character_named<'a>(c: &'a Config, name: &str) -> (r: Option<&'a Character>)
    ensures
        r is Some <==> has_character(c.characters@, name@),
        r matches Some(ch) ==> *ch == named_character(c.characters@, name@),
{
    proof {
        reveal(named_character);
    }
    c.character(name)
}

/// Whether the MUD definitions of `a` and `b` are the same by name.
fn muds_equal(a: &Config, b: &Config) -> (r: bool)
    ensures
        r == same_muds(a.muds@, b.muds@),
{
    let mut i: usize = 0;
    while i < a.muds.len()
        invariant
            i <= a.muds@.len(),
            forall|j: int|
                0 <= j < i ==> has_mud(b.muds@, (#[trigger] a.muds@[j]).name@) && same_mud(
                    named_mud(a.muds@, a.muds@[j].name@),
                    named_mud(b.muds@, a.muds@[j].name@),
                ),
        decreases a.muds@.len() - i,
    {
        let name = a.muds[i].name.as_str();
        proof {
            assert(has_mud(a.muds@, name@)) by {
                assert(a.muds@[i as int].name@ == name@);
            }
        }
        let mine = mud_named(a, name);
        let theirs = mud_named(b, name);
        match (mine, theirs) {
            (Some(x), Some(y)) => {
                if *x != *y {
                    return false;
                }
            },
            _ => {
                return false;
            },
        }
        i += 1;
    }
    let mut i: usize = 0;
    while i < b.muds.len()
        invariant
            i <= b.muds@.len(),
            forall|j: int| 0 <= j < i ==> has_mud(a.muds@, (#[trigger] b.muds@[j]).name@),
            forall|j: int|
                0 <= j < a.muds@.len() ==> has_mud(b.muds@, (#[trigger] a.muds@[j]).name@)
                    && same_mud(
                    named_mud(a.muds@, a.muds@[j].name@),
                    named_mud(b.muds@, a.muds@[j].name@),
                ),
        decreases b.muds@.len() - i,
    {
        let name = b.muds[i].name.as_str();
        proof {
            assert(has_mud(b.muds@, name@)) by {
                assert(b.muds@[i as int].name@ == name@);
            }
        }
        if mud_named(a, name).is_none() {
            return false;
        }
        i += 1;
    }
    proof {
        assert forall|n: Seq<char>| #![trigger has_mud(a.muds@, n)] #![trigger has_mud(b.muds@, n)]
            (has_mud(a.muds@, n) <==> has_mud(b.muds@, n)) && (has_mud(a.muds@, n) ==> same_mud(
                named_mud(a.muds@, n),
                named_mud(b.muds@, n),
            )) by {
            if has_mud(a.muds@, n) {
                let j = choose|j: int| 0 <= j < a.muds@.len() && a.muds@[j].name@ == n;
                assert(a.muds@[j].name@ == n);
            }
            if has_mud(b.muds@, n) {
                let j = choose|j: int| 0 <= j < b.muds@.len() && b.muds@[j].name@ == n;
                assert(b.muds@[j].name@ == n);
            }
        }
    }
    true
}

/// Whether the character definitions of `a` and `b` are the same by name.
fn characters_equal(a: &Config, b: &Config) -> (r: bool)
    ensures
        r == same_characters(a.characters@, b.characters@),
{
    let mut i: usize = 0;
    while i < a.characters.len()
        invariant
            i <= a.characters@.len(),
            forall|j: int|
                0 <= j < i ==> has_character(b.characters@, (#[trigger] a.characters@[j]).name@)
                    && same_character(
                    named_character(a.characters@, a.characters@[j].name@),
                    named_character(b.characters@, a.characters@[j].name@),
                ),
        decreases a.characters@.len() - i,
    {
        let name = a.characters[i].name.as_str();
        proof {
            assert(has_character(a.characters@, name@)) by {
                assert(a.characters@[i as int].name@ == name@);
            }
        }
        let mine = character_named(a, name);
        let theirs = character_named(b, name);
        match (mine, theirs) {
            (Some(x), Some(y)) => {
                if *x != *y {
                    return false;
                }
            },
            _ => {
                return false;
            },
        }
        i += 1;
    }
    let mut i: usize = 0;
    while i < b.characters.len()
        invariant
            i <= b.characters@.len(),
            forall|j: int|
                0 <= j < i ==> has_character(a.characters@, (#[trigger] b.characters@[j]).name@),
            forall|j: int|
                0 <= j < a.characters@.len() ==> has_character(
                    b.characters@,
                    (#[trigger] a.characters@[j]).name@,
                ) && same_character(
                    named_character(a.characters@, a.characters@[j].name@),
                    named_character(b.characters@, a.characters@[j].name@),
                ),
        decreases b.characters@.len() - i,
    {
        let name = b.characters[i].name.as_str();
        proof {
            assert(has_character(b.characters@, name@)) by {
                assert(b.characters@[i as int].name@ == name@);
            }
        }
        if character_named(a, name).is_none() {
            return false;
        }
        i += 1;
    }
    proof {
        assert forall|n: Seq<char>| #![trigger has_character(a.characters@, n)]
            #![trigger has_character(b.characters@, n)]
            (has_character(a.characters@, n) <==> has_character(b.characters@, n)) && (
            has_character(a.characters@, n) ==> same_character(
                named_character(a.characters@, n),
                named_character(b.characters@, n),
            )) by {
            if has_character(a.characters@, n) {
                let j = choose|j: int|
                    0 <= j < a.characters@.len() && a.characters@[j].name@ == n;
                assert(a.characters@[j].name@ == n);
            }
            if has_character(b.characters@, n) {
                let j = choose|j: int|
                    0 <= j < b.characters@.len() && b.characters@[j].name@ == n;
                assert(b.characters@[j].name@ == n);
            }
        }
    }
    true
}

impl PartialEq for Config {
    /// Whether both are the same configuration.
    fn eq(&self, other: &Self) -> (r: bool) {
        self.mouse_enabled == other.mouse_enabled && muds_equal(self, other) && characters_equal(
            self,
            other,
        ) && texts_equal(&self.modules, &other.modules) && self.settings == other.settings
    }
}

impl vstd::std_specs::cmp::PartialEqSpecImpl for Config {
    open spec fn obeys_eq_spec() -> bool {
        true
    }

    open spec fn eq_spec(&self, other: &Self) -> bool {
        same_config(*self, *other)
    }
}

/// Whether `host` is a valid server name for TLS: a DNS name or an IP address, as
/// `ServerName::try_from` accepts it.
pub uninterp spec fn valid_server_name(host: Seq<char>) -> bool;

/// `rustls_pki_types::ServerName::try_from`: whether the host parses as a DNS name or IP
/// address, named by `valid_server_name`.
#[verifier::external_body]
pub(crate) fn server_name_valid(host: &str) -> (b: bool)
    ensures
        b == valid_server_name(host@),
{
    tokio_rustls::rustls::pki_types::ServerName::try_from(host).is_ok()
}

/// The message of the error a server name fails with.
pub open spec fn invalid_dns_name() -> Seq<char> {
    "invalid dns name"@
}

/// What is wrong with a named MUD definition, if anything.
pub open spec fn mud_problem(name: Seq<char>, m: Mud) -> Option<Seq<char>> {
    if is_blank(name) {
        Some("MUD name cannot be empty"@)
    } else if m.host@.len() == 0 {
        Some("MUD "@ + debug_str(name) + " has empty host"@)
    } else if m.tls == Tls::Enabled && !valid_server_name(m.host@) {
        Some(
            "MUD "@ + debug_str(name) + " hostname "@ + debug_str(m.host@) + " invalid for TLS: "@
                + invalid_dns_name(),
        )
    } else {
        None
    }
}

/// The problem of the first MUD definition that has one.
pub open spec fn first_mud_problem(muds: Seq<MudEntry>) -> Option<Seq<char>>
    decreases muds.len(),
{
    if muds.len() == 0 {
        None
    } else {
        match mud_problem(muds[0].name@, muds[0].mud) {
            Some(p) => Some(p),
            None => first_mud_problem(muds.drop_first()),
        }
    }
}

/// Whether a MUD of the given name is defined.
pub open spec fn has_mud(muds: Seq<MudEntry>, name: Seq<char>) -> bool {
    exists|i: int| 0 <= i < muds.len() && muds[i].name@ == name
}

/// What is wrong with a named character definition, if anything.
pub open spec fn character_problem(name: Seq<char>, c: Character, muds: Seq<MudEntry>) -> Option<
    Seq<char>,
> {
    if is_blank(name) {
        Some("character name cannot be empty"@)
    } else if c.mud@.len() == 0 {
        Some("MUD name cannot be empty"@)
    } else if !has_mud(muds, c.mud@) {
        Some("character "@ + debug_str(name) + " references unknown MUD "@ + debug_str(c.mud@))
    } else {
        None
    }
}

/// The problem of the first character definition that has one.
pub open spec fn first_character_problem(chars: Seq<CharacterEntry>, muds: Seq<MudEntry>) -> Option<
    Seq<char>,
>
    decreases chars.len(),
{
    if chars.len() == 0 {
        None
    } else {
        match character_problem(chars[0].name@, chars[0].character, muds) {
            Some(p) => Some(p),
            None => first_character_problem(chars.drop_first(), muds),
        }
    }
}

/// The index of the first entry with the given name.
pub open spec fn first_named_mud(muds: Seq<MudEntry>, name: Seq<char>) -> Option<int> {
    if has_mud(muds, name) {
        Some(
            choose|i: int|
                0 <= i < muds.len() && muds[i].name@ == name && forall|j: int|
                    0 <= j < i ==> muds[j].name@ != name,
        )
    } else {
        None
    }
}

/// The index of the first character entry with the given name.
pub open spec fn first_named_character(chars: Seq<CharacterEntry>, name: Seq<char>) -> Option<int> {
    if exists|i: int| 0 <= i < chars.len() && chars[i].name@ == name {
        Some(
            choose|i: int|
                0 <= i < chars.len() && chars[i].name@ == name && forall|j: int|
                    0 <= j < i ==> chars[j].name@ != name,
        )
    } else {
        None
    }
}

/// The problem with the definition `m` named `name`, if any.
fn check_mud(name: &String, m: &Mud) -> (r: Option<String>)
    ensures
        match mud_problem(name@, *m) {
            Some(p) => r matches Some(s) && s@ == p,
            None => r is None,
        },
{
    let v = crate::text::chars_of(name.as_str());
    if crate::text::blank(&v) {
        return Some(owned("MUD name cannot be empty"));
    }
    if crate::text::chars_of(m.host.as_str()).len() == 0 {
        let mut s = owned("MUD ");
        push_str(&mut s, debug_quoted(name.as_str()).as_str());
        push_str(&mut s, " has empty host");
        return Some(s);
    }
    if m.tls == Tls::Enabled && !server_name_valid(m.host.as_str()) {
        let mut s = owned("MUD ");
        push_str(&mut s, debug_quoted(name.as_str()).as_str());
        push_str(&mut s, " hostname ");
        push_str(&mut s, debug_quoted(m.host.as_str()).as_str());
        push_str(&mut s, " invalid for TLS: ");
        push_str(&mut s, "invalid dns name");
        return Some(s);
    }
    None
}

impl Config {
    /// The first MUD definition with the given name.
    pub fn mud(&self, name: &str) -> (r: Option<&Mud>)
        ensures
            match first_named_mud(self.muds@, name@) {
                Some(i) => r == Some(&self.muds@[i].mud),
                None => r is None,
            },
    {
        match self.mud_index(name) {
            Some(i) => Some(&self.muds[i].mud),
            None => None,
        }
    }

    /// The index of the first MUD definition with the given name.
    fn mud_index(&self, name: &str) -> (r: Option<usize>)
        ensures
            match first_named_mud(self.muds@, name@) {
                Some(i) => r matches Some(k) && k as int == i,
                None => r is None,
            },
            r matches Some(k) ==> k < self.muds@.len(),
    {
        let target = owned(name);
        let mut i: usize = 0;
        while i < self.muds.len()
            invariant
                i <= self.muds@.len(),
                target@ == name@,
                forall|j: int| 0 <= j < i ==> self.muds@[j].name@ != name@,
            decreases self.muds@.len() - i,
        {
            if self.muds[i].name == target {
                proof {
                    let s = self.muds@;
                    let c = choose|c: int|
                        0 <= c < s.len() && s[c].name@ == name@ && forall|j: int|
                            0 <= j < c ==> s[j].name@ != name@;
                    assert(c == i) by {
                        if c < i {
                            assert(s[c].name@ != name@);
                        }
                        if i < c {
                            assert(s[i as int].name@ != name@);
                        }
                    }
                }
                return Some(i);
            }
            i += 1;
        }
        None
    }

    /// The first character definition with the given name.
    pub fn character(&self, name: &str) -> (r: Option<&Character>)
        ensures
            match first_named_character(self.characters@, name@) {
                Some(i) => r == Some(&self.characters@[i].character),
                None => r is None,
            },
    {
        let target = owned(name);
        let mut i: usize = 0;
        while i < self.characters.len()
            invariant
                i <= self.characters@.len(),
                target@ == name@,
                forall|j: int| 0 <= j < i ==> self.characters@[j].name@ != name@,
            decreases self.characters@.len() - i,
        {
            if self.characters[i].name == target {
                proof {
                    let s = self.characters@;
                    let c = choose|c: int|
                        0 <= c < s.len() && s[c].name@ == name@ && forall|j: int|
                            0 <= j < c ==> s[j].name@ != name@;
                    assert(c == i) by {
                        if c < i {
                            assert(s[c].name@ != name@);
                        }
                        if i < c {
                            assert(s[i as int].name@ != name@);
                        }
                    }
                }
                return Some(&self.characters[i].character);
            }
            i += 1;
        }
        None
    }

    /// Check the configuration for consistency: every MUD has a non-blank name and a host
    /// (one that is a valid server name if TLS is enabled); every character has a non-blank
    /// name and names a defined MUD. The first problem found, MUDs first and in order, is
    /// the error.
    pub fn validate(&self) -> (r: Result<(), ConfigError>)
        ensures
            match first_mud_problem(self.muds@) {
                Some(p) => r matches Err(ConfigError::InvalidMud(m)) && m@ == p,
                None => match first_character_problem(self.characters@, self.muds@) {
                    Some(p) => r matches Err(ConfigError::InvalidCharacter(m)) && m@ == p,
                    None => r is Ok,
                },
            },
    {
        let mut i: usize = 0;
        proof {
            assert(self.muds@.skip(0) =~= self.muds@);
        }
        while i < self.muds.len()
            invariant
                i <= self.muds@.len(),
                first_mud_problem(self.muds@) == first_mud_problem(self.muds@.skip(i as int)),
            decreases self.muds@.len() - i,
        {
            proof {
                assert(self.muds@.skip(i as int).drop_first() =~= self.muds@.skip(i + 1));
                assert(self.muds@.skip(i as int)[0] == self.muds@[i as int]);
            }
            match check_mud(&self.muds[i].name, &self.muds[i].mud) {
                Some(p) => return Err(ConfigError::InvalidMud(p)),
                None => {},
            }
            i += 1;
        }
        let mut k: usize = 0;
        proof {
            assert(self.characters@.skip(0) =~= self.characters@);
        }
        while k < self.characters.len()
            invariant
                i == self.muds@.len(),
                first_mud_problem(self.muds@) == first_mud_problem(self.muds@.skip(i as int)),
                k <= self.characters@.len(),
                first_character_problem(self.characters@, self.muds@) == first_character_problem(
                    self.characters@.skip(k as int),
                    self.muds@,
                ),
            decreases self.characters@.len() - k,
        {
            proof {
                assert(self.characters@.skip(k as int).drop_first() =~= self.characters@.skip(
                    k + 1,
                ));
                assert(self.characters@.skip(k as int)[0] == self.characters@[k as int]);
            }
            match self.check_character(&self.characters[k].name, &self.characters[k].character) {
                Some(p) => {
                    proof {
                        assert(self.muds@.skip(i as int) =~= Seq::<MudEntry>::empty());
                    }
                    return Err(ConfigError::InvalidCharacter(p));
                },
                None => {},
            }
            k += 1;
        }
        proof {
            assert(self.muds@.skip(i as int) =~= Seq::<MudEntry>::empty());
            assert(self.characters@.skip(k as int) =~= Seq::<CharacterEntry>::empty());
        }
        Ok(())
    }

    /// The problem with the character definition `c` named `name`, if any.
    fn check_character(&self, name: &String, c: &Character) -> (r: Option<String>)
        ensures
            match character_problem(name@, *c, self.muds@) {
                Some(p) => r matches Some(s) && s@ == p,
                None => r is None,
            },
    {
        let v = crate::text::chars_of(name.as_str());
        if crate::text::blank(&v) {
            return Some(owned("character name cannot be empty"));
        }
        if crate::text::chars_of(c.mud.as_str()).len() == 0 {
            return Some(owned("MUD name cannot be empty"));
        }
        if self.mud_index(c.mud.as_str()).is_none() {
            let mut s = owned("character ");
            push_str(&mut s, debug_quoted(name.as_str()).as_str());
            push_str(&mut s, " references unknown MUD ");
            push_str(&mut s, debug_quoted(c.mud.as_str()).as_str());
            return Some(s);
        }
        None
    }
}

/// The extras after applying an overlay's extras.
pub open spec fn layered_extras(base: Map<Seq<char>, Seq<char>>, o: SettingsOverlay) -> Map<
    Seq<char>,
    Seq<char>,
> {
    match o.extras {
        Some(e) => base.union_prefer_right(e@),
        None => base,
    }
}

/// The text of an optional override, or the base text.
pub open spec fn overridden_text(over: Option<String>, base: Seq<char>) -> Seq<char> {
    match over {
        Some(s) => s@,
        None => base,
    }
}

/// `r` is the global settings with the MUD's overrides applied, then the character's.
pub open spec fn resolved(
    global: Settings,
    mud: SettingsOverlay,
    character: SettingsOverlay,
    r: Settings,
) -> bool {
    &&& r.word_wrap == overridden(character.word_wrap, overridden(mud.word_wrap, global.word_wrap))
    &&& r.send_separator@ == overridden_text(
        character.send_separator,
        overridden_text(mud.send_separator, global.send_separator@),
    )
    &&& r.scroll_lines == overridden(
        character.scroll_lines,
        overridden(mud.scroll_lines, global.scroll_lines),
    )
    &&& r.show_input_echo == overridden(
        character.show_input_echo,
        overridden(mud.show_input_echo, global.show_input_echo),
    )
    &&& r.scrollback_percentage == overridden(
        character.scrollback_percentage,
        overridden(mud.scrollback_percentage, global.scrollback_percentage),
    )
    &&& r.gmcp_echo == overridden(character.gmcp_echo, overridden(mud.gmcp_echo, global.gmcp_echo))
    &&& r.extras@ == layered_extras(layered_extras(global.extras@, mud), character)
}

impl Config {
    /// The outcome of resolving the settings of the named character: the character's
    /// definition, then its MUD's, must exist.
    pub open spec fn spec_resolution(&self, char_name: Seq<char>) -> Result<(int, int), Seq<char>> {
        match first_named_character(self.characters@, char_name) {
            None => Err("unknown character name "@ + debug_str(char_name)),
            Some(c) => {
                let mud_name = self.characters@[c].character.mud@;
                match first_named_mud(self.muds@, mud_name) {
                    None => Err(
                        "character "@ + debug_str(char_name) + " references unknown MUD "@
                            + debug_str(mud_name),
                    ),
                    Some(m) => Ok((c, m)),
                }
            },
        }
    }

    /// The settings of a character: the global settings, overridden by its MUD's settings,
    /// overridden by its own.
    pub fn resolve_settings(&self, char_name: &str) -> (r: Result<Settings, ConfigError>)
        ensures
            match self.spec_resolution(char_name@) {
                Err(msg) => r matches Err(ConfigError::InvalidCharacter(m)) && m@ == msg,
                Ok((c, m)) => r matches Ok(s) && resolved(
                    self.settings,
                    self.muds@[m].mud.settings,
                    self.characters@[c].character.settings,
                    s,
                ),
            },
    {
        let character = match self.character(char_name) {
            Some(c) => c,
            None => {
                let mut msg = owned("unknown character name ");
                push_str(&mut msg, debug_quoted(char_name).as_str());
                return Err(ConfigError::InvalidCharacter(msg));
            },
        };
        let mud = match self.mud(character.mud.as_str()) {
            Some(m) => m,
            None => {
                let mut msg = owned("character ");
                push_str(&mut msg, debug_quoted(char_name).as_str());
                push_str(&mut msg, " references unknown MUD ");
                push_str(&mut msg, debug_quoted(character.mud.as_str()).as_str());
                return Err(ConfigError::InvalidCharacter(msg));
            },
        };
        let global = self.settings.duplicate();
        let with_mud = mud.settings.merge(global);
        Ok(character.settings.merge(with_mud))
    }

    /// The value of a free-form setting of a character, resolved as
    /// [`Config::resolve_settings`] resolves settings, or `default` when no level sets it.
    pub fn resolve_setting(&self, char_name: &str, key: &str, default: Option<String>) -> (r:
        Result<Option<String>, ConfigError>)
        ensures
            match self.spec_resolution(char_name@) {
                Err(msg) => r matches Err(ConfigError::InvalidCharacter(m)) && m@ == msg,
                Ok((c, m)) => {
                    let extras = layered_extras(
                        layered_extras(self.settings.extras@, self.muds@[m].mud.settings),
                        self.characters@[c].character.settings,
                    );
                    r matches Ok(v) && if extras.contains_key(key@) {
                        v matches Some(t) && t@ == extras[key@]
                    } else {
                        v == default
                    }
                },
            },
    {
        let settings = self.resolve_settings(char_name)?;
        match settings.extras.get(key) {
            Some(v) => Ok(Some(v.clone())),
            None => Ok(default),
        }
    }
}

/// The per-user directories of this application, as `directories` finds them.
#[verifier::external_type_specification]
#[verifier::external_body]
pub struct ExProjectDirs(directories::ProjectDirs);

/// `ProjectDirs::from`: the per-user directories of the application named by `qualifier`,
/// `organization` and `application`, when the user's home can be found. What comes back
/// depends on the environment, so nothing is stated of it.
#[verifier::external_body]
fn project_dirs(qualifier: &str, organization: &str, application: &str) -> (r: Option<
    directories::ProjectDirs,
>) {
    directories::ProjectDirs::from(qualifier, organization, application)
}

/// The qualifier of the application's per-user directories.
pub const PROJECT_QUALIFIER: &'static str = "ca.woodweb";

/// `ProjectDirs::config_local_dir`: the local configuration directory, as text. It depends on
/// the environment, so nothing is stated of it.
#[verifier::external_body]
fn config_local_dir(p: &directories::ProjectDirs) -> (r: String) {
    p.config_local_dir().to_string_lossy().into_owned()
}

/// `ProjectDirs::data_local_dir`: the local data directory, as text. It depends on the
/// environment, so nothing is stated of it.
#[verifier::external_body]
fn data_local_dir(p: &directories::ProjectDirs) -> (r: String) {
    p.data_local_dir().to_string_lossy().into_owned()
}

/// The directory to use: the one the user named, else the application's directory, else the
/// fallback.
pub fn choose_dir(user: Option<String>, project: Option<String>, fallback: &str) -> (r: String)
    ensures
        r@ == match user {
            Some(u) => u@,
            None => match project {
                Some(p) => p@,
                None => fallback@,
            },
        },
{
    match user {
        Some(u) => u,
        None => match project {
            Some(p) => p,
            None => owned(fallback),
        },
    }
}

/// The configuration directory: the one named by the user (in the `MUDPUPPY_CONFIG`
/// environment variable), else the application's local configuration directory, else
/// `./.config`.
pub fn config_dir(user: Option<String>) -> (r: String)
    ensures
        user matches Some(u) ==> r@ == u@,
{
    if user.is_some() {
        return choose_dir(user, None, "./.config");
    }
    let project = match project_dirs(
        PROJECT_QUALIFIER,
        crate::gmcp::CRATE_NAME,
        crate::gmcp::CRATE_NAME,
    ) {
        Some(p) => Some(config_local_dir(&p)),
        None => None,
    };
    choose_dir(user, project, "./.config")
}

/// The data directory: the one named by the user (in the `MUDPUPPY_DATA` environment
/// variable), else the application's local data directory, else `./.data`.
pub fn data_dir(user: Option<String>) -> (r: String)
    ensures
        user matches Some(u) ==> r@ == u@,
{
    if user.is_some() {
        return choose_dir(user, None, "./.data");
    }
    let project = match project_dirs(
        PROJECT_QUALIFIER,
        crate::gmcp::CRATE_NAME,
        crate::gmcp::CRATE_NAME,
    ) {
        Some(p) => Some(data_local_dir(&p)),
        None => None,
    };
    choose_dir(user, project, "./.data")
}

/// The directories in use, decided once: the first answer for each is kept, and every later
/// request gives it back, whatever the environment says by then.
#[derive(Debug, Default)]
pub struct DirCache {
    config: Option<String>,
    data: Option<String>,
}

impl DirCache {
    /// The configuration directory decided so far, if any.
    pub closed spec fn cached_config(&self) -> Option<Seq<char>> {
        match self.config {
            Some(c) => Some(c@),
            None => None,
        }
    }

    /// The data directory decided so far, if any.
    pub closed spec fn cached_data(&self) -> Option<Seq<char>> {
        match self.data {
            Some(d) => Some(d@),
            None => None,
        }
    }

    /// No directory decided yet.
    pub fn new() -> (c: DirCache)
        ensures
            c.cached_config() is None,
            c.cached_data() is None,
    {
        DirCache { config: None, data: None }
    }

    /// The configuration directory: the one decided by an earlier request, else the one
    /// [`config_dir`] decides now (the user's, when `user` names one), which is kept.
    pub fn config_dir(&mut self, user: Option<String>) -> (r: String)
        ensures
            final(self).cached_config() == Some(r@),
            final(self).cached_data() == old(self).cached_data(),
            match old(self).cached_config() {
                Some(c) => r@ == c,
                None => user matches Some(u) ==> r@ == u@,
            },
    {
        match &self.config {
            Some(c) => c.clone(),
            None => {
                let d = config_dir(user);
                self.config = Some(d.clone());
                d
            },
        }
    }

    /// The data directory: the one decided by an earlier request, else the one [`data_dir`]
    /// decides now (the user's, when `user` names one), which is kept.
    pub fn data_dir(&mut self, user: Option<String>) -> (r: String)
        ensures
            final(self).cached_data() == Some(r@),
            final(self).cached_config() == old(self).cached_config(),
            match old(self).cached_data() {
                Some(d) => r@ == d,
                None => user matches Some(u) ==> r@ == u@,
            },
    {
        match &self.data {
            Some(d) => d.clone(),
            None => {
                let d = data_dir(user);
                self.data = Some(d.clone());
                d
            },
        }
    }
}

/// A file name joined to a directory as `Path::join` joins a relative name: directly after an
/// empty directory or one ending with `/`, after a `/` otherwise.
pub open spec fn joined_path(dir: Seq<char>, name: Seq<char>) -> Seq<char> {
    if dir.len() == 0 {
        name
    } else if dir.last() == '/' {
        dir + name
    } else {
        dir + "/"@ + name
    }
}

/// The configuration file, `config.toml` in the configuration directory.
pub fn config_file(config_dir: &str) -> (r: String)
    ensures
        r@ == joined_path(config_dir@, "config.toml"@),
{
    let v = crate::text::chars_of(config_dir);
    if v.len() == 0 {
        owned("config.toml")
    } else if v[v.len() - 1] == '/' {
        let mut s = owned(config_dir);
        push_str(&mut s, "config.toml");
        s
    } else {
        let mut s = owned(config_dir);
        push_str(&mut s, "/");
        push_str(&mut s, "config.toml");
        s
    }
}

/// The version description: the commit, a blank line, then the configuration and data
/// directories.
pub open spec fn version_text(commit: Seq<char>, config_dir: Seq<char>, data_dir: Seq<char>) -> Seq<
    char,
> {
    commit + "\n\nConfig directory: "@ + config_dir + "\nData directory: "@ + data_dir
}

/// The version description (see [`version_text`]).
pub fn version(commit: &str, config_dir: &str, data_dir: &str) -> (r: String)
    ensures
        r@ == version_text(commit@, config_dir@, data_dir@),
{
    let mut s = owned(commit);
    push_str(&mut s, "\n\nConfig directory: ");
    push_str(&mut s, config_dir);
    push_str(&mut s, "\nData directory: ");
    push_str(&mut s, data_dir);
    s
}

/// The default of `mouse_enabled`: on.
pub fn default_mouse_enabled() -> (b: bool)
    ensures
        b,
{
    true
}

} // verus!
