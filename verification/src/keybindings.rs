//! Key bindings: the shortcut that a key press triggers in each input mode.
//!
//! A configuration file lists bindings as three texts each: the input mode, the key
//! description and the shortcut's name. [`KeyBindings::from_raw`] reads such a list, the
//! later of two bindings of the same key in the same mode winning, and
//! [`KeyBindings::to_raw`] writes one back.

use vstd::prelude::*;

use crate::error::KeyBindingError;
use crate::model::{
    input_mode_named, key_modifiers_of, key_part, lemma_input_mode_name_roundtrip,
    lemma_key_event_text_roundtrip, lemma_shortcut_name_roundtrip, parse_code_text,
    text_round_trips, InputMode, KeyCode, KeyEvent, Shortcut,
};

verus! {

/// A key binding as a configuration file holds it: the name of the input mode, the key
/// description (such as `ctrl-p`) and the name of the shortcut.
#[derive(Debug, Clone, PartialEq, Eq)]
pub struct RawKeyBinding {
    pub mode: String,
    pub keys: String,
    pub action: String,
}

/// The name of the input mode that a binding written without one applies to.
pub fn default_input_mode() -> (s: String)
    ensures
        s@ == InputMode::MudSession.spec_display(),
{
    InputMode::MudSession.to_string()
}

/// One binding: in `mode`, pressing `key` triggers `action`.
#[derive(Debug, Clone, Copy, PartialEq, Eq, Structural)]
pub struct Binding {
    pub mode: InputMode,
    pub key: KeyEvent,
    pub action: Shortcut,
}

/// What a binding is looked up by: its mode and key.
pub open spec fn binding_key(b: Binding) -> (InputMode, KeyEvent) {
    (b.mode, b.key)
}

/// The map that binding each entry in turn builds: a later entry replaces an earlier one of
/// the same mode and key.
pub open spec fn binding_map(s: Seq<Binding>) -> Map<(InputMode, KeyEvent), Shortcut>
    decreases s.len(),
{
    if s.len() == 0 {
        Map::empty()
    } else {
        binding_map(s.drop_last()).insert(binding_key(s.last()), s.last().action)
    }
}

/// No two entries share a mode and key.
pub open spec fn distinct_keys(s: Seq<Binding>) -> bool {
    forall|i: int, j: int|
        #![trigger s[i], s[j]]
        0 <= i < j < s.len() ==> binding_key(s[i]) != binding_key(s[j])
}

/// A key is bound exactly when some entry binds it.
pub proof fn lemma_binding_map_dom(s: Seq<Binding>, k: (InputMode, KeyEvent))
    ensures
        binding_map(s).contains_key(k) <==> exists|i: int|
            0 <= i < s.len() && binding_key(#[trigger] s[i]) == k,
    decreases s.len(),
{
    if s.len() > 0 {
        let p = s.drop_last();
        lemma_binding_map_dom(p, k);
        if binding_map(p).contains_key(k) {
            let i = choose|i: int| 0 <= i < p.len() && binding_key(#[trigger] p[i]) == k;
            assert(s[i] == p[i]);
        }
        if exists|i: int| 0 <= i < s.len() && binding_key(#[trigger] s[i]) == k {
            let i = choose|i: int| 0 <= i < s.len() && binding_key(#[trigger] s[i]) == k;
            if i < s.len() - 1 {
                assert(p[i] == s[i]);
            }
        }
    }
}

/// Where no two entries share a key, each entry's key is bound to the entry's action.
pub proof fn lemma_binding_map_value(s: Seq<Binding>, i: int)
    requires
        distinct_keys(s),
        0 <= i < s.len(),
    ensures
        binding_map(s).contains_key(binding_key(s[i])),
        binding_map(s)[binding_key(s[i])] == s[i].action,
    decreases s.len(),
{
    let p = s.drop_last();
    if i < s.len() - 1 {
        assert(distinct_keys(p)) by {
            assert forall|a: int, b: int| 0 <= a < b < p.len() implies binding_key(p[a])
                != binding_key(p[b]) by {
                assert(p[a] == s[a] && p[b] == s[b]);
            }
        }
        assert(p[i] == s[i]);
        lemma_binding_map_value(p, i);
        assert(binding_key(s[i]) != binding_key(s[s.len() - 1]));
    }
}

/// Appending an entry binds its key to its action.
pub proof fn lemma_binding_map_push(s: Seq<Binding>, b: Binding)
    ensures
        binding_map(s.push(b)) == binding_map(s).insert(binding_key(b), b.action),
{
    assert(s.push(b).drop_last() =~= s);
}

/// Binding the key of an entry to another action keeps every other key's binding.
proof fn lemma_binding_map_update(s: Seq<Binding>, i: int, b: Binding)
    requires
        distinct_keys(s),
        0 <= i < s.len(),
        binding_key(s[i]) == binding_key(b),
    ensures
        distinct_keys(s.update(i, b)),
        binding_map(s.update(i, b)) == binding_map(s).insert(binding_key(b), b.action),
{
    let t = s.update(i, b);
    assert(distinct_keys(t)) by {
        assert forall|x: int, y: int| 0 <= x < y < t.len() implies binding_key(t[x])
            != binding_key(t[y]) by {
            assert(binding_key(t[x]) == binding_key(s[x]));
            assert(binding_key(t[y]) == binding_key(s[y]));
        }
    }
    let m = binding_map(s).insert(binding_key(b), b.action);
    assert forall|k: (InputMode, KeyEvent)| #[trigger] binding_map(t).contains_key(k)
        == m.contains_key(k) by {
        lemma_binding_map_dom(s, k);
        lemma_binding_map_dom(t, k);
        if exists|j: int| 0 <= j < s.len() && binding_key(#[trigger] s[j]) == k {
            let j = choose|j: int| 0 <= j < s.len() && binding_key(#[trigger] s[j]) == k;
            assert(binding_key(t[j]) == k);
        }
        if exists|j: int| 0 <= j < t.len() && binding_key(#[trigger] t[j]) == k {
            let j = choose|j: int| 0 <= j < t.len() && binding_key(#[trigger] t[j]) == k;
            assert(binding_key(s[j]) == k);
        }
    }
    assert forall|k: (InputMode, KeyEvent)| #[trigger] binding_map(t).contains_key(k) implies
        binding_map(t)[k] == m[k] by {
        lemma_binding_map_dom(t, k);
        let j = choose|j: int| 0 <= j < t.len() && binding_key(#[trigger] t[j]) == k;
        lemma_binding_map_value(t, j);
        if j != i {
            assert(t[j] == s[j]);
            lemma_binding_map_value(s, j);
        }
    }
    assert(binding_map(t) =~= m);
}

/// The position of the entry for `mode` and `key`, if there is one.
fn find_entry(v: &Vec<Binding>, mode: InputMode, key: &KeyEvent) -> (r: Option<usize>)
    ensures
        match r {
            Some(i) => i < v@.len() && binding_key(v@[i as int]) == (mode, *key),
            None => forall|i: int|
                0 <= i < v@.len() ==> binding_key(#[trigger] v@[i]) != (mode, *key),
        },
{
    let mut i: usize = 0;
    while i < v.len()
        invariant
            i <= v@.len(),
            forall|j: int| 0 <= j < i ==> binding_key(#[trigger] v@[j]) != (mode, *key),
        decreases v@.len() - i,
    {
        let b = v[i];
        if b.mode == mode && b.key == *key {
            return Some(i);
        }
        i += 1;
    }
    None
}

/// Bind the entry's key to its action, replacing the entry that bound it before.
fn bind(v: &mut Vec<Binding>, b: Binding)
    requires
        distinct_keys(old(v)@),
    ensures
        distinct_keys(final(v)@),
        binding_map(final(v)@) == binding_map(old(v)@).insert(binding_key(b), b.action),
{
    match find_entry(v, b.mode, &b.key) {
        Some(i) => {
            proof {
                lemma_binding_map_update(v@, i as int, b);
            }
            v.set(i, b);
        },
        None => {
            proof {
                lemma_binding_map_push(v@, b);
                let t = v@.push(b);
                assert forall|x: int, y: int| 0 <= x < y < t.len() implies binding_key(t[x])
                    != binding_key(t[y]) by {
                    if y < v@.len() {
                        assert(t[x] == v@[x] && t[y] == v@[y]);
                    } else {
                        assert(t[x] == v@[x]);
                    }
                }
            }
            v.push(b);
        },
    }
}

/// The binding that a raw binding denotes, if its mode, shortcut and keys all parse.
pub open spec fn parsed_binding(r: RawKeyBinding) -> Option<Binding> {
    match (
        input_mode_named(r.mode@),
        Shortcut::spec_named(r.action@),
        parse_code_text(key_part(r.keys@)),
    ) {
        (Some(mode), Some(action), Ok(code)) => Some(
            Binding { mode, key: KeyEvent { code, modifiers: key_modifiers_of(r.keys@) }, action },
        ),
        _ => None,
    }
}

/// The bindings that a list of raw bindings that all parse denotes.
pub open spec fn parsed_bindings(raw: Seq<RawKeyBinding>) -> Seq<Binding> {
    raw.map_values(|r: RawKeyBinding| parsed_binding(r).unwrap())
}

/// Whether `e` is the error reading the raw binding `r` gives: its mode is checked first,
/// then its shortcut, then its keys.
pub open spec fn raw_binding_error(r: RawKeyBinding, e: KeyBindingError) -> bool {
    if input_mode_named(r.mode@) is None {
        e matches KeyBindingError::UnknownMode(m) && m@ == r.mode@
    } else if Shortcut::spec_named(r.action@) is None {
        e matches KeyBindingError::UnknownShortcut(m) && m@ == r.action@
    } else {
        match parse_code_text(key_part(r.keys@)) {
            Err(msg) => e matches KeyBindingError::InvalidKeys(m) && m@ == msg,
            Ok(_) => false,
        }
    }
}

/// Read one raw binding.
fn parse_raw_binding(r: &RawKeyBinding) -> (res: Result<Binding, KeyBindingError>)
    ensures
        match parsed_binding(*r) {
            Some(b) => res == Ok::<Binding, KeyBindingError>(b),
            None => res matches Err(e) && raw_binding_error(*r, e),
        },
{
    let mode = match InputMode::parse(r.mode.as_str()) {
        Some(m) => m,
        None => {
            return Err(KeyBindingError::UnknownMode(r.mode.clone()));
        },
    };
    let action = match Shortcut::parse(r.action.as_str()) {
        Some(a) => a,
        None => {
            return Err(KeyBindingError::UnknownShortcut(r.action.clone()));
        },
    };
    let key = KeyEvent::parse(r.keys.as_str())?;
    Ok(Binding { mode, key, action })
}

/// The texts of a raw binding: mode, keys and shortcut.
pub open spec fn raw_text(r: RawKeyBinding) -> (Seq<char>, Seq<char>, Seq<char>) {
    (r.mode@, r.keys@, r.action@)
}

/// The texts that a binding is written as: the mode's name, the key's textual form and the
/// shortcut's name.
pub open spec fn entry_text(b: Binding) -> (Seq<char>, Seq<char>, Seq<char>) {
    (b.mode.spec_display(), b.key.spec_display(), b.action.spec_display())
}

/// Whether some key is bound in `mode`.
pub open spec fn has_mode(m: Map<(InputMode, KeyEvent), Shortcut>, mode: InputMode) -> bool {
    exists|k: (InputMode, KeyEvent)| #[trigger] m.contains_key(k) && k.0 == mode
}

/// The modes that have bindings, `MudList` before `MudSession`.
pub open spec fn modes_of(m: Map<(InputMode, KeyEvent), Shortcut>) -> Seq<InputMode> {
    (if has_mode(m, InputMode::MudList) {
        seq![InputMode::MudList]
    } else {
        seq![]
    }) + (if has_mode(m, InputMode::MudSession) {
        seq![InputMode::MudSession]
    } else {
        seq![]
    })
}

/// Where a key code sorts: first by its kind, in the order the kinds are declared, then by
/// the character or the function key's number.
pub open spec fn code_rank(c: KeyCode) -> (int, int) {
    match c {
        KeyCode::Char(ch) => (0, ch as int),
        KeyCode::F(n) => (1, n as int),
        KeyCode::Backspace => (2, 0),
        KeyCode::Enter => (3, 0),
        KeyCode::Left => (4, 0),
        KeyCode::Right => (5, 0),
        KeyCode::Up => (6, 0),
        KeyCode::Down => (7, 0),
        KeyCode::Home => (8, 0),
        KeyCode::End => (9, 0),
        KeyCode::PageUp => (10, 0),
        KeyCode::PageDown => (11, 0),
        KeyCode::Tab => (12, 0),
        KeyCode::Delete => (13, 0),
        KeyCode::Insert => (14, 0),
        KeyCode::Esc => (15, 0),
    }
}

/// Whether key `a` sorts before key `b`: by code, then by the modifier bits.
pub open spec fn key_less(a: KeyEvent, b: KeyEvent) -> bool {
    let ra = code_rank(a.code);
    let rb = code_rank(b.code);
    ra.0 < rb.0 || (ra.0 == rb.0 && (ra.1 < rb.1 || (ra.1 == rb.1 && a.modifiers.0
        < b.modifiers.0)))
}

/// Keys sort in a strict total order.
pub proof fn lemma_key_less_order(a: KeyEvent, b: KeyEvent, c: KeyEvent)
    ensures
        !key_less(a, a),
        a != b ==> key_less(a, b) || key_less(b, a),
        key_less(a, b) && key_less(b, c) ==> key_less(a, c),
{
    if code_rank(a.code) == code_rank(b.code) {
        match (a.code, b.code) {
            (KeyCode::Char(x), KeyCode::Char(y)) => {
                assert(x as int == y as int);
            },
            _ => {},
        }
        assert(a.code == b.code);
    }
}

/// Where a key code sorts (see [`code_rank`]).
fn rank_of(c: &KeyCode) -> (r: (u32, u32))
    ensures
        r.0 == code_rank(*c).0,
        r.1 == code_rank(*c).1,
{
    match c {
        KeyCode::Char(ch) => (0, *ch as u32),
        KeyCode::F(n) => (1, *n as u32),
        KeyCode::Backspace => (2, 0),
        KeyCode::Enter => (3, 0),
        KeyCode::Left => (4, 0),
        KeyCode::Right => (5, 0),
        KeyCode::Up => (6, 0),
        KeyCode::Down => (7, 0),
        KeyCode::Home => (8, 0),
        KeyCode::End => (9, 0),
        KeyCode::PageUp => (10, 0),
        KeyCode::PageDown => (11, 0),
        KeyCode::Tab => (12, 0),
        KeyCode::Delete => (13, 0),
        KeyCode::Insert => (14, 0),
        KeyCode::Esc => (15, 0),
    }
}

/// Whether key `a` sorts before key `b` (see [`key_less`]).
fn key_before(a: &KeyEvent, b: &KeyEvent) -> (r: bool)
    ensures
        r == key_less(*a, *b),
{
    let ra = rank_of(&a.code);
    let rb = rank_of(&b.code);
    ra.0 < rb.0 || (ra.0 == rb.0 && (ra.1 < rb.1 || (ra.1 == rb.1 && a.modifiers.0
        < b.modifiers.0)))
}

/// Whether the keys of a list of keyed shortcuts increase strictly.
pub open spec fn sorted_keys(s: Seq<(KeyEvent, Shortcut)>) -> bool {
    forall|i: int, j: int| #![trigger s[i], s[j]] 0 <= i < j < s.len() ==> key_less(s[i].0, s[j].0)
}

/// Insert `x` into the sorted list `v` before the first entry whose key sorts after its key.
fn insert_sorted(v: &mut Vec<(KeyEvent, Shortcut)>, x: (KeyEvent, Shortcut))
    requires
        sorted_keys(old(v)@),
        forall|i: int| 0 <= i < old(v)@.len() ==> (#[trigger] old(v)@[i]).0 != x.0,
    ensures
        sorted_keys(final(v)@),
        final(v)@.len() == old(v)@.len() + 1,
        forall|y: (KeyEvent, Shortcut)| #[trigger] final(v)@.contains(y) <==> (old(v)@.contains(y)
            || y == x),
{
    let mut p: usize = 0;
    while p < v.len() && !key_before(&x.0, &v[p].0)
        invariant
            p <= v@.len(),
            forall|q: int| 0 <= q < p ==> !key_less(x.0, (#[trigger] v@[q]).0),
        decreases v@.len() - p,
    {
        p += 1;
    }
    let ghost before = v@;
    proof {
        assert forall|q: int| 0 <= q < p implies key_less((#[trigger] before[q]).0, x.0) by {
            lemma_key_less_order(before[q].0, x.0, x.0);
        }
        assert forall|q: int| p <= q < before.len() implies key_less(x.0, (#[trigger] before[q]).0)
            by {
            if q > p {
                lemma_key_less_order(x.0, before[p as int].0, before[q].0);
            }
        }
    }
    v.insert(p, x);
    proof {
        let t = v@;
        assert(t == before.insert(p as int, x));
        assert forall|i: int, j: int| #![trigger t[i], t[j]] 0 <= i < j < t.len() implies key_less(
            t[i].0,
            t[j].0,
        ) by {
            let i2 = if i < p { i } else { i - 1 };
            let j2 = if j <= p { j } else { j - 1 };
            if i == p {
                assert(t[j] == before[j2]);
            } else if j == p {
                assert(t[i] == before[i2]);
            } else {
                assert(t[i] == before[i2] && t[j] == before[j2]);
                assert(i2 < j2);
            }
        }
        assert forall|y: (KeyEvent, Shortcut)| #[trigger] t.contains(y) <==> (before.contains(y)
            || y == x) by {
            if t.contains(y) {
                let k = choose|k: int| 0 <= k < t.len() && t[k] == y;
                if k < p {
                    assert(before[k] == y);
                } else if k > p {
                    assert(before[k - 1] == y);
                }
            }
            if before.contains(y) {
                let k = choose|k: int| 0 <= k < before.len() && before[k] == y;
                if k < p {
                    assert(t[k] == y);
                } else {
                    assert(t[k + 1] == y);
                }
            }
            if y == x {
                assert(t[p as int] == y);
            }
        }
    }
}

/// Where an input mode sorts: `MudList` before `MudSession`.
pub open spec fn mode_rank(m: InputMode) -> int {
    match m {
        InputMode::MudList => 0,
        InputMode::MudSession => 1,
    }
}

/// Whether binding `a` sorts before binding `b`: by mode, then by key.
pub open spec fn binding_less(a: Binding, b: Binding) -> bool {
    mode_rank(a.mode) < mode_rank(b.mode) || (a.mode == b.mode && key_less(a.key, b.key))
}

/// Whether `es` lists the bindings of `m`, each once, in the order bindings sort.
pub open spec fn ordered_listing(m: Map<(InputMode, KeyEvent), Shortcut>, es: Seq<Binding>) -> bool {
    &&& forall|i: int, j: int| #![trigger es[i], es[j]] 0 <= i < j < es.len() ==> binding_less(
        es[i],
        es[j],
    )
    &&& forall|i: int|
        0 <= i < es.len() ==> m.contains_key(binding_key(#[trigger] es[i])) && m[binding_key(es[i])]
            == es[i].action
    &&& forall|k: (InputMode, KeyEvent)| #[trigger]
        m.contains_key(k) ==> exists|i: int| 0 <= i < es.len() && binding_key(#[trigger] es[i]) == k
}

/// The bindings in `mode` of a list of keyed shortcuts.
pub open spec fn mode_listing(v: Seq<(KeyEvent, Shortcut)>, mode: InputMode) -> Seq<Binding> {
    Seq::new(v.len(), |i: int| Binding { mode, key: v[i].0, action: v[i].1 })
}

/// Append the raw form of the bindings of `v` in `mode` to `raw`.
fn push_raw(raw: &mut Vec<RawKeyBinding>, mode: InputMode, v: &Vec<(KeyEvent, Shortcut)>)
    ensures
        final(raw)@.len() == old(raw)@.len() + v@.len(),
        forall|i: int| 0 <= i < old(raw)@.len() ==> final(raw)@[i] == old(raw)@[i],
        forall|i: int|
            0 <= i < v@.len() ==> #[trigger] raw_text(final(raw)@[old(raw)@.len() + i])
                == entry_text(mode_listing(v@, mode)[i]),
{
    let ghost start = raw@;
    let mut i: usize = 0;
    while i < v.len()
        invariant
            i <= v@.len(),
            raw@.len() == start.len() + i,
            forall|j: int| 0 <= j < start.len() ==> raw@[j] == start[j],
            forall|j: int|
                0 <= j < i ==> #[trigger] raw_text(raw@[start.len() + j]) == entry_text(
                    mode_listing(v@, mode)[j],
                ),
        decreases v@.len() - i,
    {
        let (key, action) = v[i];
        raw.push(
            RawKeyBinding {
                mode: mode.to_string(),
                keys: key.to_string(),
                action: action.to_string(),
            },
        );
        proof {
            assert(mode_listing(v@, mode)[i as int] == Binding { mode, key, action });
        }
        i += 1;
    }
}

/// The key bindings of every input mode.
#[derive(Debug, Eq)]
pub struct KeyBindings {
    bindings: Vec<Binding>,
}

impl View for KeyBindings {
    type V = Map<(InputMode, KeyEvent), Shortcut>;

    /// The shortcut bound to each mode and key.
    closed spec fn view(&self) -> Self::V {
        binding_map(self.bindings@)
    }
}

impl KeyBindings {
    #[verifier::type_invariant]
    spec fn well_formed(self) -> bool {
        distinct_keys(self.bindings@)
    }

    /// The bindings in the order they are kept, one per mode and key.
    pub closed spec fn entries(self) -> Seq<Binding> {
        self.bindings@
    }

    /// The shortcut bound to `key` in `mode`, if any.
    pub fn lookup(&self, mode: InputMode, key: &KeyEvent) -> (r: Option<Shortcut>)
        ensures
            r == self@.get((mode, *key)),
    {
        proof {
            use_type_invariant(self);
            lemma_binding_map_dom(self.bindings@, (mode, *key));
        }
        match find_entry(&self.bindings, mode, key) {
            Some(i) => {
                proof {
                    lemma_binding_map_value(self.bindings@, i as int);
                }
                Some(self.bindings[i].action)
            },
            None => None,
        }
    }

    /// Read raw bindings in order, a later binding of a key in a mode replacing an earlier one.
    ///
    /// Fails on the first raw binding that does not parse: with
    /// [`KeyBindingError::UnknownMode`] for an unknown mode name,
    /// [`KeyBindingError::UnknownShortcut`] for an unknown shortcut name, and
    /// [`KeyBindingError::InvalidKeys`] for a key description that does not parse.
    pub fn from_raw(raw: &Vec<RawKeyBinding>) -> (res: Result<KeyBindings, KeyBindingError>)
        ensures
            res is Ok <==> forall|i: int| 0 <= i < raw@.len() ==> #[trigger] parsed_binding(
                raw@[i],
            ) is Some,
            res matches Ok(kb) ==> kb@ == binding_map(parsed_bindings(raw@)),
            res matches Err(e) ==> exists|i: int|
                0 <= i < raw@.len() && parsed_binding(#[trigger] raw@[i]) is None
                    && raw_binding_error(raw@[i], e) && forall|j: int|
                    0 <= j < i ==> parsed_binding(#[trigger] raw@[j]) is Some,
    {
        let mut v: Vec<Binding> = Vec::new();
        let mut i: usize = 0;
        while i < raw.len()
            invariant
                i <= raw@.len(),
                distinct_keys(v@),
                forall|j: int| 0 <= j < i ==> parsed_binding(#[trigger] raw@[j]) is Some,
                binding_map(v@) == binding_map(parsed_bindings(raw@.take(i as int))),
            decreases raw@.len() - i,
        {
            let b = match parse_raw_binding(&raw[i]) {
                Ok(b) => b,
                Err(e) => {
                    return Err(e);
                },
            };
            proof {
                let p = parsed_bindings(raw@.take(i as int));
                assert(parsed_bindings(raw@.take(i + 1)) =~= p.push(b));
                lemma_binding_map_push(p, b);
            }
            bind(&mut v, b);
            i += 1;
        }
        proof {
            assert(raw@.take(i as int) =~= raw@);
        }
        Ok(KeyBindings { bindings: v })
    }

    /// Add the bindings of `other` whose mode and key `self` does not bind yet; the bindings
    /// of `self` are kept.
    pub fn merge(&mut self, other: KeyBindings)
        ensures
            final(self)@ == other@.union_prefer_right(old(self)@),
    {
        proof {
            use_type_invariant(&*self);
            use_type_invariant(&other);
        }
        let mut v: Vec<Binding> = Vec::new();
        std::mem::swap(&mut v, &mut self.bindings);
        let ghost mine = binding_map(v@);
        let ghost theirs = other.bindings@;
        let mut i: usize = 0;
        proof {
            assert(binding_map(theirs.take(0)) =~= Map::<(InputMode, KeyEvent), Shortcut>::empty());
            assert(binding_map(v@) =~= binding_map(theirs.take(0)).union_prefer_right(mine));
        }
        while i < other.bindings.len()
            invariant
                i <= theirs.len(),
                theirs == other.bindings@,
                distinct_keys(v@),
                distinct_keys(theirs),
                binding_map(v@) == binding_map(theirs.take(i as int)).union_prefer_right(mine),
            decreases theirs.len() - i,
        {
            let b = other.bindings[i];
            let ghost k = binding_key(b);
            let ghost before = binding_map(theirs.take(i as int));
            proof {
                assert(theirs.take(i + 1) =~= theirs.take(i as int).push(b));
                lemma_binding_map_push(theirs.take(i as int), b);
                lemma_binding_map_dom(theirs.take(i as int), k);
                lemma_binding_map_dom(v@, k);
                assert(!before.contains_key(k)) by {
                    if before.contains_key(k) {
                        let j = choose|j: int|
                            0 <= j < i && binding_key(#[trigger] theirs.take(i as int)[j]) == k;
                        assert(theirs.take(i as int)[j] == theirs[j]);
                        assert(theirs[i as int] == b);
                    }
                }
            }
            match find_entry(&v, b.mode, &b.key) {
                Some(_) => {
                    proof {
                        assert(mine.contains_key(k));
                        assert(binding_map(theirs.take(i + 1)).union_prefer_right(mine)
                            =~= before.union_prefer_right(mine));
                    }
                },
                None => {
                    proof {
                        assert(!mine.contains_key(k));
                    }
                    bind(&mut v, b);
                    proof {
                        assert(binding_map(v@) =~= binding_map(theirs.take(i + 1)).union_prefer_right(
                            mine,
                        ));
                    }
                },
            }
            i += 1;
        }
        proof {
            assert(theirs.take(i as int) =~= theirs);
        }
        self.bindings = v;
    }

    /// The modes that have bindings, in the order `MudList`, `MudSession`.
    pub fn modes(&self) -> (v: Vec<InputMode>)
        ensures
            v@ == modes_of(self@),
    {
        let mut list = false;
        let mut session = false;
        let mut i: usize = 0;
        while i < self.bindings.len()
            invariant
                i <= self.bindings@.len(),
                list <==> exists|j: int|
                    0 <= j < i && (#[trigger] self.bindings@[j]).mode == InputMode::MudList,
                session <==> exists|j: int|
                    0 <= j < i && (#[trigger] self.bindings@[j]).mode == InputMode::MudSession,
            decreases self.bindings@.len() - i,
        {
            match self.bindings[i].mode {
                InputMode::MudList => {
                    list = true;
                },
                InputMode::MudSession => {
                    session = true;
                },
            }
            i += 1;
        }
        proof {
            let s = self.bindings@;
            assert forall|mode: InputMode| has_mode(self@, mode) <==> exists|j: int|
                0 <= j < s.len() && (#[trigger] s[j]).mode == mode by {
                if has_mode(self@, mode) {
                    let k = choose|k: (InputMode, KeyEvent)| #[trigger]
                        self@.contains_key(k) && k.0 == mode;
                    lemma_binding_map_dom(s, k);
                    let j = choose|j: int| 0 <= j < s.len() && binding_key(#[trigger] s[j]) == k;
                }
                if exists|j: int| 0 <= j < s.len() && (#[trigger] s[j]).mode == mode {
                    let j = choose|j: int| 0 <= j < s.len() && (#[trigger] s[j]).mode == mode;
                    lemma_binding_map_dom(s, binding_key(s[j]));
                    assert(self@.contains_key(binding_key(s[j])));
                }
            }
        }
        let mut v: Vec<InputMode> = Vec::new();
        if list {
            v.push(InputMode::MudList);
        }
        if session {
            v.push(InputMode::MudSession);
        }
        proof {
            assert(v@ =~= modes_of(self@));
        }
        v
    }

    /// The keys bound in `mode`, each with its shortcut, in the order keys sort (see
    /// [`key_less`]).
    pub fn bindings(&self, mode: InputMode) -> (v: Vec<(KeyEvent, Shortcut)>)
        ensures
            sorted_keys(v@),
            forall|i: int|
                0 <= i < v@.len() ==> self@.contains_key((mode, (#[trigger] v@[i]).0))
                    && self@[(mode, v@[i].0)] == v@[i].1,
            forall|key: KeyEvent| #[trigger]
                self@.contains_key((mode, key)) ==> exists|i: int|
                    0 <= i < v@.len() && (#[trigger] v@[i]).0 == key,
    {
        proof {
            use_type_invariant(self);
        }
        let ghost s = self.bindings@;
        let ghost m = self@;
        let mut v: Vec<(KeyEvent, Shortcut)> = Vec::new();
        let mut i: usize = 0;
        while i < self.bindings.len()
            invariant
                i <= s.len(),
                s == self.bindings@,
                m == binding_map(s),
                distinct_keys(s),
                sorted_keys(v@),
                forall|y: (KeyEvent, Shortcut)| #[trigger] v@.contains(y) <==> exists|j: int|
                    0 <= j < i && (#[trigger] s[j]).mode == mode && y == (s[j].key, s[j].action),
            decreases s.len() - i,
        {
            let b = self.bindings[i];
            if b.mode == mode {
                proof {
                    assert forall|x: int| 0 <= x < v@.len() implies (#[trigger] v@[x]).0 != b.key by {
                        assert(v@.contains(v@[x]));
                        let j = choose|j: int|
                            0 <= j < i && (#[trigger] s[j]).mode == mode && v@[x] == (
                                s[j].key,
                                s[j].action,
                            );
                        assert(s[i as int] == b);
                    }
                }
                let ghost before = v@;
                insert_sorted(&mut v, (b.key, b.action));
                proof {
                    assert forall|y: (KeyEvent, Shortcut)| #[trigger] v@.contains(y) <==> exists|j: int|
                        0 <= j < i + 1 && (#[trigger] s[j]).mode == mode && y == (
                            s[j].key,
                            s[j].action,
                        ) by {
                        if y == (b.key, b.action) {
                            assert(s[i as int] == b);
                        }
                        if exists|j: int|
                            0 <= j < i + 1 && (#[trigger] s[j]).mode == mode && y == (
                                s[j].key,
                                s[j].action,
                            ) {
                            let j = choose|j: int|
                                0 <= j < i + 1 && (#[trigger] s[j]).mode == mode && y == (
                                    s[j].key,
                                    s[j].action,
                                );
                            if j < i {
                                assert(before.contains(y));
                            }
                        }
                    }
                }
            } else {
                proof {
                    assert forall|y: (KeyEvent, Shortcut)| #[trigger] v@.contains(y) <==> exists|j: int|
                        0 <= j < i + 1 && (#[trigger] s[j]).mode == mode && y == (
                            s[j].key,
                            s[j].action,
                        ) by {
                        if exists|j: int|
                            0 <= j < i + 1 && (#[trigger] s[j]).mode == mode && y == (
                                s[j].key,
                                s[j].action,
                            ) {
                            let j = choose|j: int|
                                0 <= j < i + 1 && (#[trigger] s[j]).mode == mode && y == (
                                    s[j].key,
                                    s[j].action,
                                );
                            assert(j != i);
                        }
                    }
                }
            }
            i += 1;
        }
        proof {
            assert forall|x: int| 0 <= x < v@.len() implies m.contains_key(
                (mode, (#[trigger] v@[x]).0),
            ) && m[(mode, v@[x].0)] == v@[x].1 by {
                assert(v@.contains(v@[x]));
                let j = choose|j: int|
                    0 <= j < s.len() && (#[trigger] s[j]).mode == mode && v@[x] == (
                        s[j].key,
                        s[j].action,
                    );
                lemma_binding_map_value(s, j);
            }
            assert forall|key: KeyEvent| #[trigger] m.contains_key((mode, key)) implies exists|x: int|
                0 <= x < v@.len() && (#[trigger] v@[x]).0 == key by {
                lemma_binding_map_dom(s, (mode, key));
                let j = choose|j: int| 0 <= j < s.len() && binding_key(#[trigger] s[j]) == (mode, key);
                assert(s[j].mode == mode);
                assert(v@.contains((s[j].key, s[j].action)));
                let x = choose|x: int| 0 <= x < v@.len() && v@[x] == (s[j].key, s[j].action);
                assert(v@[x].0 == key);
            }
        }
        v
    }

    /// The raw form of each binding, in the order bindings sort (mode, then key): the names
    /// of the mode and the shortcut, and the textual form of the key.
    pub fn to_raw(&self) -> (raw: Vec<RawKeyBinding>)
        ensures
            exists|es: Seq<Binding>|
                ordered_listing(self@, es) && raw@.len() == es.len() && forall|i: int|
                    0 <= i < raw@.len() ==> #[trigger] raw_text(raw@[i]) == entry_text(es[i]),
    {
        let list = self.bindings(InputMode::MudList);
        let session = self.bindings(InputMode::MudSession);
        let mut raw: Vec<RawKeyBinding> = Vec::new();
        push_raw(&mut raw, InputMode::MudList, &list);
        let ghost first = raw@;
        push_raw(&mut raw, InputMode::MudSession, &session);
        proof {
            let l = mode_listing(list@, InputMode::MudList);
            let r = mode_listing(session@, InputMode::MudSession);
            let es = l + r;
            let n = l.len();
            assert forall|i: int| 0 <= i < raw@.len() implies #[trigger] raw_text(raw@[i])
                == entry_text(es[i]) by {
                if i < n {
                    assert(raw@[i] == first[i]);
                    assert(raw_text(first[0 + i]) == entry_text(l[i]));
                } else {
                    assert(raw_text(raw@[n + (i - n)]) == entry_text(r[i - n]));
                }
            }
            assert forall|i: int, j: int| #![trigger es[i], es[j]] 0 <= i < j < es.len() implies binding_less(
                es[i],
                es[j],
            ) by {
                if j < n {
                    assert(list@[i].0 == es[i].key && list@[j].0 == es[j].key);
                } else if i >= n {
                    assert(session@[i - n].0 == es[i].key && session@[j - n].0 == es[j].key);
                }
            }
            assert forall|i: int| 0 <= i < es.len() implies self@.contains_key(
                binding_key(#[trigger] es[i]),
            ) && self@[binding_key(es[i])] == es[i].action by {
                if i < n {
                    assert(list@[i].0 == es[i].key);
                } else {
                    assert(session@[i - n].0 == es[i].key);
                }
            }
            assert forall|k: (InputMode, KeyEvent)| #[trigger] self@.contains_key(k) implies exists|
                i: int,
            | 0 <= i < es.len() && binding_key(#[trigger] es[i]) == k by {
                match k.0 {
                    InputMode::MudList => {
                        assert(self@.contains_key((InputMode::MudList, k.1)));
                        let x = choose|x: int| 0 <= x < list@.len() && (#[trigger] list@[x]).0 == k.1;
                        assert(binding_key(es[x]) == k);
                    },
                    InputMode::MudSession => {
                        assert(self@.contains_key((InputMode::MudSession, k.1)));
                        let x = choose|x: int|
                            0 <= x < session@.len() && (#[trigger] session@[x]).0 == k.1;
                        assert(binding_key(es[n + x]) == k);
                    },
                }
            }
            assert(ordered_listing(self@, es));
        }
        raw
    }

    /// Whether no key is bound in any mode.
    pub fn is_empty(&self) -> (b: bool)
        ensures
            b == (self@ == Map::<(InputMode, KeyEvent), Shortcut>::empty()),
    {
        proof {
            if self.bindings@.len() > 0 {
                let s = self.bindings@;
                lemma_binding_map_dom(s, binding_key(s[0]));
                assert(!Map::<(InputMode, KeyEvent), Shortcut>::empty().contains_key(
                    binding_key(s[0]),
                ));
            } else {
                assert(self@ =~= Map::<(InputMode, KeyEvent), Shortcut>::empty());
            }
        }
        self.bindings.len() == 0
    }
}

/// A copy of a list of entries.
fn copy_entries(v: &Vec<Binding>) -> (r: Vec<Binding>)
    ensures
        r@ == v@,
{
    let mut r: Vec<Binding> = Vec::new();
    let mut i: usize = 0;
    while i < v.len()
        invariant
            i <= v@.len(),
            r@ == v@.take(i as int),
        decreases v@.len() - i,
    {
        r.push(v[i]);
        i += 1;
        proof {
            assert(r@ =~= v@.take(i as int));
        }
    }
    proof {
        assert(v@.take(i as int) =~= v@);
    }
    r
}

impl Clone for KeyBindings {
    /// A copy with the same bindings, kept in the same order.
    fn clone(&self) -> (r: KeyBindings)
        ensures
            r@ == self@,
            r.entries() == self.entries(),
    {
        proof {
            use_type_invariant(self);
        }
        KeyBindings { bindings: copy_entries(&self.bindings) }
    }
}

/// Listed in sorting order, no two bindings share a mode and key, and together they bind
/// what the map binds.
pub proof fn lemma_listing_map(m: Map<(InputMode, KeyEvent), Shortcut>, es: Seq<Binding>)
    requires
        ordered_listing(m, es),
    ensures
        distinct_keys(es),
        binding_map(es) == m,
{
    assert forall|i: int, j: int| #![trigger es[i], es[j]] 0 <= i < j < es.len() implies binding_key(
        es[i],
    ) != binding_key(es[j]) by {
        lemma_key_less_order(es[i].key, es[j].key, es[j].key);
    }
    assert forall|k: (InputMode, KeyEvent)| #[trigger] binding_map(es).contains_key(k)
        == m.contains_key(k) by {
        lemma_binding_map_dom(es, k);
        if binding_map(es).contains_key(k) {
            let i = choose|i: int| 0 <= i < es.len() && binding_key(#[trigger] es[i]) == k;
        }
    }
    assert forall|k: (InputMode, KeyEvent)| #[trigger] binding_map(es).contains_key(k) implies
        binding_map(es)[k] == m[k] by {
        lemma_binding_map_dom(es, k);
        let i = choose|i: int| 0 <= i < es.len() && binding_key(#[trigger] es[i]) == k;
        lemma_binding_map_value(es, i);
    }
    assert(binding_map(es) =~= m);
}

/// Writing key bindings out and reading them back gives the same bindings: every raw binding
/// that [`KeyBindings::to_raw`] writes (the texts of a sorted listing `es` of the bindings)
/// parses, and the bindings they denote are the ones written, provided each bound key can be
/// written unambiguously (see [`text_round_trips`]).
pub proof fn lemma_raw_roundtrip(kb: KeyBindings, es: Seq<Binding>, raw: Seq<RawKeyBinding>)
    requires
        ordered_listing(kb@, es),
        raw.len() == es.len(),
        forall|i: int| 0 <= i < raw.len() ==> #[trigger] raw_text(raw[i]) == entry_text(es[i]),
        forall|i: int| 0 <= i < es.len() ==> text_round_trips(#[trigger] es[i].key),
    ensures
        forall|i: int| 0 <= i < raw.len() ==> #[trigger] parsed_binding(raw[i]) is Some,
        binding_map(parsed_bindings(raw)) == kb@,
{
    assert forall|i: int| 0 <= i < raw.len() implies #[trigger] parsed_binding(raw[i]) == Some(es[i]) by {
        assert(raw_text(raw[i]) == entry_text(es[i]));
        assert(text_round_trips(es[i].key));
        lemma_input_mode_name_roundtrip(es[i].mode);
        lemma_shortcut_name_roundtrip(es[i].action);
        lemma_key_event_text_roundtrip(es[i].key);
    }
    assert(parsed_bindings(raw) =~= es);
    lemma_listing_map(kb@, es);
}

impl PartialEq for KeyBindings {
    /// Whether both bind the same keys in the same modes to the same shortcuts, whatever the
    /// order the bindings were made in.
    fn eq(&self, other: &Self) -> (r: bool) {
        proof {
            use_type_invariant(self);
            use_type_invariant(other);
        }
        let mut i: usize = 0;
        while i < self.bindings.len()
            invariant
                i <= self.bindings@.len(),
                distinct_keys(self.bindings@),
                forall|j: int|
                    0 <= j < i ==> other@.get(binding_key(#[trigger] self.bindings@[j])) == Some(
                        self.bindings@[j].action,
                    ),
            decreases self.bindings@.len() - i,
        {
            let b = self.bindings[i];
            if other.lookup(b.mode, &b.key) != Some(b.action) {
                proof {
                    lemma_binding_map_value(self.bindings@, i as int);
                }
                return false;
            }
            i += 1;
        }
        let mut i: usize = 0;
        while i < other.bindings.len()
            invariant
                i <= other.bindings@.len(),
                forall|j: int|
                    0 <= j < i ==> self@.contains_key(binding_key(#[trigger] other.bindings@[j])),
            decreases other.bindings@.len() - i,
        {
            let b = other.bindings[i];
            if self.lookup(b.mode, &b.key).is_none() {
                proof {
                    lemma_binding_map_dom(other.bindings@, binding_key(b));
                    assert(other.bindings@[i as int] == b);
                }
                return false;
            }
            i += 1;
        }
        proof {
            assert forall|k: (InputMode, KeyEvent)| #![trigger self@.dom().contains(k)]
                #![trigger other@.dom().contains(k)]
                self@.dom().contains(k) == other@.dom().contains(k) && (self@.dom().contains(k)
                    ==> self@[k] == other@[k]) by {
                lemma_binding_map_dom(self.bindings@, k);
                lemma_binding_map_dom(other.bindings@, k);
                if self@.contains_key(k) {
                    let j = choose|j: int|
                        0 <= j < self.bindings@.len() && binding_key(#[trigger] self.bindings@[j])
                            == k;
                    lemma_binding_map_value(self.bindings@, j);
                }
                if other@.contains_key(k) {
                    let j = choose|j: int|
                        0 <= j < other.bindings@.len() && binding_key(
                            #[trigger] other.bindings@[j],
                        ) == k;
                }
            }
            assert(self@ =~= other@);
        }
        true
    }
}

impl vstd::std_specs::cmp::PartialEqSpecImpl for KeyBindings {
    open spec fn obeys_eq_spec() -> bool {
        true
    }

    open spec fn eq_spec(&self, other: &Self) -> bool {
        self@ == other@
    }
}

impl Default for KeyBindings {
    /// No bindings.
    fn default() -> (kb: KeyBindings)
        ensures
            kb@ == Map::<(InputMode, KeyEvent), Shortcut>::empty(),
    {
        KeyBindings { bindings: Vec::new() }
    }
}

} // verus!
