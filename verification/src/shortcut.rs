//! Shortcuts: what a key press or a command asks the user interface to do.

use vstd::prelude::*;

use crate::config::{Settings, SettingsOverlay};
use crate::keyboard::{KeyCode, KeyEvent, KeyModifiers, ALT_BITS, CONTROL_BITS};
use crate::text::{owned, push_str};

verus! {

/// A shortcut acting on the tabs.
#[derive(Debug, Clone, Copy, PartialEq, Eq, Structural)]
pub enum TabShortcut {
    /// Show the next tab.
    SwitchToNext {},
    /// Show the previous tab.
    SwitchToPrevious {},
    /// Show the MUD list tab.
    SwitchToList {},
    /// Show the tab with the given identifier.
    SwitchTo { tab_id: u32 },
    /// Show the tab of the given session.
    SwitchToSession { session: u32 },
    /// Move a tab (the active one when none is given) to the left.
    MoveLeft { tab_id: Option<u32> },
    /// Move a tab (the active one when none is given) to the right.
    MoveRight { tab_id: Option<u32> },
    /// Close a tab (the active one when none is given).
    Close { tab_id: Option<u32> },
}

impl TabShortcut {
    /// The shortcut's name.
    pub open spec fn spec_display(self) -> Seq<char> {
        match self {
            TabShortcut::SwitchToNext { .. } => "SwitchToNext"@,
            TabShortcut::SwitchToPrevious { .. } => "SwitchToPrevious"@,
            TabShortcut::SwitchToList { .. } => "SwitchToList"@,
            TabShortcut::SwitchTo { .. } => "SwitchTo"@,
            TabShortcut::SwitchToSession { .. } => "SwitchToSession"@,
            TabShortcut::MoveLeft { .. } => "MoveLeft"@,
            TabShortcut::MoveRight { .. } => "MoveRight"@,
            TabShortcut::Close { .. } => "Close"@,
        }
    }

    /// The shortcut's name.
    pub fn to_string(&self) -> (s: String)
        ensures
            s@ == self.spec_display(),
    {
        match self {
            TabShortcut::SwitchToNext { .. } => owned("SwitchToNext"),
            TabShortcut::SwitchToPrevious { .. } => owned("SwitchToPrevious"),
            TabShortcut::SwitchToList { .. } => owned("SwitchToList"),
            TabShortcut::SwitchTo { .. } => owned("SwitchTo"),
            TabShortcut::SwitchToSession { .. } => owned("SwitchToSession"),
            TabShortcut::MoveLeft { .. } => owned("MoveLeft"),
            TabShortcut::MoveRight { .. } => owned("MoveRight"),
            TabShortcut::Close { .. } => owned("Close"),
        }
    }
}

/// A shortcut acting on the MUD list menu.
#[derive(Debug, Clone, Copy, PartialEq, Eq, Structural)]
pub enum MenuShortcut {
    Up,
    Down,
    Connect,
}

impl MenuShortcut {
    /// The shortcut's name.
    pub open spec fn spec_display(self) -> Seq<char> {
        match self {
            MenuShortcut::Up => "Up"@,
            MenuShortcut::Down => "Down"@,
            MenuShortcut::Connect => "Connect"@,
        }
    }

    /// The shortcut's name.
    pub fn to_string(&self) -> (s: String)
        ensures
            s@ == self.spec_display(),
    {
        match self {
            MenuShortcut::Up => owned("Up"),
            MenuShortcut::Down => owned("Down"),
            MenuShortcut::Connect => owned("Connect"),
        }
    }
}

/// A shortcut acting on the input line of a session.
#[derive(Debug, Clone, Copy, PartialEq, Eq, Structural)]
pub enum InputShortcut {
    Send,
    CursorLeft,
    CursorRight,
    CursorToStart,
    CursorToEnd,
    CursorWordLeft,
    CursorWordRight,
    DeletePrev,
    DeleteNext,
    CursorDeleteWordLeft,
    CursorDeleteWordRight,
    CursorDeleteToEnd,
    Reset,
}

impl InputShortcut {
    /// The shortcut's name.
    pub open spec fn spec_display(self) -> Seq<char> {
        match self {
            InputShortcut::Send => "Send"@,
            InputShortcut::CursorLeft => "CursorLeft"@,
            InputShortcut::CursorRight => "CursorRight"@,
            InputShortcut::CursorToStart => "CursorToStart"@,
            InputShortcut::CursorToEnd => "CursorToEnd"@,
            InputShortcut::CursorWordLeft => "CursorWordLeft"@,
            InputShortcut::CursorWordRight => "CursorWordRight"@,
            InputShortcut::DeletePrev => "DeletePrev"@,
            InputShortcut::DeleteNext => "DeleteNext"@,
            InputShortcut::CursorDeleteWordLeft => "CursorDeleteWordLeft"@,
            InputShortcut::CursorDeleteWordRight => "CursorDeleteWordRight"@,
            InputShortcut::CursorDeleteToEnd => "CursorDeleteToEnd"@,
            InputShortcut::Reset => "Reset"@,
        }
    }

    /// The shortcut's name.
    pub fn to_string(&self) -> (s: String)
        ensures
            s@ == self.spec_display(),
    {
        match self {
            InputShortcut::Send => owned("Send"),
            InputShortcut::CursorLeft => owned("CursorLeft"),
            InputShortcut::CursorRight => owned("CursorRight"),
            InputShortcut::CursorToStart => owned("CursorToStart"),
            InputShortcut::CursorToEnd => owned("CursorToEnd"),
            InputShortcut::CursorWordLeft => owned("CursorWordLeft"),
            InputShortcut::CursorWordRight => owned("CursorWordRight"),
            InputShortcut::DeletePrev => owned("DeletePrev"),
            InputShortcut::DeleteNext => owned("DeleteNext"),
            InputShortcut::CursorDeleteWordLeft => owned("CursorDeleteWordLeft"),
            InputShortcut::CursorDeleteWordRight => owned("CursorDeleteWordRight"),
            InputShortcut::CursorDeleteToEnd => owned("CursorDeleteToEnd"),
            InputShortcut::Reset => owned("Reset"),
        }
    }
}

/// A shortcut scrolling the output of a session.
#[derive(Debug, Clone, Copy, PartialEq, Eq, Structural)]
pub enum ScrollShortcut {
    Up,
    Down,
    Top,
    Bottom,
}

impl ScrollShortcut {
    /// The shortcut's name.
    pub open spec fn spec_display(self) -> Seq<char> {
        match self {
            ScrollShortcut::Up => "Up"@,
            ScrollShortcut::Down => "Down"@,
            ScrollShortcut::Top => "Top"@,
            ScrollShortcut::Bottom => "Bottom"@,
        }
    }

    /// The shortcut's name.
    pub fn to_string(&self) -> (s: String)
        ensures
            s@ == self.spec_display(),
    {
        match self {
            ScrollShortcut::Up => owned("Up"),
            ScrollShortcut::Down => owned("Down"),
            ScrollShortcut::Top => owned("Top"),
            ScrollShortcut::Bottom => owned("Bottom"),
        }
    }
}

/// A shortcut that toggles a setting for the active character.
#[derive(Debug, Clone, Copy, PartialEq, Eq, Structural)]
pub enum SettingsShortcut {
    /// Toggle wrapping of output lines.
    LineWrap,
    /// Toggle echoing of input in the output.
    EchoInput,
    /// Toggle echoing of received GMCP messages.
    GmcpDebug,
}

impl SettingsShortcut {
    /// The shortcut's name.
    pub open spec fn spec_display(self) -> Seq<char> {
        match self {
            SettingsShortcut::LineWrap => "LineWrap"@,
            SettingsShortcut::EchoInput => "EchoInput"@,
            SettingsShortcut::GmcpDebug => "GmcpDebug"@,
        }
    }

    /// The shortcut's name.
    pub fn to_string(&self) -> (s: String)
        ensures
            s@ == self.spec_display(),
    {
        match self {
            SettingsShortcut::LineWrap => owned("LineWrap"),
            SettingsShortcut::EchoInput => owned("EchoInput"),
            SettingsShortcut::GmcpDebug => owned("GmcpDebug"),
        }
    }

    /// Flip the setting: its new value is the opposite of its value in the resolved
    /// `current` settings, and is recorded as an override in `next`; the new value is
    /// returned. Nothing else of `next` changes.
    pub fn apply_shortcut(&self, current: &Settings, next: &mut SettingsOverlay) -> (new_value: bool)
        ensures
            match *self {
                SettingsShortcut::LineWrap => new_value == !current.word_wrap && *final(next) == (
                SettingsOverlay { word_wrap: Some(new_value), ..*old(next) }),
                SettingsShortcut::EchoInput => new_value == !current.show_input_echo
                    && *final(next) == (SettingsOverlay {
                    show_input_echo: Some(new_value),
                    ..*old(next)
                }),
                SettingsShortcut::GmcpDebug => new_value == !current.gmcp_echo && *final(next) == (
                SettingsOverlay { gmcp_echo: Some(new_value), ..*old(next) }),
            },
    {
        match self {
            SettingsShortcut::LineWrap => {
                let new_setting = !current.word_wrap;
                next.word_wrap = Some(new_setting);
                new_setting
            },
            SettingsShortcut::EchoInput => {
                let new_setting = !current.show_input_echo;
                next.show_input_echo = Some(new_setting);
                new_setting
            },
            SettingsShortcut::GmcpDebug => {
                let new_setting = !current.gmcp_echo;
                next.gmcp_echo = Some(new_setting);
                new_setting
            },
        }
    }

    /// The message reporting the new value: `<name> enabled` or `<name> disabled`.
    pub fn result_message(&self, new_value: bool) -> (s: String)
        ensures
            s@ == self.spec_display() + (if new_value {
                " enabled"@
            } else {
                " disabled"@
            }),
    {
        let mut s = self.to_string();
        if new_value {
            push_str(&mut s, " enabled");
        } else {
            push_str(&mut s, " disabled");
        }
        s
    }
}


/// A shortcut implemented by a script, by the handle of its callback, with a label.
///
/// Two such shortcuts are equal when they call the same callback, whatever their labels.
#[derive(Debug, Clone, Eq)]
pub struct PythonShortcut {
    pub label: String,
    pub handle: u32,
}

impl PartialEq for PythonShortcut {
    /// Whether both shortcuts call the same callback.
    fn eq(&self, other: &Self) -> (r: bool) {
        self.handle == other.handle
    }
}

impl vstd::std_specs::cmp::PartialEqSpecImpl for PythonShortcut {
    open spec fn obeys_eq_spec() -> bool {
        true
    }

    open spec fn eq_spec(&self, other: &Self) -> bool {
        self.handle == other.handle
    }
}

impl PythonShortcut {
    /// The shortcut's label.
    pub fn to_string(&self) -> (s: String)
        ensures
            s@ == self.label@,
    {
        self.label.clone()
    }
}

/// A shortcut.
#[derive(Debug, Clone, PartialEq, Eq)]
pub enum Shortcut {
    Tab(TabShortcut),
    Menu(MenuShortcut),
    SessionInput(InputShortcut),
    Scroll(ScrollShortcut),
    ToggleSetting(SettingsShortcut),
    Python(PythonShortcut),
    Quit {},
}

impl Shortcut {
    /// The textual form: the kind of shortcut with the inner shortcut's name in parentheses,
    /// or `Quit`.
    pub open spec fn spec_display(&self) -> Seq<char> {
        match self {
            Shortcut::Tab(s) => "Tab("@ + s.spec_display() + ")"@,
            Shortcut::Menu(s) => "Menu("@ + s.spec_display() + ")"@,
            Shortcut::SessionInput(s) => "SessionInput("@ + s.spec_display() + ")"@,
            Shortcut::Scroll(s) => "Scroll("@ + s.spec_display() + ")"@,
            Shortcut::ToggleSetting(s) => "ToggleSetting("@ + s.spec_display() + ")"@,
            Shortcut::Python(s) => "PythonShortcut("@ + s.label@ + ")"@,
            Shortcut::Quit {  } => "Quit"@,
        }
    }

    /// The textual form of the shortcut.
    pub fn to_string(&self) -> (s: String)
        ensures
            s@ == self.spec_display(),
    {
        let (kind, inner) = match self {
            Shortcut::Tab(s) => ("Tab(", s.to_string()),
            Shortcut::Menu(s) => ("Menu(", s.to_string()),
            Shortcut::SessionInput(s) => ("SessionInput(", s.to_string()),
            Shortcut::Scroll(s) => ("Scroll(", s.to_string()),
            Shortcut::ToggleSetting(s) => ("ToggleSetting(", s.to_string()),
            Shortcut::Python(s) => ("PythonShortcut(", s.to_string()),
            Shortcut::Quit {  } => {
                return owned("Quit");
            },
        };
        let mut s = owned(kind);
        push_str(&mut s, inner.as_str());
        push_str(&mut s, ")");
        s
    }
}

impl From<TabShortcut> for Shortcut {
    /// The shortcut wrapping `shortcut`.
    fn from(shortcut: TabShortcut) -> (s: Shortcut) {
        Shortcut::Tab(shortcut)
    }
}

impl vstd::std_specs::convert::FromSpecImpl<TabShortcut> for Shortcut {
    open spec fn obeys_from_spec() -> bool {
        true
    }

    open spec fn from_spec(shortcut: TabShortcut) -> Shortcut {
        Shortcut::Tab(shortcut)
    }
}

impl From<MenuShortcut> for Shortcut {
    /// The shortcut wrapping `shortcut`.
    fn from(shortcut: MenuShortcut) -> (s: Shortcut) {
        Shortcut::Menu(shortcut)
    }
}

impl vstd::std_specs::convert::FromSpecImpl<MenuShortcut> for Shortcut {
    open spec fn obeys_from_spec() -> bool {
        true
    }

    open spec fn from_spec(shortcut: MenuShortcut) -> Shortcut {
        Shortcut::Menu(shortcut)
    }
}

impl From<InputShortcut> for Shortcut {
    /// The shortcut wrapping `shortcut`.
    fn from(shortcut: InputShortcut) -> (s: Shortcut) {
        Shortcut::SessionInput(shortcut)
    }
}

impl vstd::std_specs::convert::FromSpecImpl<InputShortcut> for Shortcut {
    open spec fn obeys_from_spec() -> bool {
        true
    }

    open spec fn from_spec(shortcut: InputShortcut) -> Shortcut {
        Shortcut::SessionInput(shortcut)
    }
}

impl From<ScrollShortcut> for Shortcut {
    /// The shortcut wrapping `shortcut`.
    fn from(shortcut: ScrollShortcut) -> (s: Shortcut) {
        Shortcut::Scroll(shortcut)
    }
}

impl vstd::std_specs::convert::FromSpecImpl<ScrollShortcut> for Shortcut {
    open spec fn obeys_from_spec() -> bool {
        true
    }

    open spec fn from_spec(shortcut: ScrollShortcut) -> Shortcut {
        Shortcut::Scroll(shortcut)
    }
}

impl From<SettingsShortcut> for Shortcut {
    /// The shortcut wrapping `shortcut`.
    fn from(shortcut: SettingsShortcut) -> (s: Shortcut) {
        Shortcut::ToggleSetting(shortcut)
    }
}

impl vstd::std_specs::convert::FromSpecImpl<SettingsShortcut> for Shortcut {
    open spec fn obeys_from_spec() -> bool {
        true
    }

    open spec fn from_spec(shortcut: SettingsShortcut) -> Shortcut {
        Shortcut::ToggleSetting(shortcut)
    }
}

impl From<PythonShortcut> for Shortcut {
    /// The shortcut wrapping `shortcut`.
    fn from(shortcut: PythonShortcut) -> (s: Shortcut) {
        Shortcut::Python(shortcut)
    }
}

impl vstd::std_specs::convert::FromSpecImpl<PythonShortcut> for Shortcut {
    open spec fn obeys_from_spec() -> bool {
        true
    }

    open spec fn from_spec(shortcut: PythonShortcut) -> Shortcut {
        Shortcut::Python(shortcut)
    }
}

/// The built-in key bindings of the application: ctrl-c and escape quit; ctrl-n and ctrl-p
/// switch to the next and previous tab; alt-n and alt-p move the active tab right and left;
/// ctrl-x closes the active tab.
pub open spec fn default_shortcut_table() -> Seq<(KeyEvent, Shortcut)> {
    seq![
        (KeyEvent { code: KeyCode::Char('c'), modifiers: KeyModifiers(CONTROL_BITS) }, Shortcut::Quit {  }),
        (KeyEvent { code: KeyCode::Esc, modifiers: KeyModifiers(0) }, Shortcut::Quit {  }),
        (KeyEvent { code: KeyCode::Char('n'), modifiers: KeyModifiers(CONTROL_BITS) }, Shortcut::Tab(TabShortcut::SwitchToNext {  })),
        (KeyEvent { code: KeyCode::Char('p'), modifiers: KeyModifiers(CONTROL_BITS) }, Shortcut::Tab(TabShortcut::SwitchToPrevious {  })),
        (KeyEvent { code: KeyCode::Char('n'), modifiers: KeyModifiers(ALT_BITS) }, Shortcut::Tab(TabShortcut::MoveRight { tab_id: None })),
        (KeyEvent { code: KeyCode::Char('p'), modifiers: KeyModifiers(ALT_BITS) }, Shortcut::Tab(TabShortcut::MoveLeft { tab_id: None })),
        (KeyEvent { code: KeyCode::Char('x'), modifiers: KeyModifiers(CONTROL_BITS) }, Shortcut::Tab(TabShortcut::Close { tab_id: None })),
    ]
}

/// The built-in key bindings of the application (see [`default_shortcut_table`]).
pub fn default_shortcuts() -> (v: Vec<(KeyEvent, Shortcut)>)
    ensures
        v@ == default_shortcut_table(),
{
    let mut v: Vec<(KeyEvent, Shortcut)> = Vec::new();
    v.push((KeyEvent::new(KeyCode::Char('c'), KeyModifiers(CONTROL_BITS)), Shortcut::Quit {  }));
    v.push((KeyEvent::new(KeyCode::Esc, KeyModifiers(0)), Shortcut::Quit {  }));
    v.push((KeyEvent::new(KeyCode::Char('n'), KeyModifiers(CONTROL_BITS)), Shortcut::Tab(TabShortcut::SwitchToNext {  })));
    v.push((KeyEvent::new(KeyCode::Char('p'), KeyModifiers(CONTROL_BITS)), Shortcut::Tab(TabShortcut::SwitchToPrevious {  })));
    v.push((KeyEvent::new(KeyCode::Char('n'), KeyModifiers(ALT_BITS)), Shortcut::Tab(TabShortcut::MoveRight { tab_id: None })));
    v.push((KeyEvent::new(KeyCode::Char('p'), KeyModifiers(ALT_BITS)), Shortcut::Tab(TabShortcut::MoveLeft { tab_id: None })));
    v.push((KeyEvent::new(KeyCode::Char('x'), KeyModifiers(CONTROL_BITS)), Shortcut::Tab(TabShortcut::Close { tab_id: None })));
    proof {
        assert(v@ =~= default_shortcut_table());
    }
    v
}

/// The shortcut a list of key bindings binds `key` to: that of the first entry for the key.
pub open spec fn bound_to(t: Seq<(KeyEvent, Shortcut)>, key: KeyEvent) -> Option<Shortcut>
    decreases t.len(),
{
    if t.len() == 0 {
        None
    } else if t[0].0 == key {
        Some(t[0].1)
    } else {
        bound_to(t.drop_first(), key)
    }
}

/// The built-in key bindings: each key is bound once; Ctrl-C and Esc quit; Ctrl-N switches to
/// the next tab and Ctrl-P to the previous one; Alt-N moves the tab right and Alt-P left;
/// Ctrl-X closes the tab; no other key is bound.
pub proof fn lemma_default_shortcuts(key: KeyEvent)
    ensures
        forall|i: int, j: int|
            0 <= i < j < default_shortcut_table().len() ==> default_shortcut_table()[i].0
                != default_shortcut_table()[j].0,
        bound_to(
            default_shortcut_table(),
            KeyEvent { code: KeyCode::Char('c'), modifiers: KeyModifiers(CONTROL_BITS) },
        ) == Some(Shortcut::Quit {  }),
        bound_to(default_shortcut_table(), KeyEvent { code: KeyCode::Esc, modifiers: KeyModifiers(0) })
            == Some(Shortcut::Quit {  }),
        bound_to(
            default_shortcut_table(),
            KeyEvent { code: KeyCode::Char('n'), modifiers: KeyModifiers(CONTROL_BITS) },
        ) == Some(Shortcut::Tab(TabShortcut::SwitchToNext {  })),
        bound_to(
            default_shortcut_table(),
            KeyEvent { code: KeyCode::Char('p'), modifiers: KeyModifiers(CONTROL_BITS) },
        ) == Some(Shortcut::Tab(TabShortcut::SwitchToPrevious {  })),
        bound_to(
            default_shortcut_table(),
            KeyEvent { code: KeyCode::Char('n'), modifiers: KeyModifiers(ALT_BITS) },
        ) == Some(Shortcut::Tab(TabShortcut::MoveRight { tab_id: None })),
        bound_to(
            default_shortcut_table(),
            KeyEvent { code: KeyCode::Char('p'), modifiers: KeyModifiers(ALT_BITS) },
        ) == Some(Shortcut::Tab(TabShortcut::MoveLeft { tab_id: None })),
        bound_to(
            default_shortcut_table(),
            KeyEvent { code: KeyCode::Char('x'), modifiers: KeyModifiers(CONTROL_BITS) },
        ) == Some(Shortcut::Tab(TabShortcut::Close { tab_id: None })),
        !(key == KeyEvent { code: KeyCode::Char('c'), modifiers: KeyModifiers(CONTROL_BITS) }
            || key == KeyEvent { code: KeyCode::Esc, modifiers: KeyModifiers(0) } || ((key.code
            == KeyCode::Char('n') || key.code == KeyCode::Char('p')) && (key.modifiers
            == KeyModifiers(CONTROL_BITS) || key.modifiers == KeyModifiers(ALT_BITS))) || key
            == KeyEvent { code: KeyCode::Char('x'), modifiers: KeyModifiers(CONTROL_BITS) })
            ==> bound_to(default_shortcut_table(), key) is None,
{
    reveal_with_fuel(bound_to, 8);
    assert(CONTROL_BITS != ALT_BITS && CONTROL_BITS != 0);
}

} // verus!
