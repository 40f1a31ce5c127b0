//! Application configuration, in its serialisable form: global settings that MUDs and
//! characters can override, named MUD and character definitions, their validation, and the
//! resolution of the settings that apply to a character.

use vstd::prelude::*;

use crate::config::{overridden, valid_server_name, invalid_dns_name, Tls};
use crate::error::ConfigError;
use crate::text::{debug_quoted, debug_str, is_blank, owned, push_str};

verus! {

/// Global settings, which MUDs and characters can override.
#[derive(Clone, Debug, PartialEq, Eq)]
pub struct Settings {
    /// Whether output wraps at the buffer edge.
    pub word_wrap: bool,
    /// Separator for sending several commands in one line.
    pub command_separator: String,
    /// Number of lines the scroll shortcuts scroll.
    pub scroll_lines: u16,
    /// Whether input is echoed in the output buffer.
    pub show_input_echo: bool,
    /// Percentage of the screen used by the scrollback overlay.
    pub scrollback_percentage: u16,
}

impl Settings {
    /// A copy of the settings.
    pub fn duplicate(&self) -> (r: Settings)
        ensures
            r.word_wrap == self.word_wrap,
            r.command_separator@ == self.command_separator@,
            r.scroll_lines == self.scroll_lines,
            r.show_input_echo == self.show_input_echo,
            r.scrollback_percentage == self.scrollback_percentage,
    {
        Settings {
            word_wrap: self.word_wrap,
            command_separator: self.command_separator.clone(),
            scroll_lines: self.scroll_lines,
            show_input_echo: self.show_input_echo,
            scrollback_percentage: self.scrollback_percentage,
        }
    }
}

impl Default for Settings {
    /// Wrapping on, `;;` separating commands, five lines per scroll, input echoed and a 70%
    /// scrollback overlay.
    fn default() -> (s: Settings)
        ensures
            s.word_wrap,
            s.command_separator@ == ";;"@,
            s.scroll_lines == 5,
            s.show_input_echo,
            s.scrollback_percentage == 70,
    {
        Settings {
            word_wrap: true,
            command_separator: owned(";;"),
            scroll_lines: 5,
            show_input_echo: true,
            scrollback_percentage: 70,
        }
    }
}

/// Overrides of some settings.
#[derive(Clone, Debug, PartialEq, Eq)]
pub struct SettingsOverlay {
    pub word_wrap: Option<bool>,
    pub command_separator: Option<String>,
    pub scroll_lines: Option<u16>,
    pub show_input_echo: Option<bool>,
    pub scrollback_percentage: Option<u16>,
}

impl Default for SettingsOverlay {
    /// No overrides.
    fn default() -> (o: SettingsOverlay)
        ensures
            o.spec_is_empty(),
    {
        SettingsOverlay {
            word_wrap: None,
            command_separator: None,
            scroll_lines: None,
            show_input_echo: None,
            scrollback_percentage: None,
        }
    }
}

impl SettingsOverlay {
    /// No setting is overridden.
    pub open spec fn spec_is_empty(&self) -> bool {
        &&& self.word_wrap is None
        &&& self.command_separator is None
        &&& self.scroll_lines is None
        &&& self.show_input_echo is None
        &&& self.scrollback_percentage is None
    }

    /// `r` is `base` with these overrides applied: each overridden setting takes the override's
    /// value.
    pub open spec fn merges_into(&self, base: Settings, r: Settings) -> bool {
        &&& r.word_wrap == overridden(self.word_wrap, base.word_wrap)
        &&& r.command_separator@ == match self.command_separator {
            Some(s) => s@,
            None => base.command_separator@,
        }
        &&& r.scroll_lines == overridden(self.scroll_lines, base.scroll_lines)
        &&& r.show_input_echo == overridden(self.show_input_echo, base.show_input_echo)
        &&& r.scrollback_percentage == overridden(
            self.scrollback_percentage,
            base.scrollback_percentage,
        )
    }

    /// Apply the overrides to base settings.
    pub fn merge(&self, base: Settings) -> (r: Settings)
        ensures
            self.merges_into(base, r),
    {
        let mut r = base;
        if let Some(v) = self.word_wrap {
            r.word_wrap = v;
        }
        if let Some(v) = &self.command_separator {
            r.command_separator = v.clone();
        }
        if let Some(v) = self.scroll_lines {
            r.scroll_lines = v;
        }
        if let Some(v) = self.show_input_echo {
            r.show_input_echo = v;
        }
        if let Some(v) = self.scrollback_percentage {
            r.scrollback_percentage = v;
        }
        r
    }

    /// Whether no setting is overridden.
    pub fn is_empty(&self) -> (b: bool)
        ensures
            b == self.spec_is_empty(),
    {
        self.word_wrap.is_none() && self.command_separator.is_none() && self.scroll_lines.is_none()
            && self.show_input_echo.is_none() && self.scrollback_percentage.is_none()
    }
}

/// A MUD server: how to connect to it, and its setting overrides.
#[derive(Clone, Debug, PartialEq, Eq)]
pub struct Mud {
    /// Hostname or IP address.
    pub host: String,
    pub port: u16,
    pub tls: Tls,
    /// Whether TCP keepalives are left off.
    pub no_tcp_keepalive: bool,
    /// MUD specific setting overrides.
    pub settings: SettingsOverlay,
}

impl Mud {
    /// A MUD without overrides, with TLS disabled unless given, and TCP keepalives on.
    pub fn new(host: String, port: u16, tls: Option<Tls>) -> (m: Mud)
        ensures
            m.host@ == host@,
            m.port == port,
            m.tls == match tls {
                Some(t) => t,
                None => Tls::Disabled,
            },
            !m.no_tcp_keepalive,
            m.settings.spec_is_empty(),
    {
        Mud {
            host,
            port,
            tls: match tls {
                Some(t) => t,
                None => Tls::Disabled,
            },
            no_tcp_keepalive: false,
            settings: SettingsOverlay::default(),
        }
    }
}

/// A character: the MUD it plays on, the script module set up for its sessions, and its
/// setting overrides.
#[derive(Clone, Debug, PartialEq, Eq)]
pub struct Character {
    /// The name of the MUD definition.
    pub mud: String,
    pub module: Option<String>,
    /// Character specific setting overrides.
    pub settings: SettingsOverlay,
}

impl Character {
    /// A character without overrides.
    pub fn new(mud: String, module: Option<String>) -> (c: Character)
        ensures
            c.mud@ == mud@,
            c.module == module,
            c.settings.spec_is_empty(),
    {
        Character { mud, module, settings: SettingsOverlay::default() }
    }
}

/// A named MUD definition.
#[derive(Clone, Debug, PartialEq, Eq)]
pub struct MudEntry {
    pub name: String,
    pub mud: Mud,
}

/// A named character definition.
#[derive(Clone, Debug, PartialEq, Eq)]
pub struct CharacterEntry {
    pub name: String,
    pub character: Character,
}

/// Top level configuration: MUDs, characters, script modules and global settings.
#[derive(Clone, Debug, PartialEq, Eq)]
pub struct Config {
    /// Whether mouse support is enabled.
    pub mouse_enabled: bool,
    /// Named MUD definitions.
    pub muds: Vec<MudEntry>,
    /// Named character definitions.
    pub characters: Vec<CharacterEntry>,
    /// Script modules loaded at startup.
    pub modules: Vec<String>,
    /// Global settings.
    pub settings: Settings,
}

/// What is wrong with a named MUD definition, if anything.
pub open spec fn mud_problem(name: Seq<char>, m: Mud) -> Option<Seq<char>> {
    if is_blank(name) {
        Some("MUD name cannot be empty"@)
    } else if m.host@.len() == 0 {
        Some("MUD "@ + debug_str(name) + " has empty host"@)
    } else if m.tls == Tls::Enabled && !valid_server_name(m.host@) {
        Some(
            "MUD "@ + debug_str(name) + " hostname "@ + debug_str(m.host@) + " invalid for TLS: "@
                + invalid_dns_name(),
        )
    } else {
        None
    }
}

/// The problem of the first MUD definition that has one.
pub open spec fn first_mud_problem(muds: Seq<MudEntry>) -> Option<Seq<char>>
    decreases muds.len(),
{
    if muds.len() == 0 {
        None
    } else {
        match mud_problem(muds[0].name@, muds[0].mud) {
            Some(p) => Some(p),
            None => first_mud_problem(muds.drop_first()),
        }
    }
}

/// Whether a MUD of the given name is defined.
pub open spec fn has_mud(muds: Seq<MudEntry>, name: Seq<char>) -> bool {
    exists|i: int| 0 <= i < muds.len() && muds[i].name@ == name
}

/// What is wrong with a named character definition, if anything.
pub open spec fn character_problem(name: Seq<char>, c: Character, muds: Seq<MudEntry>) -> Option<
    Seq<char>,
> {
    if is_blank(name) {
        Some("character name cannot be empty"@)
    } else if c.mud@.len() == 0 {
        Some("MUD name cannot be empty"@)
    } else if !has_mud(muds, c.mud@) {
        Some("character "@ + debug_str(name) + " references unknown MUD "@ + debug_str(c.mud@))
    } else {
        None
    }
}

/// The problem of the first character definition that has one.
pub open spec fn first_character_problem(chars: Seq<CharacterEntry>, muds: Seq<MudEntry>) -> Option<
    Seq<char>,
>
    decreases chars.len(),
{
    if chars.len() == 0 {
        None
    } else {
        match character_problem(chars[0].name@, chars[0].character, muds) {
            Some(p) => Some(p),
            None => first_character_problem(chars.drop_first(), muds),
        }
    }
}

/// The index of the first entry with the given name.
pub open spec fn first_named_mud(muds: Seq<MudEntry>, name: Seq<char>) -> Option<int> {
    if has_mud(muds, name) {
        Some(
            choose|i: int|
                0 <= i < muds.len() && muds[i].name@ == name && forall|j: int|
                    0 <= j < i ==> muds[j].name@ != name,
        )
    } else {
        None
    }
}

/// The index of the first character entry with the given name.
pub open spec fn first_named_character(chars: Seq<CharacterEntry>, name: Seq<char>) -> Option<int> {
    if exists|i: int| 0 <= i < chars.len() && chars[i].name@ == name {
        Some(
            choose|i: int|
                0 <= i < chars.len() && chars[i].name@ == name && forall|j: int|
                    0 <= j < i ==> chars[j].name@ != name,
        )
    } else {
        None
    }
}

/// The problem with the definition `m` named `name`, if any.
fn check_mud(name: &String, m: &Mud) -> (r: Option<String>)
    ensures
        match mud_problem(name@, *m) {
            Some(p) => r matches Some(s) && s@ == p,
            None => r is None,
        },
{
    let v = crate::text::chars_of(name.as_str());
    if crate::text::blank(&v) {
        return Some(owned("MUD name cannot be empty"));
    }
    if crate::text::chars_of(m.host.as_str()).len() == 0 {
        let mut s = owned("MUD ");
        push_str(&mut s, debug_quoted(name.as_str()).as_str());
        push_str(&mut s, " has empty host");
        return Some(s);
    }
    if m.tls == Tls::Enabled && !crate::config::server_name_valid(m.host.as_str()) {
        let mut s = owned("MUD ");
        push_str(&mut s, debug_quoted(name.as_str()).as_str());
        push_str(&mut s, " hostname ");
        push_str(&mut s, debug_quoted(m.host.as_str()).as_str());
        push_str(&mut s, " invalid for TLS: ");
        push_str(&mut s, "invalid dns name");
        return Some(s);
    }
    None
}

impl Config {
    /// The first MUD definition with the given name.
    pub fn mud(&self, name: &str) -> (r: Option<&Mud>)
        ensures
            match first_named_mud(self.muds@, name@) {
                Some(i) => r == Some(&self.muds@[i].mud),
                None => r is None,
            },
    {
        match self.mud_index(name) {
            Some(i) => Some(&self.muds[i].mud),
            None => None,
        }
    }

    /// The index of the first MUD definition with the given name.
    fn mud_index(&self, name: &str) -> (r: Option<usize>)
        ensures
            match first_named_mud(self.muds@, name@) {
                Some(i) => r matches Some(k) && k as int == i,
                None => r is None,
            },
            r matches Some(k) ==> k < self.muds@.len(),
    {
        let target = owned(name);
        let mut i: usize = 0;
        while i < self.muds.len()
            invariant
                i <= self.muds@.len(),
                target@ == name@,
                forall|j: int| 0 <= j < i ==> self.muds@[j].name@ != name@,
            decreases self.muds@.len() - i,
        {
            if self.muds[i].name == target {
                proof {
                    let s = self.muds@;
                    let c = choose|c: int|
                        0 <= c < s.len() && s[c].name@ == name@ && forall|j: int|
                            0 <= j < c ==> s[j].name@ != name@;
                    assert(c == i) by {
                        if c < i {
                            assert(s[c].name@ != name@);
                        }
                        if i < c {
                            assert(s[i as int].name@ != name@);
                        }
                    }
                }
                return Some(i);
            }
            i += 1;
        }
        None
    }

    /// The first character definition with the given name.
    pub fn character(&self, name: &str) -> (r: Option<&Character>)
        ensures
            match first_named_character(self.characters@, name@) {
                Some(i) => r == Some(&self.characters@[i].character),
                None => r is None,
            },
    {
        let target = owned(name);
        let mut i: usize = 0;
        while i < self.characters.len()
            invariant
                i <= self.characters@.len(),
                target@ == name@,
                forall|j: int| 0 <= j < i ==> self.characters@[j].name@ != name@,
            decreases self.characters@.len() - i,
        {
            if self.characters[i].name == target {
                proof {
                    let s = self.characters@;
                    let c = choose|c: int|
                        0 <= c < s.len() && s[c].name@ == name@ && forall|j: int|
                            0 <= j < c ==> s[j].name@ != name@;
                    assert(c == i) by {
                        if c < i {
                            assert(s[c].name@ != name@);
                        }
                        if i < c {
                            assert(s[i as int].name@ != name@);
                        }
                    }
                }
                return Some(&self.characters[i].character);
            }
            i += 1;
        }
        None
    }

    /// Check the configuration for consistency: every MUD has a non-blank name and a host
    /// (one that is a valid server name if TLS is enabled); every character has a non-blank
    /// name and names a defined MUD. The first problem found, MUDs first and in order, is
    /// the error.
    pub fn validate(&self) -> (r: Result<(), ConfigError>)
        ensures
            match first_mud_problem(self.muds@) {
                Some(p) => r matches Err(ConfigError::InvalidMud(m)) && m@ == p,
                None => match first_character_problem(self.characters@, self.muds@) {
                    Some(p) => r matches Err(ConfigError::InvalidCharacter(m)) && m@ == p,
                    None => r is Ok,
                },
            },
    {
        let mut i: usize = 0;
        proof {
            assert(self.muds@.skip(0) =~= self.muds@);
        }
        while i < self.muds.len()
            invariant
                i <= self.muds@.len(),
                first_mud_problem(self.muds@) == first_mud_problem(self.muds@.skip(i as int)),
            decreases self.muds@.len() - i,
        {
            proof {
                assert(self.muds@.skip(i as int).drop_first() =~= self.muds@.skip(i + 1));
                assert(self.muds@.skip(i as int)[0] == self.muds@[i as int]);
            }
            match check_mud(&self.muds[i].name, &self.muds[i].mud) {
                Some(p) => return Err(ConfigError::InvalidMud(p)),
                None => {},
            }
            i += 1;
        }
        let mut k: usize = 0;
        proof {
            assert(self.characters@.skip(0) =~= self.characters@);
        }
        while k < self.characters.len()
            invariant
                i == self.muds@.len(),
                first_mud_problem(self.muds@) == first_mud_problem(self.muds@.skip(i as int)),
                k <= self.characters@.len(),
                first_character_problem(self.characters@, self.muds@) == first_character_problem(
                    self.characters@.skip(k as int),
                    self.muds@,
                ),
            decreases self.characters@.len() - k,
        {
            proof {
                assert(self.characters@.skip(k as int).drop_first() =~= self.characters@.skip(
                    k + 1,
                ));
                assert(self.characters@.skip(k as int)[0] == self.characters@[k as int]);
            }
            match self.check_character(&self.characters[k].name, &self.characters[k].character) {
                Some(p) => {
                    proof {
                        assert(self.muds@.skip(i as int) =~= Seq::<MudEntry>::empty());
                    }
                    return Err(ConfigError::InvalidCharacter(p));
                },
                None => {},
            }
            k += 1;
        }
        proof {
            assert(self.muds@.skip(i as int) =~= Seq::<MudEntry>::empty());
            assert(self.characters@.skip(k as int) =~= Seq::<CharacterEntry>::empty());
        }
        Ok(())
    }

    /// The problem with the character definition `c` named `name`, if any.
    fn check_character(&self, name: &String, c: &Character) -> (r: Option<String>)
        ensures
            match character_problem(name@, *c, self.muds@) {
                Some(p) => r matches Some(s) && s@ == p,
                None => r is None,
            },
    {
        let v = crate::text::chars_of(name.as_str());
        if crate::text::blank(&v) {
            return Some(owned("character name cannot be empty"));
        }
        if crate::text::chars_of(c.mud.as_str()).len() == 0 {
            return Some(owned("MUD name cannot be empty"));
        }
        if self.mud_index(c.mud.as_str()).is_none() {
            let mut s = owned("character ");
            push_str(&mut s, debug_quoted(name.as_str()).as_str());
            push_str(&mut s, " references unknown MUD ");
            push_str(&mut s, debug_quoted(c.mud.as_str()).as_str());
            return Some(s);
        }
        None
    }
}

/// The text of an optional override, or the base text.
pub open spec fn overridden_text(over: Option<String>, base: Seq<char>) -> Seq<char> {
    match over {
        Some(s) => s@,
        None => base,
    }
}

/// `r` is the global settings with the MUD's overrides applied, then the character's.
pub open spec fn resolved(
    global: Settings,
    mud: SettingsOverlay,
    character: SettingsOverlay,
    r: Settings,
) -> bool {
    &&& r.word_wrap == overridden(character.word_wrap, overridden(mud.word_wrap, global.word_wrap))
    &&& r.command_separator@ == overridden_text(
        character.command_separator,
        overridden_text(mud.command_separator, global.command_separator@),
    )
    &&& r.scroll_lines == overridden(
        character.scroll_lines,
        overridden(mud.scroll_lines, global.scroll_lines),
    )
    &&& r.show_input_echo == overridden(
        character.show_input_echo,
        overridden(mud.show_input_echo, global.show_input_echo),
    )
    &&& r.scrollback_percentage == overridden(
        character.scrollback_percentage,
        overridden(mud.scrollback_percentage, global.scrollback_percentage),
    )
}

impl Config {
    /// The outcome of resolving the settings of the named character: the character's
    /// definition, then its MUD's, must exist.
    pub open spec fn spec_resolution(&self, char_name: Seq<char>) -> Result<(int, int), Seq<char>> {
        match first_named_character(self.characters@, char_name) {
            None => Err("unknown character name "@ + debug_str(char_name)),
            Some(c) => {
                let mud_name = self.characters@[c].character.mud@;
                match first_named_mud(self.muds@, mud_name) {
                    None => Err(
                        "character "@ + debug_str(char_name) + " references unknown MUD "@
                            + debug_str(mud_name),
                    ),
                    Some(m) => Ok((c, m)),
                }
            },
        }
    }

    /// The settings of a character: the global settings, overridden by its MUD's settings,
    /// overridden by its own.
    pub fn resolve_settings(&self, char_name: &str) -> (r: Result<Settings, ConfigError>)
        ensures
            match self.spec_resolution(char_name@) {
                Err(msg) => r matches Err(ConfigError::InvalidCharacter(m)) && m@ == msg,
                Ok((c, m)) => r matches Ok(s) && resolved(
                    self.settings,
                    self.muds@[m].mud.settings,
                    self.characters@[c].character.settings,
                    s,
                ),
            },
    {
        let character = match self.character(char_name) {
            Some(c) => c,
            None => {
                let mut msg = owned("unknown character name ");
                push_str(&mut msg, debug_quoted(char_name).as_str());
                return Err(ConfigError::InvalidCharacter(msg));
            },
        };
        let mud = match self.mud(character.mud.as_str()) {
            Some(m) => m,
            None => {
                let mut msg = owned("character ");
                push_str(&mut msg, debug_quoted(char_name).as_str());
                push_str(&mut msg, " references unknown MUD ");
                push_str(&mut msg, debug_quoted(character.mud.as_str()).as_str());
                return Err(ConfigError::InvalidCharacter(msg));
            },
        };
        let global = self.settings.duplicate();
        let with_mud = mud.settings.merge(global);
        Ok(character.settings.merge(with_mud))
    }
}

} // verus!
