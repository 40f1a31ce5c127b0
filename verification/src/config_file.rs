//! The configuration file's content: the MUDs to connect to and the key bindings.
//!
//! What the user's file leaves out is completed from the built-in defaults: with no MUDs the
//! default MUDs are used, and the default key bindings fill in every key the user did not
//! bind. The result is checked before it replaces the configuration in use.

use vstd::prelude::*;

use crate::config::{invalid_dns_name, server_name_valid, valid_server_name};
use crate::error::ConfigError;
use crate::keybindings::KeyBindings;
use crate::model::{Mud, Tls};
use crate::text::{chars_of, debug_quoted, debug_str, eq_lit, owned, push_str};

verus! {

/// The MUDs and key bindings of a configuration.
#[derive(Debug)]
pub struct Config {
    pub muds: Vec<Mud>,
    pub keybindings: KeyBindings,
}

/// What is wrong with a MUD definition, if anything: an empty name, an empty host, or a host
/// that is not a valid server name while TLS is enabled.
pub open spec fn mud_problem(m: Mud) -> Option<Seq<char>> {
    if m.name@.len() == 0 {
        Some("name is empty"@)
    } else if m.host@.len() == 0 {
        Some("MUD "@ + debug_str(m.name@) + " host is empty"@)
    } else if m.tls == Tls::Enabled && !valid_server_name(m.host@) {
        Some(
            "MUD "@ + debug_str(m.name@) + " hostname "@ + debug_str(m.host@) + " invalid for TLS: "@
                + invalid_dns_name(),
        )
    } else {
        None
    }
}

/// The problem of the first MUD definition that has one.
pub open spec fn first_mud_problem(muds: Seq<Mud>) -> Option<Seq<char>>
    decreases muds.len(),
{
    if muds.len() == 0 {
        None
    } else {
        match mud_problem(muds[0]) {
            Some(p) => Some(p),
            None => first_mud_problem(muds.drop_first()),
        }
    }
}

/// The position of the first MUD definition named `name`.
pub open spec fn first_named(muds: Seq<Mud>, name: Seq<char>) -> Option<int> {
    if exists|i: int| 0 <= i < muds.len() && (#[trigger] muds[i]).name@ == name {
        Some(
            choose|i: int|
                0 <= i < muds.len() && (#[trigger] muds[i]).name@ == name && forall|j: int|
                    0 <= j < i ==> (#[trigger] muds[j]).name@ != name,
        )
    } else {
        None
    }
}

/// The problem with one MUD definition, if any.
fn check_mud(m: &Mud) -> (r: Option<String>)
    ensures
        match mud_problem(*m) {
            Some(p) => r matches Some(s) && s@ == p,
            None => r is None,
        },
{
    if chars_of(m.name.as_str()).len() == 0 {
        return Some(owned("name is empty"));
    }
    if chars_of(m.host.as_str()).len() == 0 {
        let mut s = owned("MUD ");
        push_str(&mut s, debug_quoted(m.name.as_str()).as_str());
        push_str(&mut s, " host is empty");
        return Some(s);
    }
    if m.tls == Tls::Enabled && !server_name_valid(m.host.as_str()) {
        let mut s = owned("MUD ");
        push_str(&mut s, debug_quoted(m.name.as_str()).as_str());
        push_str(&mut s, " hostname ");
        push_str(&mut s, debug_quoted(m.host.as_str()).as_str());
        push_str(&mut s, " invalid for TLS: ");
        push_str(&mut s, "invalid dns name");
        return Some(s);
    }
    None
}

impl Config {
    /// Check every MUD definition (see [`mud_problem`]); the first problem found is the error.
    fn validate(&self) -> (res: Result<(), ConfigError>)
        ensures
            match first_mud_problem(self.muds@) {
                Some(p) => res matches Err(ConfigError::InvalidMud(m)) && m@ == p,
                None => res is Ok,
            },
    {
        let mut i: usize = 0;
        proof {
            assert(self.muds@.skip(0) =~= self.muds@);
        }
        while i < self.muds.len()
            invariant
                i <= self.muds@.len(),
                first_mud_problem(self.muds@) == first_mud_problem(self.muds@.skip(i as int)),
            decreases self.muds@.len() - i,
        {
            proof {
                assert(self.muds@.skip(i as int).drop_first() =~= self.muds@.skip(i + 1));
                assert(self.muds@.skip(i as int)[0] == self.muds@[i as int]);
            }
            match check_mud(&self.muds[i]) {
                Some(p) => {
                    return Err(ConfigError::InvalidMud(p));
                },
                None => {},
            }
            i += 1;
        }
        proof {
            assert(self.muds@.skip(i as int).len() == 0);
        }
        Ok(())
    }

    /// Replace this configuration with the user's, completed from the defaults and checked.
    ///
    /// With no MUDs the user's configuration takes the default MUDs; with no key bindings it
    /// takes the default ones, and otherwise every default binding of a key the user left
    /// unbound is added. If a MUD definition of the result has a problem (see
    /// [`mud_problem`]), the first one is the error and this configuration is unchanged.
    pub fn load(&mut self, user: Config, defaults: Config) -> (res: Result<(), ConfigError>)
        ensures
            ({
                let muds = if user.muds@.len() == 0 {
                    defaults.muds@
                } else {
                    user.muds@
                };
                match first_mud_problem(muds) {
                    Some(p) => res matches Err(ConfigError::InvalidMud(m)) && m@ == p
                        && *final(self) == *old(self),
                    None => res is Ok && final(self).muds@ == muds && final(self).keybindings@
                        == defaults.keybindings@.union_prefer_right(user.keybindings@),
                }
            }),
    {
        let Config { muds: user_muds, keybindings: user_bindings } = user;
        let Config { muds: default_muds, keybindings: default_bindings } = defaults;
        let muds = if user_muds.len() == 0 {
            default_muds
        } else {
            user_muds
        };
        let keybindings = if user_bindings.is_empty() {
            proof {
                assert(default_bindings@.union_prefer_right(user_bindings@) =~= default_bindings@);
            }
            default_bindings
        } else {
            let mut merged = user_bindings;
            merged.merge(default_bindings);
            merged
        };
        let cfg = Config { muds, keybindings };
        cfg.validate()?;
        *self = cfg;
        Ok(())
    }

    /// The first MUD definition named `name`, copied.
    pub fn lookup_mud(&self, name: &str) -> (r: Option<Mud>)
        ensures
            match first_named(self.muds@, name@) {
                Some(i) => r matches Some(m) && m.same_as(self.muds@[i]),
                None => r is None,
            },
    {
        let mut i: usize = 0;
        while i < self.muds.len()
            invariant
                i <= self.muds@.len(),
                forall|j: int| 0 <= j < i ==> (#[trigger] self.muds@[j]).name@ != name@,
            decreases self.muds@.len() - i,
        {
            let chars = chars_of(self.muds[i].name.as_str());
            if eq_lit(&chars, name) {
                proof {
                    let f = first_named(self.muds@, name@);
                    assert(f is Some);
                    let k = f.unwrap();
                    assert(k == i) by {
                        if k < i {
                            assert(self.muds@[k].name@ != name@);
                        } else if k > i {
                            assert(self.muds@[i as int].name@ == name@);
                        }
                    }
                }
                return Some(self.muds[i].duplicate());
            }
            i += 1;
        }
        None
    }

    /// The first MUD definition named `name`, copied; [`ConfigError::MissingMud`] with the
    /// name if there is none.
    pub fn must_lookup_mud(&self, name: &str) -> (r: Result<Mud, ConfigError>)
        ensures
            match first_named(self.muds@, name@) {
                Some(i) => r matches Ok(m) && m.same_as(self.muds@[i]),
                None => r matches Err(ConfigError::MissingMud(n)) && n@ == name@,
            },
    {
        match self.lookup_mud(name) {
            Some(m) => Ok(m),
            None => Err(ConfigError::MissingMud(owned(name))),
        }
    }
}

impl Default for Config {
    /// No MUDs and no key bindings.
    fn default() -> (c: Config)
        ensures
            c.muds@.len() == 0,
            c.keybindings@ == Map::<(crate::model::InputMode, crate::model::KeyEvent), crate::model::Shortcut>::empty(),
    {
        Config { muds: Vec::new(), keybindings: KeyBindings::default() }
    }
}

} // verus!
