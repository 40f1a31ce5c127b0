//! Handles that scripts use to address the telnet, GMCP, trigger and alias facilities of one
//! session.

use vstd::prelude::*;

verus! {

/// The telnet facility of a session.
#[derive(Debug, Clone, Copy, PartialEq, Eq, Structural)]
pub struct Telnet {
    pub id: u32,
}

/// The GMCP facility of a session.
#[derive(Debug, Clone, Copy, PartialEq, Eq, Structural)]
pub struct Gmcp {
    pub id: u32,
}

/// The triggers of a session.
#[derive(Debug, Clone, Copy, PartialEq, Eq, Structural)]
pub struct Triggers {
    pub id: u32,
}

/// The aliases of a session.
#[derive(Debug, Clone, Copy, PartialEq, Eq, Structural)]
pub struct Aliases {
    pub id: u32,
}

} // verus!
