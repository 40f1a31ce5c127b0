//! Telnet option codes.

use vstd::prelude::*;

verus! {

/// Echo (RFC 857).
pub const ECHO: u8 = 1;

/// Suppress go ahead (RFC 858).
pub const SGA: u8 = 3;

/// End of record (RFC 885).
pub const EOR: u8 = 25;

/// Generic MUD communication protocol.
pub const GMCP: u8 = 201;

} // verus!
