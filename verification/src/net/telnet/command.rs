//! Telnet command codes (RFC 854, RFC 885).

use vstd::prelude::*;

verus! {

/// End of subnegotiation parameters.
pub const SE: u8 = 240;

/// No operation.
pub const NOP: u8 = 241;

/// Go ahead.
pub const GA: u8 = 249;

/// Subnegotiation begin.
pub const SB: u8 = 250;

/// Sender wants to enable an option.
pub const WILL: u8 = 251;

/// Sender refuses to enable an option.
pub const WONT: u8 = 252;

/// Sender asks the receiver to enable an option.
pub const DO: u8 = 253;

/// Sender asks the receiver to disable an option.
pub const DONT: u8 = 254;

/// Interpret as command.
pub const IAC: u8 = 255;

/// End of record.
pub const EOR: u8 = 239;

} // verus!
