//! Telnet protocol constants and the streaming codec.

pub mod codec;
pub mod command;
pub mod option;
