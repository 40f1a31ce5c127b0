//! Networking: the telnet protocol layer and the actions a session asks of its connection.

pub mod telnet;
pub mod connection;
