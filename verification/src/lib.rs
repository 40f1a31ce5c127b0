//! Core logic of a terminal MUD client: the telnet wire codec, key and
//! mouse event models, the line-input editor, configuration resolution,
//! dialog management and the small state machines that drive a session.

pub mod net;
pub mod text;
pub mod error;
pub mod keyboard;
pub mod keybindings;
pub mod idmap;
pub mod model;
pub mod pattern;
pub mod output;
pub mod buffer;
pub mod shortcut;
pub mod slash_command;
pub mod input;
pub mod event;
pub mod gmcp;
pub mod session;
pub mod layout;
pub mod api;
pub mod mouse;
pub mod dialog;
pub mod config;
pub mod config_file;
pub mod new_config;
pub mod client;
pub mod sessions;
pub mod timer;
