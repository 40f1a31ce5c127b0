# mudpuppy

The core of a terminal MUD client, written in Verus. Every executable function in `src/`
carries a contract; Verus proves the library's own functions against theirs, while the small
`#[verifier::external_body]` wrappers around std and outside-crate calls are trusted: their
contracts state what those calls document, and nothing proves them.

- `src/net/` — the telnet wire codec (decoding, encoding, IAC escaping) and the decisions a
  connection takes for each action.
- `src/keyboard.rs`, `src/model.rs`, `src/mouse.rs` — key, mouse and shortcut models with
  their textual forms and parsers.
- `src/keybindings.rs`, `src/config.rs`, `src/config_file.rs`, `src/new_config.rs` —
  configuration: key bindings, MUD and character definitions, validation and setting
  resolution.
- `src/input.rs`, `src/buffer.rs`, `src/output.rs`, `src/layout.rs`, `src/dialog.rs` — the line
  editor, output buffers, layout tree and dialog queue.
- `src/client.rs`, `src/session.rs`, `src/sessions.rs`, `src/gmcp.rs`, `src/pattern.rs`,
  `src/timer.rs`, `src/slash_command.rs` — session state machines: negotiation, prompts,
  triggers and aliases, GMCP framing, the session registry, timers and slash commands.
- `app/` — a small command-line program around the library: arguments, the configuration
  file, and a headless session over plain TCP.
- `tests/` — tests of the library.
