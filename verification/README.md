# snb

The core of the Shinobu plugin-based chat bot framework, written in Verus.

`src/` is the verified library:

- `event`, `command`, `hook`, `message_handler`, `logger`, `error`, `bot`:
  the event model and the interfaces plugins implement.
- `registry`, `keyed`: the component tables of the runtime (commands with
  aliases, priority-ordered hooks and message handlers, adapters, database
  drivers) and the rules that refuse name conflicts.
- `plugin`: versions, the plugin ABI check and plugin admission.
- `session`, `session_store`: conversation sessions with a time-to-live (an
  idle session reads as gone) and a per-session message limit.
- `sql`: SQL statements (CREATE TABLE, INSERT, SELECT, UPDATE, DELETE) with
  numbered placeholders and their bound values.
- `stdin`: the stdin adapter's line parsing and output.
- `example`: the example plugin's commands, handler and hooks.
- `status`, `clock`: uptime and `/proc/self/status` figures.
- `build_tool`: the plugin build tool's name matching, argument handling,
  `snb.toml` and `Cargo.toml` reading, TOML quoting, generated manifests and
  plugin listing.
- `config`: what one table of a TOML document holds, read through the `toml`
  crate.
- `paths`: decisions on path components (which paths a plugin may name,
  whether a resolved path stays under a root).
- `text`: string helpers with their specifications.

`app/` is the program around it: the runtime that loads plugin libraries,
the `log`/`env_logger` bridge, the SQLite driver, the tokio plumbing of the
adapters, and the build tool's file and process handling.

`tests/` exercises the library.
