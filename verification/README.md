# streambreak

Break-time content while an AI coding agent is thinking: an idle timer
that brings up a popup with news, a rotation over the latest items, and the
hooks that drive it from the agent.

`src/` is the library, verified with Verus:

- `timer` — the idle timer's phases and threshold, with the laws that tie
  them together.
- `content` — news items and the manager that holds them: the stable
  newest-first sort (`content::sorting`), the round-robin rotation
  (`content::rotation`), turning a feed body into items (`content::rss`,
  parsing by `feed_rs`, on bodies that `content::feed_check` finds safe for
  it) and the SQLite cache (`content::cache`, by
  `rusqlite`).
- `config` — the configuration and its defaults.
- `cli` — the requests each subcommand sends to the daemon, and
  (`cli::init`) merging the hooks into the agent's settings, proved
  idempotent.
- `api`, `tray` — the decisions behind the HTTP API and the tray menu.
- `text` — verified string helpers.

`app/` is the program around it: the command line, file and network I/O,
the HTTP server and the desktop window and tray.

`tests/` run the library with the real outside crates.
