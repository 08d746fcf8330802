# herdr-recent-navigator

A recent workspaces/tabs/panes switcher for Herdr: an overlay that lists the
recently focused workspaces, tabs, panes and AI agents, most recent first,
fuzzy-searchable and driven by the keyboard. Focus events that Herdr reports
are recorded in a small history, which orders the lists.

The decisions of the navigator are written in Verus and proved against their
contracts; reading files and the environment, talking to Herdr and drawing the
terminal are plain Rust around them.

## Layout

- `src/` — the verified library.
  - `models.rs`: nodes, category tabs, display rows, keybindings, the state.
  - `app.rs`: what each key press does to the state; keeping the shown list
    up to date.
  - `mru.rs`: building each category's list (grouping, exclusions, most
    recently used first), content search, the cache key, fuzzy ranking and
    the active-only filter.
  - `tracker.rs`: the focus history (record, cap, timestamps per level).
  - `herdr.rs`: Herdr's workspace/tab/pane records into nodes; the requests
    and command lines sent to Herdr.
  - `session.rs`: the current context, `track` events, the remembered
    category, and what a run starts with.
  - `cli.rs`: the command line and what one start of the program does.
  - `others.rs`: command-line heuristics (ssh targets, shells, editors,
    prompt titles) and terminal-text cleanup.
  - `format.rs`, `theme.rs`: width-aware truncation, search-hit highlighting,
    labels, scrolling, colours and status marks.
  - `laws.rs`: properties that span calls or hold of every list.
  - `order.rs`, `strmap.rs`, `text.rs`: the stable sort, a small string map,
    and character-level text helpers.
- `tests/` — tests of the library on concrete values.
- `app/` — the program: command-line parsing, the terminal event loop and
  drawing, the state files, and the socket and subprocess calls to Herdr.
