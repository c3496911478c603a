# herdr core

The verified core of herdr, a terminal workspace manager: the layout and
scheduling decisions behind its tab bars, pane titles, git status refresh,
key bindings and endpoint handshake, each stated as a contract and proved
with Verus.

- `src/` — the library, verified; its three calls out of it (`String::push`,
  ratatui's line width and vertical layout) stand behind trusted wrappers
  whose contracts state what those calls are relied on for:
  - `pane_title` — the starship-like pane title format: parsing, expansion,
    and which facts a format needs.
  - `endpoint` — the endpoint handshake messages and codec negotiation.
  - `tab_strip`, `shell_tab_bar` — the client shell's tab bar (classic and
    minimal styles, status segments, scrolling, drop indicator).
  - `tab_bar_view` — the server-side marker tab bar and its minimal style.
  - `git_refresh` — when git statuses are refreshed, what is demanded, how
    requests fold into one job per repository, how a refresh's output is
    assembled, and keeping terminals' cached cwds in step with their panes.
  - `path` — Unix paths as text, compared component by component.
  - `keybindings` — resolving a key press to a binding.
  - `widgets`, `popup`, `config_edit` — modal geometry, popup addressing,
    settings edits.
- `app/` — JSON encodings, painting on ratatui buffers, crossterm key
  conversion, config file I/O and the terminal cwd table around the core.
- `tests/` — tests of the library.
