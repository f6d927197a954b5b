# cmux_win

The core of a tabbed terminal application, written in Verus: the screen
grid with its scrollback, the terminal state machine that escape sequences
drive, the rules that turn terminal output into desktop notifications, git
status summaries with a cache, and the registries of terminals and SSH
sessions. Every function in `src/` carries a contract that Verus proves.

Layout:

- `src/terminal/buffer.rs` — cells, the screen grid and its scrollback.
- `src/terminal/parser.rs` — the `vte` parser, the bytes fed to it, and the
  actions it reports.
- `src/terminal/state.rs` — cursor, attributes, scrolling region; printing,
  control bytes, CSI sequences and SGR attributes.
- `src/terminal/mod.rs` — the terminal registry.
- `src/notification/mod.rs` — bell, progress and long-command notifications.
- `src/git/mod.rs` — repository status through `git2`, and its cache.
- `src/git/repo.rs` — reads of a repository; each records the path it was
  read at and what it asked for.
- `src/ssh/mod.rs` — SSH session decisions and the session registry.
- `src/event.rs`, `src/text.rs` — front-end events; text helpers.
- `app/` — pseudo-terminal processes, SSH networking, JSON for the front
  end, command handlers and the background loops.

Cursor arithmetic on escape-sequence parameters saturates at the `u16`
bounds and is then clamped to the screen; a position parameter of 0 counts
as the default 1, so `ESC[H` homes the cursor.

What the parser reports for a byte is named as a function of that byte and
the bytes fed before it; a terminal's state after output is those actions
performed in order, so output split into chunks anywhere gives the same
screen as the whole output at once.
