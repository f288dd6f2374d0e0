# matoi

A terminal UI for browsing tmux sessions and windows and jumping to a window
quickly. The library under `src/` is verified with Verus; the program under
`app/` runs tmux, reads the keyboard and draws the screen with ratatui.

- `src/text.rs`: characters of strings, decimal rendering, integer parsing,
  `lines` and `splitn`, each against a specification.
- `src/ansi.rs`: removal of ANSI escape sequences from captured panes, with the
  laws that nothing of an escape is left, that plain text is kept and that
  stripping is idempotent.
- `src/tmux.rs`: windows and sessions, their targets and ages, and the parsing
  of `tmux list-sessions` / `list-windows` output.
- `src/app.rs`, `src/selection.rs`: the window list, the selection that moves
  over it past session headers, and the application state; each operation is
  a function from state (and what tmux answered) to state and the next tmux
  request.
- `src/event.rs`, `src/display.rs`: key bindings, commands, and what the screen
  shows of the state.
- `src/clock.rs`: the time types: `Instant` and `Duration`.

Keys: `j`/Down next window, `k`/Up previous window, `f`/Enter focus, `r`
refresh, `q`/Ctrl-c quit.

The library does not read the clocks of the system (chrono's `Local::now()`
panics when the system clock is before 1970 or the local time zone cannot be
found); `app/` reads them and hands the readings to the library.
