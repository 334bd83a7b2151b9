# otp_fill

Picks one-time codes out of incoming messages on macOS and brings them where they are needed:
into a window of their own, onto the clipboard, or straight into a field.

- `src/` is the library: reading what the message database prints (`rows`, `text`, `number`),
  which file changes matter (`paths`, `message`), a scan step by step (`scan`, `delivery`),
  scan after scan (`series`), polling (`polling`), the code kept for a double click
  (`quick_fill`), filling it in (`fill_worker`, `focus`), and the window (`floating_window`,
  `palette`). Time is a number of nanoseconds (`clock`). Verus proves every function there to
  meet its contract but one: `text_of_bytes` in `rows` wraps `String::from_utf8_lossy`, and what
  its contract says of that call is taken on trust.
- `app/` reads the clock, runs `sqlite3`, listens to the mouse and draws the window, and does
  what the library asks for.
- `tests/` runs the library.
