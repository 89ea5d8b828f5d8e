# lucid

The logic of Lucid, a macOS menu-bar app that keeps the Mac awake by running
`caffeinate`, as a verified library, with the tray app around it.

- `src/` — the library, verified with Verus:
  - `decimal`: decimal rendering of integers and `str::parse`-style reading;
  - `chars`: strings as character sequences (comparing, prefixes, splitting);
  - `countdown`: the `H:MM:SS` / `M:SS` countdown text, the pulse animation,
    and one tick of a timed session;
  - `pomodoro`: the focus/break cycle, its texts and its timer;
  - `session`: the keep-awake state, the `caffeinate` arguments and what each
    menu click does;
  - `menu`: the menu item ids, read and written;
  - `notify`: the AppleScript line that posts a notification.
- `app/` — the Tauri tray app: menu, tray icon, threads, clocks and the
  `caffeinate` process. It asks the library what to do and what to show.
- `tests/` — tests of the library on concrete values.
