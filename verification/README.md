# hyprtuird

A terminal UI for moving Hyprland workspaces between physical monitors, with a
core that is verified with Verus.

- `src/` is the verified core: the state of the program and what each key does
  to it (`app`), the conversation with Hyprland (`client`, `shell`), the order
  and selection of lists (`order`, `selection`), the picture that is drawn
  (`view`, `layout`, `theme`), and the text primitives below them (`text`).
- `app/` is the program around it: the terminal, the Unix socket, the JSON
  replies, and the widgets that put the picture on the screen.
- `tests/` runs the core on concrete values.

Three calls are trusted rather than proved: `String::push`, and `Rect::inner` and
`Layout::split` of `ratatui` in `src/layout.rs`. The relation `may_split_into` there
stands for what `Layout::split` may give; nothing is claimed of it beyond that.

Keys: `Up`/`Down` or `k`/`j` move the selection, `Tab` switches between the
lists, `Enter` moves the selected workspace to the selected monitor, `r`
refreshes, `q` or `Esc` quits.
