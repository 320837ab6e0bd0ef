# plexy_glass

The core of a terminal multiplexer, verified with Verus: a terminal emulator, and the
rules of the window manager around it.

- `src/emulator.rs`, `src/parser.rs`, `src/screen/` and the modules that they use take in
  what a program writes, and keep the screen that a user sees: cells and colors, the
  cursor, modes, the scrollback, hyperlinks, shell integration marks, and images. Escape
  sequences are parsed by `vte`, text is divided by `unicode-segmentation` and measured by
  `unicode-width`, and payloads are decoded by `base64`.
- `src/window_manager.rs` and `src/window_manager/` decide what commands, keys, mouse
  events and the ends of programs do to windows and panes. They do nothing themselves:
  they return effects, and what came of those is reported back to them.
- `app/` runs a session on top: it starts programs, moves bytes, and carries out effects.

Every function states what it returns and changes over a model of its data: `ScreenView`
for the terminal, `WmView` for the window manager. What holds of several functions
together stands in `src/parser/laws.rs`, `src/reflow/laws.rs`, `src/screen/laws.rs`,
`src/screen/pairs.rs` and `src/window_manager/laws.rs`, and beside the types that it is
about.
