# Test Editor

A small text editor for the terminal, written in Verus.

- `src/` is the editing core. It holds the document, the cursor, the prompts and
  the composition of the screen, and its functions are verified against their
  contracts. `src/laws/` states what holds of the editor as a whole.
- `app/` is the program around it: it reads keys and files, sends what the core
  composes to the terminal, and does what the core asks for.
- `tests/` runs the core on concrete documents and keys.

Positions in a row are byte offsets of its UTF-8 encoding. `accepts` tells which
keys can be acted upon where the cursor stands, and `refresh_screen` tells whether
the screen can be drawn.

| Key | |
| :-- | :-- |
| arrows, Home, End, Page Up, Page Down | move the cursor |
| Ctrl-S | save, asking for a path if there is none |
| Ctrl-F | search |
| Ctrl-Q | quit; with unsaved changes it has to be pressed twice, and then removes the file |
