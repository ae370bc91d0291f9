# deptty

A terminal with tabs and split panes, as a verified library and a thin program
around it.

- `src/` is the library: split trees and their geometry, tabs and focus, keys and
  mouse reports, links, colors and themes, the drawing of a terminal, and the
  configuration. Each function states what it does and Verus proves it; the
  modules whose names end in `_laws` state what holds across functions.
- `app/` is the program: the DTK window, the shells and their terminals
  (`portable-pty`, `alacritty_terminal`), and the files. It performs what the
  library decides.
- `tests/` runs the library.

Shares of space are exact: a share is kept as the double-precision number it
would be, in integers, so that panes come out to the pixel.
