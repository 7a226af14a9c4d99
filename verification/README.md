# rustshot

Turns the output of terminal commands into a PNG picture of a terminal
window. The library under `src/` is verified with Verus; `app/` is the
command-line program around it.

- `parser`, `terminal`, `text`: the ANSI screen (through the `vt100`
  emulator) turned into a grid of styled cells, trimmed of blank rows and
  columns.
- `theme`: colours and sizes, and the 256-colour palette.
- `layout`: panels stacked in the window, the window's frame, how each cell
  is painted.
- `canvas`, `renderer`: drawing on an `image` buffer through `imageproc`:
  rounded rectangles, the drop shadow, the window chrome, cell backgrounds
  and underlines.

The program runs commands in a pseudo-terminal (`portable-pty`), picks the
font size and draws the glyphs (`ab_glyph`, floating point), and saves the
picture. It embeds the fonts `assets/JetBrainsMono-Regular.ttf` and
`assets/JetBrainsMono-Bold.ttf`, which belong beside `app/`.
