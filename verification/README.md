# lib — verified terminal pixel canvases

Canvases that turn pixels into text for a terminal: strings of characters and
ANSI escape sequences that the caller writes to the screen.

- `HalfCellCanvas` (crate root): two RGB pixels per cell, drawn with the upper
  half block; double-buffered, it renders only the cells that changed.
- `half_cell::HalfCellCanvas`: the same with ANSI and RGB colours; every frame
  starts from the terminal's default colours, and a cell with only its lower
  pixel set is drawn with the lower half block.
- `braille::BrailleCanvas`: eight dots per cell, drawn with the braille
  characters, one colour per cell, an optional background.
- `color`: the colours and the escape sequences that select them; `utils`:
  the escape-sequence writers.

Each render's text is specified as a sequence of terminal commands (`term`)
and their encodings (`text`).  `term` also models what a terminal does with
those commands; the proof functions `lemma_*_paints_*` state what a frame
leaves on the screen.

`src/` is verified with Verus; `tests/` runs the library; `app/` adds drawing
at floating-point coordinates.
