# cosmicsnip

A screenshot snipping tool with annotation for the COSMIC desktop: the XDG
Desktop Portal draws the selection, then an editor lets you draw pen,
highlighter, arrow and rectangle strokes over the snip, and copy or save it.

## Layout

- `src/` is the library, verified with Verus:
  - `annotation`: tools, strokes and the document with its bounded undo
    history. Coordinates, colour channels and widths are carried as the bit
    patterns of their `f32` values; points compare with IEEE 754 `==`.
  - `editor`: what a key press asks for, and which pointer events begin,
    extend and finish a stroke.
  - `capture`: the portal's `file://` and `clipboard:` answers, percent
    decoding, and whether a clipboard picture is the new snip.
  - `prefs`: the settings a preferences file holds, and the text written for
    them.
  - `render`: PNG decoding within the 15360 x 8640 limit, and encoding, over
    `tiny-skia`.
  - `config`, `text`: the palette's names and the limits; text helpers.
- `app/` is the program around it: the libcosmic window, the portal request,
  the clipboard server, and every computation on floats (compositing strokes
  with `tiny-skia`, the arrowhead, fitting the snip into the window, reading
  and clamping stroke widths).
- `tests/` exercises the library.
