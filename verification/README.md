# rawblow

The decision logic of RawBlow, a fast RAW photo culling viewer, written in Verus and
proved against its contracts.

- `src/` is the verified library: the culling session (marks, filters, navigation, grid
  selection, undo/redo), AI culling verdicts, transfer and organize dialog options, the
  decode book-keeping, autofocus-point orientation, the camera and lens choices of the
  culling filters, keyboard bindings, dialog gating, the translation tables, parsing
  and formatting of values shown to the user, the window icon rasterizer, and the few
  calls into outside crates (JSON, PNG decoding) behind small trusted wrappers.
- `tests/` runs the library on concrete inputs.
- `app/` is the unverified start-up code around it: file and network I/O, locale
  detection, font loading, map tiles and the model download.
