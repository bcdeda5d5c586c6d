# snesmaker

The logic of a maker for 2D games that export to SNES ROMs, written in Verus
and proved against its contracts.

- `src/` is the verified library: the project model, the deterministic
  side-scroller physics and playtest session, the compilation of scenes,
  the encoding of palettes, tiles and tilemaps, the generated assembly data,
  ROM checksums, the dock layouts and saved workspaces of the editor, its undo
  history, and the scene-editing operations (painting, lines, mirroring,
  flood fill, copy and paste, layers, canvas strokes, quick fixes).
- `app/` holds what is not verified: file and process I/O around ROM export,
  the serialized forms of the workspace file, and helpers that work in
  floating-point seconds and pixels.
- `tests/` exercises the library on concrete projects.
