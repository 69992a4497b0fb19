# wlr_capture

Screen capture, picking and window switching for wlroots compositors: the rules behind it as
a library verified with [Verus](https://github.com/verus-lang/verus), and the programs around
it in ordinary Rust.

## Layout

- `src/` is the verified library. Every public function has a contract, and the laws that
  relate several functions are public proof functions.
  - Pixels and places: `region`, `image`, `bytes`, `capture`.
  - What the compositor says: `wl` (windows and outputs), `session` (capture sessions),
    `connect`, `focus`, `cosmic_activate`, `json`.
  - The picker: `sources`, `live` (the capture thread's rounds), `ui`, `hints`, `layout`,
    `shell` (the keyboard around it), `front`, `chooser`, `switcher`, `daemon`.
  - Other tools: `overlay` (the frozen screen), `mirror`, `video`, `sink`, `clipboard`,
    `pointer`, `doctor`, `icons`, `theme`, `keys`, `version`.
  - Shared: `text`, `order`, `table`, `rounding` (floating point in
    integers), `error`.
- `tests/` runs the library from outside.
- `app/` holds the programs: connections, event loops, drawing, and what is floating point.

## What is taken on trust

The contracts of a few functions of other crates and of the standard library are believed
rather than proved. Each stands in a small wrapper, marked `external_body`, whose comment says
what is claimed of the function it calls: image resampling and PNG encoding (`image`), key
names (`egui`), JSON (`serde_json`), chains of causes (`anyhow`), device numbers (`rustix`),
lowercasing, appending to a string, and the machine's byte order (`std`).
