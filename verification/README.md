# rme_editor

The core of a map editor for Tibia-like `.otbm` maps, written in Verus:
every function of the library is proved against its contract.

- `src/` — the verified library.
  - Formats: `binary` (the OTBM node tree), `otbm` (the map reader) and
    `otbm_tiles` (what a map keeps once), `pb` and `appearances` (the
    protobuf `appearances.dat`), `item_types`, `item_assembly`,
    `item_loader`, `item_of` (the item table built from it), `catalog`
    (which sheet holds which sprite), `sprite` (LZMA sprite sheets), `spr`
    (the legacy `.spr` RLE sprites), `text`.
  - Map model: `position`, `item`, `chunk`, `spatial_map`, `history`
    (undo/redo), `document`, `import` (from the reader's document to the
    map model).
  - Rendering rules that are plain computation: `assets` (sprite cells,
    animation strips and timing), `atlas` (slot plan of the sprite atlas),
    `anim` (the animation table), `scene` (draw lists per chunk),
    `components` (union-find of light groups), `tabs` (floor stack, map
    bounds, tab titles), `messages` (the texts of errors and warnings).
- `tests/` — tests of the library on concrete values.
- `app/` — a command-line program that reads a map (and optionally the
  client's assets and a `.spr` file) and reports what it holds; file I/O
  lives there.

The outside crates `ahash`, `smallvec`, `lzma-rs` and `serde_json` are
called from the library through small trusted wrappers whose contracts
state what their documentation and source show.
