# model3d

Parsing and analysis of 3D model files, verified with Verus.

- `src/` is the verified library:
  - `text`: lines, trimming, whitespace-separated words and `u32` parsing on
    `char` sequences, specified as `str::lines`, `str::trim`,
    `str::split_whitespace` and `str::parse::<u32>` behave;
  - `float_bits`: binary32 values as bit patterns and their IEEE order;
  - `stl`, `obj`, `parser`: the STL (binary and ASCII) and OBJ readers and
    the choice of reader by extension;
  - `mesh`, `geometry`: mesh data, counts, bounding box and topology;
  - `tagger`: heuristic tags and the conversation with a vision model, as a
    state machine;
  - `thumbnail`, `processor`: thumbnail names, the job's file query, progress
    and the per-model processing steps, as a state machine;
  - `error`: the errors and their texts.
- `app/` performs the outside work: file and network I/O, the floating-point
  measures (volume, surface area, complexity), thumbnail rendering, and the
  loops that drive the library's state machines.
- `tests/` runs the library on concrete inputs.
