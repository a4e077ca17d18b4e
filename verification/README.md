# helio_pipeline

A GPU-driven shadow pipeline whose decisions are verified with Verus.

- `src/` - the library. Each pass is a small state machine: it takes what a frame
  provides as plain values and returns what to upload and what to draw.
  - `atlas` - tiles of the shadow atlas.
  - `views` - camera and shadow-face views, change detection.
  - `shared`, `cull`, `shadow`, `lighting` - the passes of the tiled pipeline.
  - `shadow_pass` - the texture-array shadow pass with round-robin light updates.
  - `arena`, `scene` - lights, their handles and their GPU mirror.
  - `bindings`, `bytes`, `number`, `errors` - layouts, upload encoding, numbers, errors.
- `app/` - the renderer around it: GPU resources, encoders, matrix math. The shader
  sources are handed in.
- `tests/` - scenarios on the compiled library.

Floating-point data crosses the library as IEEE-754 bit patterns. Comparisons follow
IEEE-754: a NaN differs from itself, the zeros are equal.
