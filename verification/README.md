# qone

A Quake (BSP version 29) level viewer. The crate `qone` under `src/` is the
verified core; `app/` is the viewer program around it (window, GPU, file
reading and the floating-point physics).

## Library modules (`src/`, verified with Verus)

- `le_bytes` — little-endian integers read from byte slices.
- `types` — the records of the level format and their decoding, generic
  lump decoding (`parse_data`), the texture kinds and leaf contents.
- `text` — characters, whitespace, substring search and word splitting.
- `entities` — scanning the entity list for model numbers and triggers
  (`extract_entities`), and the list of collidable models.
- `texture` — palette decoding, texture kinds from names, texels as opaque
  colours (`parse_textures`).
- `mesh` — the triangle-fan layout of faces grouped by texture
  (`build_mesh`).
- `render` — the draw calls of a frame (`plan_draws`).
- `bsp` — reading a whole level file (`BspData::parse`, `try_parse`).
- `hull` — visiting nodes of a clipping hull and what a sweep has met.
- `input` — key routing, held movement keys, jumping and water depth.
- `lights` — the animated light styles.

Each public function states its result in its `ensures`; the properties
that span several calls are proved as `lemma_*` proof functions.

## Program (`app/`)

`app/main.rs` opens the window and runs the frame loop. Vector math, the
collision sweeps through the hulls, texture coordinates and the GPU work
use floating point or the graphics stack and stay there; they call the
library for every integer decision.
