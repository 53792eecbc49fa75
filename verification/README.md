# imaging

Verified core of the `imaging` toolkit: a backend-neutral paint-command stream with Skia,
Vello and Vello-hybrid renderers. The library in `src/` holds the logic of the toolkit with
Verus contracts and proofs; `app/` holds the glue to `wgpu`, `peniko`, `kurbo` and Skia.

Layout of `src/`:

- `record`, `float_bits`: the paint-command model (commands, groups, brushes, composites) and
  IEEE-754 comparisons on bit patterns.
- `diagnostics`: the stream-local diagnostic state machine, `DiagnosingSink` and
  `Scene::diagnose`.
- `render`, `renderer`, `backend`, `texture`: image targets and the row copy into them,
  pixel formats, renderer error types and their mapping, readback row layout.
- `lru`, `image_cache`, `image_registry`, `skia_sink`, `font_cache`: the caches of realized
  images, pictures, masks, retained scenes, fonts and uploaded atlas images, with their
  byte budgets, and the Skia sinks' clip/group stack machine.
- `skia_renderer`, `vello_renderer`, `hybrid_renderer`: per-backend errors, size limits,
  format tables and error mapping.
- `skia_interop`: wrapped-texture checks and the GL, Vulkan, alpha, fill-rule and gradient
  interpolation tables of the Skia backend.
- `text`: comparison of static message strings.
