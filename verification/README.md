# rotex_wgpu

The resource and frame bookkeeping of a wgpu rendering bridge, written in
Verus: every function in `src/` carries a contract that Verus proves.

## What the library decides

- **Resources** (`registry`): meshes, materials and textures are created in
  batches with identifiers counted per kind, updated in place, and looked up
  by draws. Render pipelines are cached by material, vertex layout and depth
  use; a material update or a swapchain reconfiguration drops the affected
  pipelines.
- **Frames** (`frame`): which instances a pass draws, whether it needs a depth
  attachment and with which load operation, which colour target it renders
  into, how the per-object uniform buffer grows and is laid out, and the
  per-draw plan (offsets, bind groups, pipeline lookups).
- **Render pipelines** (`pipeline`): the checks made before a cached key's
  pipeline is built, and its shader stages, vertex layout, culled face and
  depth state.
- **Compute** (`compute`, `shader`): the bind-group layout plan of a compute
  pipeline and the bind groups of a dispatch.
- **Uploads** (`upload`, `numeric`): texture upload validation, row padding
  for staged copies, and buffer sizes rounded to wgpu's copy alignment.
- **Surfaces and devices** (`surface`, `init`): checks of instance and device
  requests, the swapchain format and presentation mode, and the retry policy
  for acquiring swapchain images.
- **Vertex layouts and shaders** (`layout`, `shader`): layout validation and
  hashing, material validation, the culled face, and SPIR-V decoding.

`laws` states properties that span operations: fresh identifiers, creation
never overwriting, what a created material reads back as, pipeline lookups
being idempotent, and the bridge invariant (each pipeline key cached once,
one depth attachment per key, sized as its key calls for) kept by every
operation.

## Layout

- `src/` — the verified library. The calls into wgpu and std that it relies
  on stand in `wgpu_api.rs` and `error.rs`, each with a contract
  and a doc comment naming the outside function.
- `tests/` — tests on concrete values, run against the real wgpu crate.
- `app/` — the unverified shell around the library: creating GPU objects,
  recording command encoders, presenting frames, conversions to wgpu types and
  the floating-point colour helpers.
