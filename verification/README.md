# gpui (verified core)

The host-side core of a GPU user-interface renderer, written in Verus and proved
against its contracts.

- `scene`: the primitives painted in a frame, the stable sort by draw order, the batching
  of neighbouring primitives into draw calls, and the render plan that pairs
  content-filter boundaries and assigns them a bounded set of offscreen targets;
  `painted` states what every paint operation does and that replaying a recorded paint
  sequence reproduces the scene.
- `render`: instance ranges the GPU can address, blur downsampling sizes, the shared
  pipeline table, path counts and the shader artifact types.
- `elements::deferred`: priorities of deferred draws.
- `assets`: the asset registry, one entry per path.
- `platform`: callback slots of the macOS application delegate and haptics support.

`app/` holds the host glue that Verus does not see: the error type with its
`std::error::Error` implementation and the locking around the platform callbacks.
