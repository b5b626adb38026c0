# rust_gpu_rendering

A small CPU ray tracer, split in two.

- `src/` is the verified library (Verus). It holds everything the renderer
  decides with integers and booleans: the `RenderConfig` control panel, the
  row-major pixel grid, the RGBA8 byte layout of a `Framebuffer`, the sample
  count of a pixel, the closest-hit search, the choice of the hit root of the
  ray-sphere quadratic, and the bounce loop of the integrator as a state
  machine (`Path`). Ray parameters enter it as order keys: integers whose
  order is the order of the numbers they stand for.
- `app/` is ordinary Rust around it: `Vec3`, `Ray`, `Sphere`, `Camera`,
  colors, random sampling (`rand`), shading and PNG output (`image`). All of
  it computes in `f32`, which Verus does not take; it asks the library for
  each decision.
- `tests/` exercise the library.
