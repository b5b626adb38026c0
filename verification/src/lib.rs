//! The integer side of a small CPU ray tracer: the renderer's control panel,
//! the pixel grid, the framebuffer layout, and the decisions that the
//! integrator and the ray-sphere test take between their floating-point
//! computations. Ray parameters reach this crate as order keys: integers whose
//! order is the order of the parameters they stand for.
pub mod render;
pub mod scene;
