//! A progressive path tracer: materials and the shading integrator, an orbital
//! camera pose, the accumulation buffer that refines an image over frames, and
//! the bookkeeping that splits a frame into column jobs and steers the view.
//!
//! Quantities are fixed point: a color channel runs from 0 to `CHANNEL_MAX`;
//! blend weights, roughness and refractive indices are in thousandths; lengths
//! and angles of the camera are in millionths. The continuous geometry (where a
//! ray meets a shape, where a reflected or refracted ray goes) is supplied to
//! the integrator through the `scene::Geometry` trait.

pub mod camera;
pub mod color;
pub mod runner;
pub mod shape;
pub mod scene;
pub mod texture;
