//! Verified core of a small ray-tracing renderer.
//!
//! The renderer casts one ray per pixel into a scene of analytic primitives,
//! picks the first primitive in scene order that reports an intersection,
//! tests the hit point for shadowing against a point light, and shades it
//! with Lambertian lighting or a single mirror bounce.  The floating-point
//! geometry itself lives in the unverified front end; this crate holds and
//! proves the parts that are exact: scene-traversal and shading decisions,
//! surface colors, pixel-buffer resampling, and plain-text image
//! serialization.

pub mod image;
pub mod ppm;
pub mod trace;
