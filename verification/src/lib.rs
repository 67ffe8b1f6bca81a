//! Procedural gradient ("Perlin") noise fields, baked into a sequence of
//! normalized frames for terminal animation playback.
//!
//! All arithmetic is fixed-point: a real value `r` is represented by the
//! integer `r * SCALE`, so the engine is exact and free of floating point.

pub mod fixed;
pub mod lattice;
pub mod sample;
pub mod frame;
pub mod bake;
pub mod playback;
