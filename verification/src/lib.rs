//! Runtime animation sampling for a keyframed skeletal model format.
//!
//! The crate owns the per-tick animation state machine (variation selection,
//! repeat counting, alias resolution, cross-blend scheduling) and the
//! keyframe lookup for every track kind. All timing arithmetic is done in
//! integer milliseconds and all interpolation weights are exact rationals,
//! so every decision the engine makes is verified; the host applies the
//! resulting mixing plans to its own scalar buffers.

pub mod bytes;
pub mod gx_texture;
pub mod halo;
pub mod laws;
pub mod manager;
pub mod rng;
pub mod track;
