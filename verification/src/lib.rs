//! Decoding of legacy binary game assets: a named-entry archive container,
//! an animated-model format with quantized vertex positions, time-based
//! keyframe selection, and keyframe interpolation.
//!
//! Everything the decoders compute is stated over byte sequences and plain
//! integers. Vertex positions stay in their quantized wire form (one byte per
//! axis); the per-model scale and origin needed to place them in world space
//! are carried as raw little-endian words for the renderer to apply.

pub mod animation;
pub mod binary32;
pub mod bytes;
pub mod entity;
pub mod error;
pub mod level;
pub mod mesh;
pub mod model;
pub mod resource;
pub mod timing;
