//! Verified core of a small developer utility for 3D game assets.
//!
//! The main component patches a GLTF asset's binary buffer so that every
//! vertex normal referenced by a `NORMAL` attribute accessor is negated in
//! place. Negating a little-endian IEEE-754 binary32 value toggles its sign
//! bit, the top bit of its fourth byte, so the whole patch is byte-level
//! logic and is verified exactly. A second, smaller component derives file
//! and identifier names for freshly scaffolded script sources.

pub mod flip;
pub mod gltf;
pub mod json;
pub mod names;
