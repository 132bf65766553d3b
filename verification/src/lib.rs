//! Voxel-world data model: namespaced identifiers, the three coordinate
//! spaces, per-level palettes of local voxel codes, chunk storage, and the
//! pack registry that mediates procedural generation.

pub mod chunk;
pub mod coords;
pub mod identifier;
pub mod level;
pub mod packs;
pub mod palette;
pub mod universe;
