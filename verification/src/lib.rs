//! Voxel world engine: chunk storage, streaming decisions around a moving
//! observer, visible-face meshing and in-place block edits.

pub mod block;
pub mod catalog;
pub mod chunk;
pub mod edit;
pub mod intent;
pub mod lifecycle;
pub mod mesh;
pub mod streaming;
pub mod table;
pub mod world;
