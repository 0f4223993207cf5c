//! What streaming and edits ask of the chunk lifecycle: load a chunk, remove
//! one, or rebuild one.

use vstd::prelude::*;
use bevy::ecs::entity::Entity;
use crate::chunk::{ChunkTranslation, WorldPoint};

verus! {

/// `bevy::ecs::entity::Entity`, the handle of a chunk's representation in the
/// scene. This crate only passes such handles on.
#[verifier::external_type_specification]
#[verifier::external_body]
pub struct ExEntity(bevy::ecs::entity::Entity);

/// Tags a scene entity as the representation of the chunk at `translation`.
#[derive(Clone, Copy, Debug)]
pub struct ChunkMarker {
    pub translation: ChunkTranslation,
}

/// Which chunk to load and where in space its centre lies.
#[derive(Clone, Copy, Debug)]
pub struct ChunkLoadData {
    pub translation: ChunkTranslation,
    pub global_pos: WorldPoint,
}

/// An intent for the chunk lifecycle.
#[derive(Clone, Copy, Debug)]
pub enum ChunkEvent {
    /// Rebuild the geometry of the chunk that this entity represents.
    Reload(Entity),
    /// Represent a chunk that has no representation yet.
    Load(ChunkLoadData),
    /// Drop this entity and its geometry.
    Remove(Entity),
}

/// `Entity`'s `==`, which compares both parts of the handle: two handles are
/// equal exactly if they are the same handle.
#[verifier::external_body]
pub(crate) fn same_entity(a: Entity, b: Entity) -> (same: bool)
    ensures
        same == (a == b),
{
    a == b
}

} // verus!
