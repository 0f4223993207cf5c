//! Placing and removing single blocks.
//!
//! An edit is written into the world at once. If the chunk that holds the
//! edited voxel is represented, the edit also asks for that chunk's geometry
//! to be rebuilt; if it is not, the edit shows when the chunk is next loaded.

use vstd::prelude::*;
use bevy::ecs::entity::Entity;
use crate::block::BlockId;
use crate::chunk::{voxel_view, BlockPos, ChunkTranslation};
use crate::intent::{ChunkEvent, ChunkMarker};
use crate::world::GameWorld;

verus! {

/// What the observer looks at: nothing, or a face of the voxel at
/// `block_pos`, with the unit vector that points out of that face.
#[derive(Clone, Copy, Debug)]
pub enum LookingAt {
    Nothing,
    Something { block_pos: BlockPos, normal: (i8, i8, i8) },
}

/// The entity that represents the chunk at `translation`: that of the last
/// entry of `resident` with this coordinate.
pub open spec fn representation_of(
    resident: Seq<(Entity, ChunkMarker)>,
    translation: ChunkTranslation,
) -> Option<Entity>
    decreases resident.len(),
{
    if resident.len() == 0 {
        None
    } else if resident.last().1.translation == translation {
        Some(resident.last().0)
    } else {
        representation_of(resident.drop_last(), translation)
    }
}

/// The reload that an edit of the chunk at `translation` asks for, if the
/// chunk is represented.
pub open spec fn reload_for(
    resident: Seq<(Entity, ChunkMarker)>,
    translation: ChunkTranslation,
) -> Option<ChunkEvent> {
    match representation_of(resident, translation) {
        Some(entity) => Some(ChunkEvent::Reload(entity)),
        None => None,
    }
}

/// The voxel in front of the face that the observer looks at.
pub open spec fn facing_voxel(block_pos: BlockPos, normal: (i8, i8, i8)) -> (int, int, int) {
    (block_pos.x + normal.0, block_pos.y + normal.1, block_pos.z + normal.2)
}

/// Whether the voxel in front of the face has a world position.
pub open spec fn can_place(looking_at: LookingAt) -> bool {
    match looking_at {
        LookingAt::Nothing => true,
        LookingAt::Something { block_pos, normal } => {
            let (x, y, z) = facing_voxel(block_pos, normal);
            &&& isize::MIN <= x <= isize::MAX
            &&& isize::MIN <= y <= isize::MAX
            &&& isize::MIN <= z <= isize::MAX
        },
    }
}

/// Finds the entity that represents the chunk at `translation`.
pub fn find_representation(
    resident: &Vec<(Entity, ChunkMarker)>,
    translation: ChunkTranslation,
) -> (found: Option<Entity>)
    ensures
        found == representation_of(resident@, translation),
{
    let mut chunk_entity: Option<Entity> = None;
    let mut i: usize = 0;
    proof {
        assert(resident@.take(0).len() == 0);
    }
    while i < resident.len()
        invariant
            i <= resident.len(),
            chunk_entity == representation_of(resident@.take(i as int), translation),
        decreases resident.len() - i,
    {
        proof {
            assert(resident@.take(i as int + 1).drop_last() =~= resident@.take(i as int));
            assert(resident@.take(i as int + 1).last() == resident@[i as int]);
        }
        if resident[i].1.translation == translation {
            chunk_entity = Some(resident[i].0);
        }
        i += 1;
    }
    proof {
        assert(resident@.take(resident@.len() as int) =~= resident@);
    }
    chunk_entity
}

/// Removes the block that the observer looks at: writes air into its voxel
/// and asks for a reload of the chunk if it is represented. Looking at
/// nothing changes nothing.
pub fn destroy_object(
    looking_at: LookingAt,
    resident: &Vec<(Entity, ChunkMarker)>,
    game_world: &mut GameWorld,
) -> (reload: Option<ChunkEvent>)
    requires
        old(game_world).wf(),
    ensures
        final(game_world).wf(),
        match looking_at {
            LookingAt::Nothing => reload.is_none() && *final(game_world) == *old(game_world),
            LookingAt::Something { block_pos, normal } => {
                &&& final(game_world).edited_from(*old(game_world), block_pos, None)
                &&& reload == reload_for(
                    resident@,
                    ChunkTranslation::containing(block_pos, old(game_world).chunk_dimensions),
                )
            },
        },
{
    match looking_at {
        LookingAt::Something { block_pos, normal: _ } => {
            let chunk_dimensions = game_world.chunk_dimensions;
            game_world.set_block_at(None, block_pos);
            let translation = ChunkTranslation::get_chunk_translation(block_pos, chunk_dimensions);
            match find_representation(resident, translation) {
                Some(e) => Some(ChunkEvent::Reload(e)),
                None => None,
            }
        },
        LookingAt::Nothing => None,
    }
}

/// Places a block against the face that the observer looks at: writes
/// `block_id` into the voxel in front of the face and asks for a reload of
/// that voxel's chunk if it is represented. Looking at nothing changes
/// nothing.
pub fn create_object(
    looking_at: LookingAt,
    block_id: BlockId,
    resident: &Vec<(Entity, ChunkMarker)>,
    game_world: &mut GameWorld,
) -> (reload: Option<ChunkEvent>)
    requires
        old(game_world).wf(),
        can_place(looking_at),
    ensures
        final(game_world).wf(),
        match looking_at {
            LookingAt::Nothing => reload.is_none() && *final(game_world) == *old(game_world),
            LookingAt::Something { block_pos, normal } => {
                let target = BlockPos {
                    x: (block_pos.x + normal.0) as isize,
                    y: (block_pos.y + normal.1) as isize,
                    z: (block_pos.z + normal.2) as isize,
                };
                &&& final(game_world).edited_from(*old(game_world), target, Some(block_id@))
                &&& reload == reload_for(
                    resident@,
                    ChunkTranslation::containing(target, old(game_world).chunk_dimensions),
                )
            },
        },
{
    match looking_at {
        LookingAt::Something { block_pos, normal } => {
            let chunk_dimensions = game_world.chunk_dimensions;
            let target = BlockPos {
                x: block_pos.x + normal.0 as isize,
                y: block_pos.y + normal.1 as isize,
                z: block_pos.z + normal.2 as isize,
            };
            let ghost written = voxel_view(Some(block_id));
            game_world.set_block_at(Some(block_id), target);
            let translation = ChunkTranslation::get_chunk_translation(target, chunk_dimensions);
            match find_representation(resident, translation) {
                Some(e) => Some(ChunkEvent::Reload(e)),
                None => None,
            }
        },
        LookingAt::Nothing => None,
    }
}

/// Whether the voxel in front of the face that the observer looks at has a
/// world position, so that a block can be placed there.
pub fn placeable(looking_at: LookingAt) -> (ok: bool)
    ensures
        ok == can_place(looking_at),
{
    match looking_at {
        LookingAt::Something { block_pos, normal } => {
            block_pos.x.checked_add(normal.0 as isize).is_some() && block_pos.y.checked_add(
                normal.1 as isize,
            ).is_some() && block_pos.z.checked_add(normal.2 as isize).is_some()
        },
        LookingAt::Nothing => true,
    }
}

} // verus!
