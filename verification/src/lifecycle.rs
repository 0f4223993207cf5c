//! Carries out the intents: decides, for every load, removal and reload, what
//! the scene has to do, and builds the geometry for it.
//!
//! A chunk with an empty surface is still represented, by an entity without
//! geometry; no collider is ever asked for an empty surface.

use vstd::prelude::*;
use bevy::ecs::entity::Entity;
use crate::block::{AtlasSize, BlockMesh};
use crate::catalog::BlockCatalog;
use crate::chunk::{Chunk, ChunkDimensions, ChunkTranslation, WorldPoint};
use crate::intent::{same_entity, ChunkEvent, ChunkLoadData, ChunkMarker};
use crate::mesh::{quad_indices, resolved_grid, ChunkMesh, MeshDescriptor, VoxelGrid};
use crate::world::{key_of, lemma_access_preserves_blocks, GameWorld};

verus! {

/// A chunk to represent: an entity tagged with `marker` at `global_pos`, with
/// a child that shows and collides with `geometry` if there is any.
#[derive(Clone, Debug)]
pub struct ChunkSpawn {
    pub marker: ChunkMarker,
    pub global_pos: WorldPoint,
    pub geometry: Option<MeshDescriptor>,
}

/// A represented chunk to rebuild: the entity's old geometry goes, and
/// `geometry` takes its place if there is any.
#[derive(Debug)]
pub struct ChunkRebuild {
    pub entity: Entity,
    pub geometry: Option<MeshDescriptor>,
}

/// Whether `geometry` is what is shown for `grid`: the grid's surface, or
/// nothing at all if the surface is empty.
pub open spec fn shows(
    geometry: Option<MeshDescriptor>,
    grid: VoxelGrid,
    atlas_size: AtlasSize,
) -> bool {
    match geometry {
        Some(mesh) => {
            &&& grid.surface().len() > 0
            &&& mesh.vertices@ == grid.surface()
            &&& mesh.indices@ == quad_indices(grid.surface().len() / 4)
            &&& mesh.indices@.len() > 0
            &&& mesh.atlas_size == atlas_size
        },
        None => grid.surface().len() == 0,
    }
}

/// Whether a chunk of these dimensions can be meshed with 32-bit indices:
/// even if every face of every voxel is seen, the last vertex has an index.
pub open spec fn meshable(dims: ChunkDimensions) -> bool {
    dims.valid() && 24 * dims.volume() <= u32::MAX
}

/// Whether a chunk of these dimensions can be meshed with 32-bit indices.
pub fn can_mesh(dims: ChunkDimensions) -> (ok: bool)
    ensures
        ok == meshable(dims),
{
    match ChunkDimensions::new(dims.width, dims.height, dims.depth) {
        Some(valid) => valid.voxel_count() <= 178_956_970,
        None => false,
    }
}

/// The loads among `events`, in order.
pub open spec fn load_requests(events: Seq<ChunkEvent>) -> Seq<ChunkLoadData>
    decreases events.len(),
{
    if events.len() == 0 {
        Seq::empty()
    } else {
        let rest = load_requests(events.drop_last());
        match events.last() {
            ChunkEvent::Load(data) => rest.push(data),
            _ => rest,
        }
    }
}

/// Whether one of `requests` asks for the chunk at `translation`.
pub open spec fn asks_for(requests: Seq<ChunkLoadData>, translation: ChunkTranslation) -> bool {
    exists|j: int| 0 <= j < requests.len() && (#[trigger] requests[j]).translation == translation
}

/// Whether one of `requests` rebuilds the chunk at `translation`.
pub open spec fn rebuilds_chunk(
    requests: Seq<(Entity, ChunkTranslation)>,
    translation: ChunkTranslation,
) -> bool {
    exists|j: int| 0 <= j < requests.len() && (#[trigger] requests[j]).1 == translation
}

/// The entities that `events` ask to remove, in order.
pub open spec fn removal_requests(events: Seq<ChunkEvent>) -> Seq<Entity>
    decreases events.len(),
{
    if events.len() == 0 {
        Seq::empty()
    } else {
        let rest = removal_requests(events.drop_last());
        match events.last() {
            ChunkEvent::Remove(entity) => rest.push(entity),
            _ => rest,
        }
    }
}

/// The coordinate of the chunk that `entity` represents: that of the first
/// entry of `resident` with this entity.
pub open spec fn marker_of(resident: Seq<(Entity, ChunkMarker)>, entity: Entity) -> Option<
    ChunkTranslation,
>
    decreases resident.len(),
{
    if resident.len() == 0 {
        None
    } else if resident.first().0 == entity {
        Some(resident.first().1.translation)
    } else {
        marker_of(resident.drop_first(), entity)
    }
}

/// The reloads among `events` that name a represented chunk, in order, each
/// with the coordinate of its chunk.
pub open spec fn reload_requests(
    events: Seq<ChunkEvent>,
    resident: Seq<(Entity, ChunkMarker)>,
) -> Seq<(Entity, ChunkTranslation)>
    decreases events.len(),
{
    if events.len() == 0 {
        Seq::empty()
    } else {
        let rest = reload_requests(events.drop_last(), resident);
        match events.last() {
            ChunkEvent::Reload(entity) => match marker_of(resident, entity) {
                Some(translation) => rest.push((entity, translation)),
                None => rest,
            },
            _ => rest,
        }
    }
}

/// A chunk of nothing but air is shown without geometry, whatever the
/// catalog knows.
pub proof fn lemma_air_chunk_has_no_geometry(
    geometry: Option<MeshDescriptor>,
    blocks: Seq<Option<Seq<char>>>,
    catalog: Map<Seq<char>, BlockMesh>,
    dims: ChunkDimensions,
    atlas_size: AtlasSize,
)
    requires
        blocks.len() == dims.volume(),
        forall|i: int| 0 <= i < blocks.len() ==> blocks[i].is_none(),
        shows(geometry, resolved_grid(blocks, catalog, dims), atlas_size),
    ensures
        geometry.is_none(),
        resolved_grid(blocks, catalog, dims).surface().len() == 0,
{
    resolved_grid(blocks, catalog, dims).lemma_empty_chunk_has_no_surface();
}

/// Builds what is shown for `chunk`: its surface, or `None` if the surface is
/// empty.
pub fn build_geometry(
    chunk: &Chunk,
    dimensions: ChunkDimensions,
    atlas_size: AtlasSize,
    catalog: &BlockCatalog,
) -> (geometry: Option<MeshDescriptor>)
    requires
        meshable(dimensions),
        chunk.wf(dimensions),
    ensures
        shows(geometry, resolved_grid(chunk.blocks(), catalog@, dimensions), atlas_size),
{
    let chunk_mesh = ChunkMesh::new(chunk, dimensions, atlas_size, catalog);
    let mesh = chunk_mesh.mesh();
    if mesh.indices.len() > 0 {
        Some(mesh)
    } else {
        None
    }
}

/// Carries out the loads among `events`, in order. For each, the chunk's
/// voxels are fetched from the world, which generates and stores the chunk if
/// it was never touched, and its geometry is built. Other intents are passed
/// over.
pub fn load_chunks(
    game_world: &mut GameWorld,
    events: &Vec<ChunkEvent>,
    catalog: &BlockCatalog,
    atlas_size: AtlasSize,
) -> (spawns: Vec<ChunkSpawn>)
    requires
        old(game_world).wf(),
        meshable(old(game_world).chunk_dimensions),
    ensures
        final(game_world).wf(),
        final(game_world).chunk_dimensions == old(game_world).chunk_dimensions,
        forall|t: ChunkTranslation| #[trigger]
            final(game_world).blocks_at(t) == old(game_world).blocks_at(t),
        forall|t: ChunkTranslation| #[trigger]
            final(game_world).has_chunk(t) == (old(game_world).has_chunk(t) || asks_for(
                load_requests(events@),
                t,
            )),
        spawns@.len() == load_requests(events@).len(),
        forall|j: int|
            0 <= j < spawns@.len() ==> {
                let request = load_requests(events@)[j];
                &&& (#[trigger] spawns@[j]).marker.translation == request.translation
                &&& spawns@[j].global_pos == request.global_pos
                &&& shows(
                    spawns@[j].geometry,
                    resolved_grid(
                        old(game_world).blocks_at(request.translation),
                        catalog@,
                        old(game_world).chunk_dimensions,
                    ),
                    atlas_size,
                )
            },
{
    let chunk_dimensions = game_world.chunk_dimensions;
    let mut spawns: Vec<ChunkSpawn> = Vec::new();
    let mut i: usize = 0;
    proof {
        assert(events@.take(0).len() == 0);
    }
    while i < events.len()
        invariant
            i <= events.len(),
            game_world.wf(),
            game_world.chunk_dimensions == chunk_dimensions,
            chunk_dimensions == old(game_world).chunk_dimensions,
            meshable(chunk_dimensions),
            forall|t: ChunkTranslation| #[trigger]
                game_world.blocks_at(t) == old(game_world).blocks_at(t),
            forall|t: ChunkTranslation| #[trigger]
                game_world.has_chunk(t) == (old(game_world).has_chunk(t) || asks_for(
                    load_requests(events@.take(i as int)),
                    t,
                )),
            spawns@.len() == load_requests(events@.take(i as int)).len(),
            forall|j: int|
                0 <= j < spawns@.len() ==> {
                    let request = load_requests(events@.take(i as int))[j];
                    &&& (#[trigger] spawns@[j]).marker.translation == request.translation
                    &&& spawns@[j].global_pos == request.global_pos
                    &&& shows(
                        spawns@[j].geometry,
                        resolved_grid(
                            old(game_world).blocks_at(request.translation),
                            catalog@,
                            chunk_dimensions,
                        ),
                        atlas_size,
                    )
                },
        decreases events.len() - i,
    {
        proof {
            assert(events@.take(i as int + 1).drop_last() =~= events@.take(i as int));
            assert(events@.take(i as int + 1).last() == events@[i as int]);
        }
        let ghost seen = load_requests(events@.take(i as int));
        let ghost seen_next = load_requests(events@.take(i as int + 1));
        match events[i] {
            ChunkEvent::Load(chunk_data) => {
                let ghost before = *game_world;
                let chunk = game_world.get_chunk_at(chunk_data.translation);
                let geometry = build_geometry(chunk, chunk_dimensions, atlas_size, catalog);
                proof {
                    assert(seen_next == seen.push(chunk_data));
                    assert forall|t: ChunkTranslation| #[trigger]
                        game_world.has_chunk(t) == (old(game_world).has_chunk(t) || asks_for(
                            seen_next,
                            t,
                        )) by {
                        lemma_asks_for_step(seen, chunk_data, t);
                        assert(before.has_chunk(t) == (old(game_world).has_chunk(t) || asks_for(
                            seen,
                            t,
                        )));
                        if t != chunk_data.translation {
                            assert(key_of(t) != key_of(chunk_data.translation));
                        }
                    }
                    assert(game_world.touched_from(before, chunk_data.translation));
                    assert forall|t: ChunkTranslation| #[trigger]
                        game_world.blocks_at(t) == old(game_world).blocks_at(t) by {
                        lemma_access_preserves_blocks(
                            before,
                            *game_world,
                            chunk_data.translation,
                            t,
                        );
                        assert(before.blocks_at(t) == old(game_world).blocks_at(t));
                    }
                    assert(before.blocks_at(chunk_data.translation) == old(game_world).blocks_at(
                        chunk_data.translation,
                    ));
                }
                spawns.push(
                    ChunkSpawn {
                        marker: ChunkMarker { translation: chunk_data.translation },
                        global_pos: chunk_data.global_pos,
                        geometry,
                    },
                );
            },
            _ => {},
        }
        i += 1;
    }
    proof {
        assert(events@.take(events@.len() as int) =~= events@);
    }
    spawns
}

/// A chunk is asked for after one more request if it was asked for before or
/// is the chunk of that request.
pub proof fn lemma_asks_for_step(
    requests: Seq<ChunkLoadData>,
    next: ChunkLoadData,
    translation: ChunkTranslation,
)
    ensures
        asks_for(requests.push(next), translation) == (asks_for(requests, translation)
            || next.translation == translation),
{
    let longer = requests.push(next);
    if asks_for(requests, translation) {
        let j = choose|j: int|
            0 <= j < requests.len() && (#[trigger] requests[j]).translation == translation;
        assert(longer[j].translation == translation);
    }
    if next.translation == translation {
        assert(longer[requests.len() as int].translation == translation);
    }
    if asks_for(longer, translation) {
        let j = choose|j: int|
            0 <= j < longer.len() && (#[trigger] longer[j]).translation == translation;
        if j < requests.len() {
            assert(requests[j].translation == translation);
        }
    }
}

/// A chunk is rebuilt after one more request if it was rebuilt before or is
/// the chunk of that request.
pub proof fn lemma_rebuilds_chunk_step(
    requests: Seq<(Entity, ChunkTranslation)>,
    next: (Entity, ChunkTranslation),
    translation: ChunkTranslation,
)
    ensures
        rebuilds_chunk(requests.push(next), translation) == (rebuilds_chunk(requests, translation)
            || next.1 == translation),
{
    let longer = requests.push(next);
    if rebuilds_chunk(requests, translation) {
        let j = choose|j: int| 0 <= j < requests.len() && (#[trigger] requests[j]).1 == translation;
        assert(longer[j].1 == translation);
    }
    if next.1 == translation {
        assert(longer[requests.len() as int].1 == translation);
    }
    if rebuilds_chunk(longer, translation) {
        let j = choose|j: int| 0 <= j < longer.len() && (#[trigger] longer[j]).1 == translation;
        if j < requests.len() {
            assert(requests[j].1 == translation);
        }
    }
}

/// The entities to drop with all their children: those that the removals
/// among `events` name, in order. Nothing is saved first, because every edit
/// was written into the world when it was made.
pub fn unload_chunks(events: &Vec<ChunkEvent>) -> (despawns: Vec<Entity>)
    ensures
        despawns@ == removal_requests(events@),
{
    let mut despawns: Vec<Entity> = Vec::new();
    let mut i: usize = 0;
    proof {
        assert(events@.take(0).len() == 0);
    }
    while i < events.len()
        invariant
            i <= events.len(),
            despawns@ == removal_requests(events@.take(i as int)),
        decreases events.len() - i,
    {
        proof {
            assert(events@.take(i as int + 1).drop_last() =~= events@.take(i as int));
            assert(events@.take(i as int + 1).last() == events@[i as int]);
        }
        match events[i] {
            ChunkEvent::Remove(chunk_entity) => {
                despawns.push(chunk_entity);
            },
            _ => {},
        }
        i += 1;
    }
    proof {
        assert(events@.take(events@.len() as int) =~= events@);
    }
    despawns
}

/// The marker of the chunk that `entity` represents, if it represents one.
pub fn find_marker(resident: &Vec<(Entity, ChunkMarker)>, entity: Entity) -> (found: Option<
    ChunkTranslation,
>)
    ensures
        found == marker_of(resident@, entity),
{
    let mut i: usize = 0;
    proof {
        assert(resident@.skip(0) =~= resident@);
    }
    while i < resident.len()
        invariant
            i <= resident.len(),
            marker_of(resident@, entity) == marker_of(resident@.skip(i as int), entity),
        decreases resident.len() - i,
    {
        proof {
            assert(resident@.skip(i as int).first() == resident@[i as int]);
            assert(resident@.skip(i as int).drop_first() =~= resident@.skip(i as int + 1));
        }
        if same_entity(resident[i].0, entity) {
            return Some(resident[i].1.translation);
        }
        i += 1;
    }
    proof {
        assert(resident@.skip(i as int).len() == 0);
    }
    None
}

/// Carries out the reloads among `events`, in order. For each that names a
/// represented chunk, the chunk's geometry is built again from the world as
/// it is now; a reload of an entity that represents no chunk is passed over,
/// and so are other intents.
pub fn reload_chunk(
    game_world: &mut GameWorld,
    events: &Vec<ChunkEvent>,
    resident: &Vec<(Entity, ChunkMarker)>,
    catalog: &BlockCatalog,
    atlas_size: AtlasSize,
) -> (rebuilds: Vec<ChunkRebuild>)
    requires
        old(game_world).wf(),
        meshable(old(game_world).chunk_dimensions),
    ensures
        final(game_world).wf(),
        final(game_world).chunk_dimensions == old(game_world).chunk_dimensions,
        forall|t: ChunkTranslation| #[trigger]
            final(game_world).blocks_at(t) == old(game_world).blocks_at(t),
        forall|t: ChunkTranslation| #[trigger]
            final(game_world).has_chunk(t) == (old(game_world).has_chunk(t) || rebuilds_chunk(
                reload_requests(events@, resident@),
                t,
            )),
        rebuilds@.len() == reload_requests(events@, resident@).len(),
        forall|j: int|
            0 <= j < rebuilds@.len() ==> {
                let request = reload_requests(events@, resident@)[j];
                &&& (#[trigger] rebuilds@[j]).entity == request.0
                &&& shows(
                    rebuilds@[j].geometry,
                    resolved_grid(
                        old(game_world).blocks_at(request.1),
                        catalog@,
                        old(game_world).chunk_dimensions,
                    ),
                    atlas_size,
                )
            },
{
    let chunk_dimensions = game_world.chunk_dimensions;
    let mut rebuilds: Vec<ChunkRebuild> = Vec::new();
    let mut i: usize = 0;
    proof {
        assert(events@.take(0).len() == 0);
    }
    while i < events.len()
        invariant
            i <= events.len(),
            game_world.wf(),
            game_world.chunk_dimensions == chunk_dimensions,
            chunk_dimensions == old(game_world).chunk_dimensions,
            meshable(chunk_dimensions),
            forall|t: ChunkTranslation| #[trigger]
                game_world.blocks_at(t) == old(game_world).blocks_at(t),
            forall|t: ChunkTranslation| #[trigger]
                game_world.has_chunk(t) == (old(game_world).has_chunk(t) || rebuilds_chunk(
                    reload_requests(events@.take(i as int), resident@),
                    t,
                )),
            rebuilds@.len() == reload_requests(events@.take(i as int), resident@).len(),
            forall|j: int|
                0 <= j < rebuilds@.len() ==> {
                    let request = reload_requests(events@.take(i as int), resident@)[j];
                    &&& (#[trigger] rebuilds@[j]).entity == request.0
                    &&& shows(
                        rebuilds@[j].geometry,
                        resolved_grid(
                            old(game_world).blocks_at(request.1),
                            catalog@,
                            chunk_dimensions,
                        ),
                        atlas_size,
                    )
                },
        decreases events.len() - i,
    {
        proof {
            assert(events@.take(i as int + 1).drop_last() =~= events@.take(i as int));
            assert(events@.take(i as int + 1).last() == events@[i as int]);
        }
        match events[i] {
            ChunkEvent::Reload(chunk_entity) => {
                match find_marker(resident, chunk_entity) {
                    Some(translation) => {
                        let ghost before = *game_world;
                        let ghost seen = reload_requests(events@.take(i as int), resident@);
                        let ghost seen_next = reload_requests(
                            events@.take(i as int + 1),
                            resident@,
                        );
                        let chunk = game_world.get_chunk_at(translation);
                        let geometry = build_geometry(chunk, chunk_dimensions, atlas_size, catalog);
                        proof {
                            assert(seen_next == seen.push((chunk_entity, translation)));
                            assert forall|t: ChunkTranslation| #[trigger]
                                game_world.has_chunk(t) == (old(game_world).has_chunk(t)
                                    || rebuilds_chunk(seen_next, t)) by {
                                lemma_rebuilds_chunk_step(seen, (chunk_entity, translation), t);
                                assert(before.has_chunk(t) == (old(game_world).has_chunk(t)
                                    || rebuilds_chunk(seen, t)));
                                if t != translation {
                                    assert(key_of(t) != key_of(translation));
                                }
                            }
                            assert(game_world.touched_from(before, translation));
                            assert forall|t: ChunkTranslation| #[trigger]
                                game_world.blocks_at(t) == old(game_world).blocks_at(t) by {
                                lemma_access_preserves_blocks(before, *game_world, translation, t);
                                assert(before.blocks_at(t) == old(game_world).blocks_at(t));
                            }
                            assert(before.blocks_at(translation) == old(game_world).blocks_at(
                                translation,
                            ));
                        }
                        rebuilds.push(ChunkRebuild { entity: chunk_entity, geometry });
                    },
                    None => {},
                }
            },
            _ => {},
        }
        i += 1;
    }
    proof {
        assert(events@.take(events@.len() as int) =~= events@);
    }
    rebuilds
}

} // verus!
