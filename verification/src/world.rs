//! The world store: every chunk that was ever looked at or edited, kept for
//! the lifetime of the world.

use vstd::prelude::*;
use crate::block::BlockId;
use crate::chunk::{
    lemma_chunk_round_trip, voxel_view, with_listed, BlockPos, Chunk, ChunkDimensions,
    ChunkTranslation,
};
use crate::table::{table_chunks, ChunkKey, ChunkTable};

verus! {

/// Name of the block that fills every chunk below grid height zero.
pub open spec fn ground_name() -> Seq<char> {
    "mineclone:stone"@
}

/// The voxel array of a chunk at `translation` that nobody has edited: ground
/// everywhere below grid height zero, air everywhere else.
pub open spec fn generated_blocks(translation: ChunkTranslation, dims: ChunkDimensions) -> Seq<
    Option<Seq<char>>,
> {
    Seq::new(
        dims.volume() as nat,
        |i: int|
            if translation.y < 0 {
                Some(ground_name())
            } else {
                None
            },
    )
}

/// The ids listed by a chunk at `translation` that nobody has edited.
pub open spec fn generated_unique(translation: ChunkTranslation) -> Seq<Seq<char>> {
    if translation.y < 0 {
        seq![ground_name()]
    } else {
        Seq::empty()
    }
}

/// Table key of a grid coordinate.
pub open spec fn key_of(translation: ChunkTranslation) -> ChunkKey {
    (translation.x, translation.y, translation.z)
}

/// Builds the chunk at `translation` as the terrain rule defines it.
pub fn generate_chunk(translation: ChunkTranslation, dimensions: ChunkDimensions) -> (chunk: Chunk)
    requires
        dimensions.valid(),
    ensures
        chunk.wf(dimensions),
        chunk.translation == translation,
        chunk.blocks() == generated_blocks(translation, dimensions),
        chunk.unique() == generated_unique(translation),
{
    let count = dimensions.voxel_count();
    let mut unique_blocks: Vec<BlockId> = Vec::new();
    let mut block_data: Vec<Option<BlockId>> = Vec::new();
    if translation.y < 0 {
        unique_blocks.push(ground_block());
    }
    let mut i: usize = 0;
    while i < count
        invariant
            i <= count,
            count == dimensions.volume(),
            block_data@.len() == i,
            forall|j: int|
                0 <= j < i ==> voxel_view(#[trigger] block_data@[j]) == (if translation.y < 0 {
                    Some(ground_name())
                } else {
                    None
                }),
        decreases count - i,
    {
        if translation.y < 0 {
            block_data.push(Some(ground_block()));
        } else {
            block_data.push(None);
        }
        i += 1;
    }
    let chunk = Chunk { block_data, translation, unique_blocks };
    proof {
        assert(chunk.blocks() =~= generated_blocks(translation, dimensions));
        assert(chunk.unique() =~= generated_unique(translation));
        if translation.y < 0 {
            assert(chunk.unique()[0] == ground_name());
        }
    }
    chunk
}

/// The id of the ground block.
pub fn ground_block() -> (id: BlockId)
    ensures
        id@ == ground_name(),
{
    BlockId("mineclone:stone".to_string())
}

/// All chunks of a world and the dimensions they share.
pub struct GameWorld {
    pub chunk_data: ChunkTable,
    pub chunk_dimensions: ChunkDimensions,
}

impl GameWorld {
    /// The chunks that the world has stored so far.
    pub open spec fn stored(&self) -> Map<ChunkKey, Chunk> {
        table_chunks(self.chunk_data)
    }

    /// Whether a chunk is stored for `translation`.
    pub open spec fn has_chunk(&self, translation: ChunkTranslation) -> bool {
        self.stored().dom().contains(key_of(translation))
    }

    /// The dimensions can be stored, and every stored chunk is well formed and
    /// sits under its own grid coordinate.
    pub open spec fn wf(&self) -> bool {
        &&& self.chunk_dimensions.valid()
        &&& forall|key: ChunkKey| #[trigger]
            self.stored().dom().contains(key) ==> {
                &&& self.stored()[key].wf(self.chunk_dimensions)
                &&& key_of(self.stored()[key].translation) == key
            }
    }

    /// The voxel array of the chunk at `translation`: the stored one if there
    /// is one, else the one that the terrain rule defines.
    pub open spec fn blocks_at(&self, translation: ChunkTranslation) -> Seq<Option<Seq<char>>> {
        if self.has_chunk(translation) {
            self.stored()[key_of(translation)].blocks()
        } else {
            generated_blocks(translation, self.chunk_dimensions)
        }
    }

    /// The ids listed by the chunk at `translation`, stored or not.
    pub open spec fn unique_at(&self, translation: ChunkTranslation) -> Seq<Seq<char>> {
        if self.has_chunk(translation) {
            self.stored()[key_of(translation)].unique()
        } else {
            generated_unique(translation)
        }
    }

    /// What the voxel at world position `pos` holds.
    pub open spec fn block_at(&self, pos: BlockPos) -> Option<Seq<char>> {
        self.blocks_at(ChunkTranslation::containing(pos, self.chunk_dimensions))[Chunk::local_index(
            pos,
            self.chunk_dimensions,
        )]
    }

    /// A world that has stored nothing yet.
    pub fn new(chunk_dimensions: ChunkDimensions) -> (world: GameWorld)
        requires
            chunk_dimensions.valid(),
        ensures
            world.wf(),
            world.chunk_dimensions == chunk_dimensions,
            world.stored().dom() == Set::<ChunkKey>::empty(),
    {
        GameWorld { chunk_data: ChunkTable::new(), chunk_dimensions }
    }

    /// Whether a chunk is stored for `chunk_translation`, that is, whether
    /// the chunk was ever looked at or edited.
    pub fn is_stored(&self, chunk_translation: ChunkTranslation) -> (stored: bool)
        ensures
            stored == self.has_chunk(chunk_translation),
    {
        let key = (chunk_translation.x, chunk_translation.y, chunk_translation.z);
        self.chunk_data.contains_key(&key)
    }

    /// The stored chunk at `chunk_translation`, for reading and writing. A
    /// chunk that was never touched before is generated and stored first. The
    /// world holds afterwards whatever the caller leaves in the chunk.
    pub fn get_chunk_at_mut(&mut self, chunk_translation: ChunkTranslation) -> (chunk: &mut Chunk)
        requires
            old(self).wf(),
        ensures
            chunk.wf(old(self).chunk_dimensions),
            chunk.translation == chunk_translation,
            chunk.blocks() == old(self).blocks_at(chunk_translation),
            chunk.unique() == old(self).unique_at(chunk_translation),
            old(self).has_chunk(chunk_translation) ==> *chunk == old(self).stored()[key_of(
                chunk_translation,
            )],
            final(self).chunk_dimensions == old(self).chunk_dimensions,
            final(self).stored() == old(self).stored().insert(
                key_of(chunk_translation),
                *final(chunk),
            ),
    {
        let dimensions = self.chunk_dimensions;
        let fresh = generate_chunk(chunk_translation, dimensions);
        let key = (chunk_translation.x, chunk_translation.y, chunk_translation.z);
        proof {
            if self.stored().dom().contains(key) {
                let kept = self.stored()[key];
                assert(kept.wf(dimensions) && key_of(kept.translation) == key);
            }
        }
        self.chunk_data.entry_or_insert(key, fresh)
    }

    /// The chunk at `chunk_translation`, for reading. A chunk that was never
    /// touched before is generated and stored first; looking at a chunk
    /// changes no voxel of the world.
    pub fn get_chunk_at(&mut self, chunk_translation: ChunkTranslation) -> (chunk: &Chunk)
        requires
            old(self).wf(),
        ensures
            final(self).wf(),
            chunk.wf(old(self).chunk_dimensions),
            chunk.translation == chunk_translation,
            chunk.blocks() == old(self).blocks_at(chunk_translation),
            chunk.unique() == old(self).unique_at(chunk_translation),
            final(self).chunk_dimensions == old(self).chunk_dimensions,
            final(self).stored() == old(self).stored().insert(key_of(chunk_translation), *chunk),
            final(self).touched_from(*old(self), chunk_translation),
    {
        let chunk = self.get_chunk_at_mut(chunk_translation);
        &*chunk
    }

    /// What the voxel at world position `pos` holds. The chunk that holds the
    /// voxel is generated and stored if it was never touched before.
    pub fn get_block_at(&mut self, pos: BlockPos) -> (block: Option<BlockId>)
        requires
            old(self).wf(),
        ensures
            final(self).wf(),
            voxel_view(block) == old(self).block_at(pos),
            final(self).touched_from(
                *old(self),
                ChunkTranslation::containing(pos, old(self).chunk_dimensions),
            ),
    {
        let chunk_dimensions = self.chunk_dimensions;
        let chunk_translation = ChunkTranslation::get_chunk_translation(pos, chunk_dimensions);
        let chunk = self.get_chunk_at(chunk_translation);
        chunk.get_block_at(pos, chunk_dimensions)
    }

    /// Writes `block_id` into the voxel at world position `pos` of the stored
    /// chunk, and returns what the voxel held before. The chunk is generated
    /// and stored first if it was never touched before.
    pub fn set_block_at(&mut self, block_id: Option<BlockId>, pos: BlockPos) -> (previous: Option<
        BlockId,
    >)
        requires
            old(self).wf(),
        ensures
            final(self).wf(),
            voxel_view(previous) == old(self).block_at(pos),
            final(self).edited_from(*old(self), pos, voxel_view(block_id)),
    {
        let chunk_dimensions = self.chunk_dimensions;
        let chunk_translation = ChunkTranslation::get_chunk_translation(pos, chunk_dimensions);
        let chunk = self.get_chunk_at_mut(chunk_translation);
        chunk.set_block_at(pos, block_id, chunk_dimensions)
    }

    /// `self` is what `before` becomes when its chunk at `translation` is
    /// looked at: the chunk is stored with the voxels it had, and no other
    /// entry changes.
    pub open spec fn touched_from(&self, before: GameWorld, translation: ChunkTranslation) -> bool {
        &&& self.chunk_dimensions == before.chunk_dimensions
        &&& self.has_chunk(translation)
        &&& self.stored() == before.stored().insert(
            key_of(translation),
            self.stored()[key_of(translation)],
        )
        &&& self.stored()[key_of(translation)].blocks() == before.blocks_at(translation)
        &&& self.stored()[key_of(translation)].unique() == before.unique_at(translation)
    }

    /// `self` is what `before` becomes when `voxel` is written at world
    /// position `pos`: the chunk that holds the position is stored, its array
    /// differs from the one it had in that one place only, the voxel's id is
    /// listed, and no other entry changes.
    pub open spec fn edited_from(
        &self,
        before: GameWorld,
        pos: BlockPos,
        voxel: Option<Seq<char>>,
    ) -> bool {
        let translation = ChunkTranslation::containing(pos, before.chunk_dimensions);
        &&& self.chunk_dimensions == before.chunk_dimensions
        &&& self.has_chunk(translation)
        &&& self.stored() == before.stored().insert(
            key_of(translation),
            self.stored()[key_of(translation)],
        )
        &&& self.stored()[key_of(translation)].blocks() == before.blocks_at(translation).update(
            Chunk::local_index(pos, before.chunk_dimensions),
            voxel,
        )
        &&& self.stored()[key_of(translation)].unique() == with_listed(
            before.unique_at(translation),
            voxel,
        )
    }
}

impl Default for GameWorld {
    /// An empty world of chunks with sixteen voxels on every axis.
    fn default() -> (world: GameWorld)
        ensures
            world.wf(),
            world.chunk_dimensions == (ChunkDimensions { width: 16, height: 16, depth: 16 }),
            world.stored().dom() == Set::<ChunkKey>::empty(),
    {
        GameWorld::new(ChunkDimensions::default())
    }
}

/// Looking at a chunk changes no voxel: after the chunk at `translation` was
/// looked at, every chunk of the world, this one included, has the voxel
/// array it had before. So asking for the same chunk again, with no edit in
/// between, gives the same array.
pub proof fn lemma_access_preserves_blocks(
    before: GameWorld,
    after: GameWorld,
    translation: ChunkTranslation,
    other: ChunkTranslation,
)
    requires
        after.touched_from(before, translation),
    ensures
        after.blocks_at(other) == before.blocks_at(other),
        after.unique_at(other) == before.unique_at(other),
        after.blocks_at(translation) == before.blocks_at(translation),
{
    if key_of(other) != key_of(translation) {
        assert(after.has_chunk(other) == before.has_chunk(other));
    } else {
        assert(other == translation);
    }
}

/// The voxel array of any chunk has one entry per voxel.
pub proof fn lemma_blocks_at_len(world: GameWorld, translation: ChunkTranslation)
    requires
        world.wf(),
    ensures
        world.blocks_at(translation).len() == world.chunk_dimensions.volume(),
{
    if world.has_chunk(translation) {
        assert(world.stored().dom().contains(key_of(translation)));
    }
}

/// Read after write: once `voxel` was written at `pos`, the world holds
/// `voxel` at `pos`.
pub proof fn lemma_read_after_write(
    before: GameWorld,
    after: GameWorld,
    pos: BlockPos,
    voxel: Option<Seq<char>>,
)
    requires
        before.wf(),
        after.edited_from(before, pos, voxel),
    ensures
        after.block_at(pos) == voxel,
{
    let dims = before.chunk_dimensions;
    let translation = ChunkTranslation::containing(pos, dims);
    lemma_blocks_at_len(before, translation);
    lemma_chunk_round_trip(pos, dims);
    let l = Chunk::local_offset(pos, dims);
    dims.lemma_index_in_range(l.x as int, l.y as int, l.z as int);
}

/// A write touches one voxel only: every other position of the world holds
/// after the write what it held before.
pub proof fn lemma_write_is_local(
    before: GameWorld,
    after: GameWorld,
    pos: BlockPos,
    voxel: Option<Seq<char>>,
    elsewhere: BlockPos,
)
    requires
        before.wf(),
        after.edited_from(before, pos, voxel),
        elsewhere != pos,
    ensures
        after.block_at(elsewhere) == before.block_at(elsewhere),
{
    let dims = before.chunk_dimensions;
    let translation = ChunkTranslation::containing(pos, dims);
    let there = ChunkTranslation::containing(elsewhere, dims);
    lemma_chunk_round_trip(pos, dims);
    lemma_chunk_round_trip(elsewhere, dims);
    let l = Chunk::local_offset(pos, dims);
    let m = Chunk::local_offset(elsewhere, dims);
    dims.lemma_index_in_range(l.x as int, l.y as int, l.z as int);
    dims.lemma_index_in_range(m.x as int, m.y as int, m.z as int);
    lemma_blocks_at_len(before, translation);
    if there == translation {
        dims.lemma_index_round_trip(l.x as int, l.y as int, l.z as int);
        dims.lemma_index_round_trip(m.x as int, m.y as int, m.z as int);
        assert(l != m);
        assert(Chunk::local_index(pos, dims) != Chunk::local_index(elsewhere, dims));
    } else {
        assert(key_of(there) != key_of(translation));
        assert(after.has_chunk(there) == before.has_chunk(there));
    }
}

} // verus!
