//! Chunk grid coordinates, chunk dimensions and the dense voxel array of one chunk.
//!
//! World positions are whole voxel coordinates. A chunk with grid coordinate
//! `t` covers the voxels `t * dim ..= t * dim + dim - 1` on each axis, so the
//! chunk of a voxel is found by floor division and its offset inside the chunk
//! by the matching non-negative remainder.

use vstd::prelude::*;
use vstd::arithmetic::div_mod::*;
use vstd::arithmetic::mul::*;
use crate::block::BlockId;

verus! {

/// The fixed size of every chunk of a world, in voxels per axis.
#[derive(Clone, Copy, Debug, PartialEq, Eq, Structural)]
pub struct ChunkDimensions {
    pub width: usize,
    pub height: usize,
    pub depth: usize,
}

/// Grid coordinate of a chunk. It counts chunks, not voxels.
#[derive(Clone, Copy, Debug, PartialEq, Eq, Hash, Structural)]
pub struct ChunkTranslation {
    pub x: isize,
    pub y: isize,
    pub z: isize,
}

/// World position of a voxel: the componentwise floor of a point in space.
#[derive(Clone, Copy, Debug, PartialEq, Eq, Hash, Structural)]
pub struct BlockPos {
    pub x: isize,
    pub y: isize,
    pub z: isize,
}

/// Offset of a voxel inside its chunk, each component below the chunk's
/// dimension on that axis.
#[derive(Clone, Copy, Debug, PartialEq, Eq, Structural)]
pub struct LocalPos {
    pub x: usize,
    pub y: usize,
    pub z: usize,
}

/// A point in space, measured in block half-sizes (two units per voxel edge).
#[derive(Clone, Copy, Debug, PartialEq, Eq, Structural)]
pub struct WorldPoint {
    pub x: i128,
    pub y: i128,
    pub z: i128,
}

impl ChunkDimensions {
    /// Number of voxels in a chunk.
    pub open spec fn volume(self) -> int {
        self.width * self.height * self.depth
    }

    /// Every axis is positive and a chunk's voxel array fits in memory.
    pub open spec fn valid(self) -> bool {
        &&& self.width > 0
        &&& self.height > 0
        &&& self.depth > 0
        &&& self.volume() <= isize::MAX
    }

    /// Whether `(x, y, z)` names a voxel of a chunk.
    pub open spec fn contains(self, x: int, y: int, z: int) -> bool {
        &&& 0 <= x < self.width
        &&& 0 <= y < self.height
        &&& 0 <= z < self.depth
    }

    /// Place of the voxel `(x, y, z)` in a chunk's array: `x` is the slowest
    /// axis and `z` the fastest.
    pub open spec fn index_of(self, x: int, y: int, z: int) -> int {
        x * (self.height * self.depth) + y * self.depth + z
    }

    /// The `x` component of the voxel stored at `index`.
    pub open spec fn x_of(self, index: int) -> int {
        index / (self.height * self.depth)
    }

    /// The `y` component of the voxel stored at `index`.
    pub open spec fn y_of(self, index: int) -> int {
        (index % (self.height * self.depth)) / (self.depth as int)
    }

    /// The `z` component of the voxel stored at `index`.
    pub open spec fn z_of(self, index: int) -> int {
        index % (self.depth as int)
    }

    /// Builds the dimensions if they describe a chunk that can be stored.
    pub fn new(width: usize, height: usize, depth: usize) -> (res: Option<ChunkDimensions>)
        ensures
            res.is_some() == (ChunkDimensions { width, height, depth }).valid(),
            res.is_some() ==> res.unwrap() == (ChunkDimensions { width, height, depth }),
    {
        let dims = ChunkDimensions { width, height, depth };
        if width == 0 || height == 0 || depth == 0 {
            return None;
        }
        let limit: usize = isize::MAX as usize;
        let wh: usize = match width.checked_mul(height) {
            Some(v) => v,
            None => {
                proof {
                    lemma_product_grows(width as int * height as int, depth as int);
                }
                return None;
            },
        };
        match wh.checked_mul(depth) {
            Some(v) => {
                if v <= limit {
                    Some(dims)
                } else {
                    None
                }
            },
            None => None,
        }
    }

    /// Number of voxels in a chunk.
    pub fn voxel_count(&self) -> (n: usize)
        requires
            self.valid(),
        ensures
            n == self.volume(),
    {
        proof {
            lemma_product_grows(self.width as int * self.height as int, self.depth as int);
        }
        self.width * self.height * self.depth
    }

    /// Place of a voxel in a chunk's array.
    pub fn index(&self, local: LocalPos) -> (i: usize)
        requires
            self.valid(),
            self.contains(local.x as int, local.y as int, local.z as int),
        ensures
            i == self.index_of(local.x as int, local.y as int, local.z as int),
            i < self.volume(),
    {
        proof {
            self.lemma_index_in_range(local.x as int, local.y as int, local.z as int);
            self.lemma_plane_fits();
            lemma_mul_inequality(local.x as int, self.width as int - 1, self.height * self.depth);
            lemma_mul_inequality(local.y as int, self.height as int - 1, self.depth as int);
            lemma_mul_is_distributive_sub_other_way(
                self.height * self.depth,
                self.width as int,
                1,
            );
            lemma_mul_is_distributive_sub_other_way(self.depth as int, self.height as int, 1);
            lemma_mul_is_associative(self.width as int, self.height as int, self.depth as int);
        }
        local.x * (self.height * self.depth) + local.y * self.depth + local.z
    }

    /// One layer of constant `x` is no larger than the whole chunk.
    pub proof fn lemma_plane_fits(self)
        requires
            self.valid(),
        ensures
            0 < self.height * self.depth <= self.volume(),
            self.volume() == self.width * (self.height * self.depth),
    {
        lemma_mul_is_associative(self.width as int, self.height as int, self.depth as int);
        lemma_mul_strictly_positive(self.height as int, self.depth as int);
        lemma_product_grows(self.height * self.depth, self.width as int);
        lemma_mul_is_commutative(self.width as int, self.height * self.depth);
    }

    /// Every voxel of a chunk has a place inside the array.
    pub proof fn lemma_index_in_range(self, x: int, y: int, z: int)
        requires
            self.valid(),
            self.contains(x, y, z),
        ensures
            0 <= self.index_of(x, y, z) < self.volume(),
    {
        let plane = self.height * self.depth;
        self.lemma_plane_fits();
        lemma_mul_nonnegative(x, plane);
        lemma_mul_nonnegative(y, self.depth as int);
        lemma_mul_inequality(x, self.width as int - 1, plane);
        lemma_mul_inequality(y, self.height as int - 1, self.depth as int);
        lemma_mul_is_distributive_sub_other_way(plane, self.width as int, 1);
        lemma_mul_is_distributive_sub_other_way(self.depth as int, self.height as int, 1);
    }

    /// The array place and the voxel coordinates determine each other.
    pub proof fn lemma_index_round_trip(self, x: int, y: int, z: int)
        requires
            self.valid(),
            self.contains(x, y, z),
        ensures
            self.x_of(self.index_of(x, y, z)) == x,
            self.y_of(self.index_of(x, y, z)) == y,
            self.z_of(self.index_of(x, y, z)) == z,
    {
        let plane = self.height * self.depth;
        let d = self.depth as int;
        let rest = y * d + z;
        self.lemma_plane_fits();
        lemma_mul_nonnegative(y, d);
        lemma_mul_inequality(y, self.height as int - 1, d);
        lemma_mul_is_distributive_sub_other_way(d, self.height as int, 1);
        assert(0 <= rest < plane);
        lemma_fundamental_div_mod_converse(self.index_of(x, y, z), plane, x, rest);
        lemma_fundamental_div_mod_converse(rest, d, y, z);
        lemma_mul_is_commutative(x, plane);
        lemma_mul_is_associative(x, self.height as int, d);
        lemma_mod_multiples_vanish(x * self.height, z + y * d, d);
        lemma_mod_multiples_vanish(y, z, d);
        lemma_small_mod(z as nat, d as nat);
        assert(self.index_of(x, y, z) == d * (x * self.height) + (z + y * d)) by {
            lemma_mul_is_commutative(d, x * self.height);
        }
        assert((z + y * d) % d == z) by {
            lemma_mul_is_commutative(d, y);
        }
    }

    /// Every array place below the volume belongs to exactly one voxel.
    pub proof fn lemma_coordinates_of_index(self, index: int)
        requires
            self.valid(),
            0 <= index < self.volume(),
        ensures
            self.contains(self.x_of(index), self.y_of(index), self.z_of(index)),
            self.index_of(self.x_of(index), self.y_of(index), self.z_of(index)) == index,
    {
        let plane = self.height * self.depth;
        let d = self.depth as int;
        self.lemma_plane_fits();
        let x = index / plane;
        let rest = index % plane;
        lemma_fundamental_div_mod(index, plane);
        lemma_mod_bound(index, plane);
        lemma_div_pos_is_pos(index, plane);
        assert(x < self.width) by {
            if x >= self.width {
                lemma_mul_inequality(self.width as int, x, plane);
                lemma_mul_is_commutative(x, plane);
                lemma_mul_is_commutative(self.width as int, plane);
            }
        }
        let y = rest / d;
        let z = rest % d;
        lemma_fundamental_div_mod(rest, d);
        lemma_mod_bound(rest, d);
        lemma_div_pos_is_pos(rest, d);
        assert(y < self.height) by {
            if y >= self.height {
                lemma_mul_inequality(self.height as int, y, d);
                lemma_mul_is_commutative(y, d);
            }
        }
        lemma_mul_is_commutative(x, plane);
        lemma_mul_is_commutative(y, d);
        assert(index % d == z) by {
            lemma_mul_is_associative(x, self.height as int, d);
            lemma_mul_is_commutative(d, x * self.height);
            lemma_mod_multiples_vanish(x * self.height, rest, d);
        }
    }

    /// Where width and depth agree, a voxel's place is also
    /// `x * (width * height) + y * width + z`.
    pub proof fn lemma_index_of_square_base(self, x: int, y: int, z: int)
        requires
            self.width == self.depth,
        ensures
            self.index_of(x, y, z) == x * (self.width * self.height) + y * self.width + z,
    {
        lemma_mul_is_commutative(self.width as int, self.height as int);
    }
}

impl Default for ChunkDimensions {
    /// Sixteen voxels on every axis.
    fn default() -> (dims: ChunkDimensions)
        ensures
            dims == (ChunkDimensions { width: 16, height: 16, depth: 16 }),
            dims.valid(),
    {
        let dims = ChunkDimensions { width: 16, height: 16, depth: 16 };
        assert(16 * 16 * 16 == 4096);
        assert(dims.volume() == 4096);
        dims
    }
}

impl ChunkTranslation {
    /// The chunk that holds the voxel at `pos`: the floor of `pos / dimension`
    /// on each axis.
    pub open spec fn containing(pos: BlockPos, dims: ChunkDimensions) -> ChunkTranslation {
        ChunkTranslation {
            x: (pos.x as int / dims.width as int) as isize,
            y: (pos.y as int / dims.height as int) as isize,
            z: (pos.z as int / dims.depth as int) as isize,
        }
    }

    /// Whether the voxel at `pos` lies inside this chunk.
    pub open spec fn covers(self, pos: BlockPos, dims: ChunkDimensions) -> bool {
        &&& self.x * dims.width <= pos.x < self.x * dims.width + dims.width
        &&& self.y * dims.height <= pos.y < self.y * dims.height + dims.height
        &&& self.z * dims.depth <= pos.z < self.z * dims.depth + dims.depth
    }

    /// Centre of this chunk in space, in block half-sizes:
    /// `(2 * coordinate + 1) * dimension` on each axis.
    pub open spec fn centre(self, dims: ChunkDimensions) -> WorldPoint {
        WorldPoint {
            x: ((2 * self.x + 1) * dims.width) as i128,
            y: ((2 * self.y + 1) * dims.height) as i128,
            z: ((2 * self.z + 1) * dims.depth) as i128,
        }
    }

    /// Converts the world position of a voxel to the grid coordinate of its
    /// chunk. Division rounds toward negative infinity.
    pub fn get_chunk_translation(global_point: BlockPos, dimensions: ChunkDimensions) -> (t:
        ChunkTranslation)
        requires
            dimensions.valid(),
        ensures
            t == ChunkTranslation::containing(global_point, dimensions),
            t.covers(global_point, dimensions),
    {
        proof {
            lemma_axis_fits(dimensions);
            lemma_chunk_round_trip(global_point, dimensions);
        }
        ChunkTranslation {
            x: floor_div(global_point.x, dimensions.width),
            y: floor_div(global_point.y, dimensions.height),
            z: floor_div(global_point.z, dimensions.depth),
        }
    }

    /// World position of this chunk's centre, in block half-sizes.
    pub fn origin(&self, dimensions: ChunkDimensions) -> (p: WorldPoint)
        requires
            dimensions.valid(),
        ensures
            p == self.centre(dimensions),
            p.x == (2 * self.x + 1) * dimensions.width,
            p.y == (2 * self.y + 1) * dimensions.height,
            p.z == (2 * self.z + 1) * dimensions.depth,
    {
        proof {
            lemma_axis_fits(dimensions);
        }
        WorldPoint {
            x: axis_centre(self.x, dimensions.width),
            y: axis_centre(self.y, dimensions.height),
            z: axis_centre(self.z, dimensions.depth),
        }
    }
}

/// The voxels of one chunk, its grid coordinate, and the block ids that its
/// voxels may hold, each listed once.
#[derive(Clone, Debug)]
pub struct Chunk {
    pub block_data: Vec<Option<BlockId>>,
    pub translation: ChunkTranslation,
    pub unique_blocks: Vec<BlockId>,
}

/// What a voxel holds, as a value: `None` for air, else the id's characters.
pub open spec fn voxel_view(voxel: Option<BlockId>) -> Option<Seq<char>> {
    match voxel {
        Some(id) => Some(id@),
        None => None,
    }
}

/// The list `ids` with `voxel`'s id added at the end unless the voxel is air
/// or the id is listed already.
pub open spec fn with_listed(ids: Seq<Seq<char>>, voxel: Option<Seq<char>>) -> Seq<Seq<char>> {
    match voxel {
        Some(id) => if ids.contains(id) {
            ids
        } else {
            ids.push(id)
        },
        None => ids,
    }
}

impl Chunk {
    /// The voxel array as values, in array order.
    pub open spec fn blocks(&self) -> Seq<Option<Seq<char>>> {
        self.block_data@.map_values(|v: Option<BlockId>| voxel_view(v))
    }

    /// The listed block ids as values, in list order.
    pub open spec fn unique(&self) -> Seq<Seq<char>> {
        self.unique_blocks@.map_values(|id: BlockId| id@)
    }

    /// The array has one entry per voxel, no id is listed twice, and the id of
    /// every voxel that is not air is listed.
    pub open spec fn wf(&self, dims: ChunkDimensions) -> bool {
        &&& self.blocks().len() == dims.volume()
        &&& self.unique().no_duplicates()
        &&& forall|i: int|
            0 <= i < self.blocks().len() && self.blocks()[i].is_some() ==> self.unique().contains(
                #[trigger] self.blocks()[i].unwrap(),
            )
    }

    /// Offset of the voxel at `pos` inside the chunk that holds it.
    pub open spec fn local_offset(pos: BlockPos, dims: ChunkDimensions) -> LocalPos {
        LocalPos {
            x: (pos.x as int % dims.width as int) as usize,
            y: (pos.y as int % dims.height as int) as usize,
            z: (pos.z as int % dims.depth as int) as usize,
        }
    }

    /// Array place of the voxel at `pos` inside the chunk that holds it.
    pub open spec fn local_index(pos: BlockPos, dims: ChunkDimensions) -> int {
        let l = Chunk::local_offset(pos, dims);
        dims.index_of(l.x as int, l.y as int, l.z as int)
    }

    /// Offset of the voxel at world position `pos` from the first voxel of the
    /// chunk at `translation`, which must be the chunk that holds it.
    pub fn get_local_block_pos(
        pos: BlockPos,
        translation: ChunkTranslation,
        dimensions: ChunkDimensions,
    ) -> (local: LocalPos)
        requires
            dimensions.valid(),
            translation.covers(pos, dimensions),
        ensures
            local == Chunk::local_offset(pos, dimensions),
            local.x == pos.x - translation.x * dimensions.width,
            local.y == pos.y - translation.y * dimensions.height,
            local.z == pos.z - translation.z * dimensions.depth,
            dimensions.contains(local.x as int, local.y as int, local.z as int),
    {
        proof {
            lemma_axis_fits(dimensions);
            lemma_covering_chunk_is_unique(translation, pos, dimensions);
            lemma_chunk_round_trip(pos, dimensions);
        }
        LocalPos {
            x: floor_rem(pos.x, dimensions.width),
            y: floor_rem(pos.y, dimensions.height),
            z: floor_rem(pos.z, dimensions.depth),
        }
    }

    /// Writes `block_id` into the voxel at world position `pos`, which must lie
    /// in this chunk, and returns what the voxel held before. The id is added
    /// to the listed ids if it is new.
    pub fn set_block_at(
        &mut self,
        pos: BlockPos,
        block_id: Option<BlockId>,
        dimensions: ChunkDimensions,
    ) -> (previous: Option<BlockId>)
        requires
            dimensions.valid(),
            old(self).wf(dimensions),
            old(self).translation.covers(pos, dimensions),
        ensures
            final(self).wf(dimensions),
            final(self).translation == old(self).translation,
            0 <= Chunk::local_index(pos, dimensions) < dimensions.volume(),
            voxel_view(previous) == old(self).blocks()[Chunk::local_index(pos, dimensions)],
            final(self).blocks() == old(self).blocks().update(
                Chunk::local_index(pos, dimensions),
                voxel_view(block_id),
            ),
            final(self).unique() == with_listed(old(self).unique(), voxel_view(block_id)),
    {
        let local = Chunk::get_local_block_pos(pos, self.translation, dimensions);
        let index = dimensions.index(local);
        match &block_id {
            Some(id) => {
                if !contains_id(&self.unique_blocks, id) {
                    self.unique_blocks.push(id.clone_id());
                    proof {
                        lemma_push_keeps_no_duplicates(old(self).unique(), id@);
                        assert(self.unique() =~= old(self).unique().push(id@));
                    }
                }
            },
            None => {},
        }
        assert(self.unique() == with_listed(old(self).unique(), voxel_view(block_id)));
        let ghost listed = self.unique();
        let mut slot = block_id;
        let ghost written = voxel_view(slot);
        std::mem::swap(&mut self.block_data[index], &mut slot);
        proof {
            assert(self.blocks() =~= old(self).blocks().update(index as int, written));
            assert(self.unique() == listed);
            assert forall|i: int|
                0 <= i < self.blocks().len() && self.blocks()[i].is_some()
                implies self.unique().contains(#[trigger] self.blocks()[i].unwrap()) by {
                if i == index as int {
                    assert(with_listed(old(self).unique(), written).contains(written.unwrap())) by {
                        lemma_with_listed_contains(old(self).unique(), written);
                    }
                } else {
                    assert(old(self).blocks()[i] == self.blocks()[i]);
                    lemma_with_listed_keeps(
                        old(self).unique(),
                        written,
                        old(self).blocks()[i].unwrap(),
                    );
                }
            }
        }
        slot
    }

    /// What the voxel at world position `pos`, which must lie in this chunk,
    /// holds.
    pub fn get_block_at(&self, pos: BlockPos, dimensions: ChunkDimensions) -> (block: Option<
        BlockId,
    >)
        requires
            dimensions.valid(),
            self.wf(dimensions),
            self.translation.covers(pos, dimensions),
        ensures
            0 <= Chunk::local_index(pos, dimensions) < dimensions.volume(),
            voxel_view(block) == self.blocks()[Chunk::local_index(pos, dimensions)],
    {
        let local = Chunk::get_local_block_pos(pos, self.translation, dimensions);
        let index = dimensions.index(local);
        clone_voxel(&self.block_data[index])
    }
}

/// A copy of what a voxel holds.
pub fn clone_voxel(voxel: &Option<BlockId>) -> (copy: Option<BlockId>)
    ensures
        voxel_view(copy) == voxel_view(*voxel),
{
    match voxel {
        Some(id) => Some(id.clone_id()),
        None => None,
    }
}

/// Whether `id` is one of `ids`.
pub fn contains_id(ids: &Vec<BlockId>, id: &BlockId) -> (found: bool)
    ensures
        found == ids@.map_values(|b: BlockId| b@).contains(id@),
{
    let ghost names = ids@.map_values(|b: BlockId| b@);
    let mut i: usize = 0;
    while i < ids.len()
        invariant
            i <= ids.len(),
            names == ids@.map_values(|b: BlockId| b@),
            forall|j: int| 0 <= j < i ==> names[j] != id@,
        decreases ids.len() - i,
    {
        if ids[i].same_as(id) {
            assert(names[i as int] == id@);
            return true;
        }
        i += 1;
    }
    false
}

/// Adding an entry that is not listed keeps a list free of duplicates.
pub proof fn lemma_push_keeps_no_duplicates(ids: Seq<Seq<char>>, id: Seq<char>)
    requires
        ids.no_duplicates(),
        !ids.contains(id),
    ensures
        ids.push(id).no_duplicates(),
{
    let longer = ids.push(id);
    assert forall|i: int, j: int|
        0 <= i < longer.len() && 0 <= j < longer.len() && i != j implies longer[i] != longer[j] by {
        if i < ids.len() && j < ids.len() {
        } else if i < ids.len() {
            assert(ids.contains(ids[i]));
        } else {
            assert(ids.contains(ids[j]));
        }
    }
}

/// After listing a voxel's id the list holds it.
pub proof fn lemma_with_listed_contains(ids: Seq<Seq<char>>, voxel: Option<Seq<char>>)
    requires
        voxel.is_some(),
    ensures
        with_listed(ids, voxel).contains(voxel.unwrap()),
{
    let id = voxel.unwrap();
    if !ids.contains(id) {
        assert(ids.push(id)[ids.len() as int] == id);
    }
}

/// Listing a voxel's id keeps every id that was listed.
pub proof fn lemma_with_listed_keeps(
    ids: Seq<Seq<char>>,
    voxel: Option<Seq<char>>,
    other: Seq<char>,
)
    requires
        ids.contains(other),
    ensures
        with_listed(ids, voxel).contains(other),
{
    let k = choose|k: int| 0 <= k < ids.len() && ids[k] == other;
    if voxel.is_some() && !ids.contains(voxel.unwrap()) {
        assert(ids.push(voxel.unwrap())[k] == other);
    }
}

/// Floor of `a / b` for a positive divisor.
fn floor_div(a: isize, b: usize) -> (q: isize)
    requires
        0 < b <= isize::MAX,
    ensures
        q == a as int / b as int,
{
    proof {
        lemma_floor_div_bounds(a as int, b as int);
    }
    match a.checked_div_euclid(b as isize) {
        Some(q) => q,
        None => 0,
    }
}

/// Remainder of the floor division of `a` by a positive divisor.
fn floor_rem(a: isize, b: usize) -> (r: usize)
    requires
        0 < b <= isize::MAX,
    ensures
        r == a as int % b as int,
        r < b,
{
    proof {
        lemma_mod_bound(a as int, b as int);
    }
    match a.checked_rem_euclid(b as isize) {
        Some(r) => r as usize,
        None => 0,
    }
}

/// `(2 * t + 1) * dim`, which always fits in 128 bits.
fn axis_centre(t: isize, dim: usize) -> (c: i128)
    requires
        dim <= isize::MAX,
    ensures
        c == (2 * t + 1) * dim,
{
    let twice: i128 = 2 * (t as i128) + 1;
    let d: i128 = dim as i128;
    assert(-0x7fff_ffff_ffff_ffff_ffff_ffff_ffff_ffff <= twice * d
        <= 0x7fff_ffff_ffff_ffff_ffff_ffff_ffff_ffff) by (nonlinear_arith)
        requires
            -0x1_0000_0000_0000_0000 <= twice <= 0x1_0000_0000_0000_0000,
            0 <= d <= 0x7fff_ffff_ffff_ffff,
    ;
    twice * d
}

/// Each axis of a storable chunk is no longer than its volume.
pub proof fn lemma_axis_fits(dims: ChunkDimensions)
    requires
        dims.valid(),
    ensures
        dims.width <= dims.volume(),
        dims.height <= dims.volume(),
        dims.depth <= dims.volume(),
{
    let w = dims.width as int;
    let h = dims.height as int;
    let d = dims.depth as int;
    assert(w <= w * h * d && h <= w * h * d && d <= w * h * d) by (nonlinear_arith)
        requires
            w > 0,
            h > 0,
            d > 0,
    ;
}

/// The floor of a quotient by a positive divisor lies between the dividend
/// and zero.
pub proof fn lemma_floor_div_bounds(a: int, b: int)
    requires
        b > 0,
    ensures
        a >= 0 ==> 0 <= a / b <= a,
        a < 0 ==> a <= a / b < 0,
{
    lemma_fundamental_div_mod(a, b);
    lemma_mod_bound(a, b);
    let q = a / b;
    let r = a % b;
    assert(a >= 0 ==> 0 <= q <= a) by (nonlinear_arith)
        requires
            a == b * q + r,
            0 <= r < b,
            b > 0,
    ;
    assert(a < 0 ==> a <= q < 0) by (nonlinear_arith)
        requires
            a == b * q + r,
            0 <= r < b,
            b > 0,
    ;
}

/// Splitting a world position into chunk coordinate and local offset loses
/// nothing: on each axis `chunk * dimension + offset` is the position again,
/// the offset lies in `0 .. dimension`, and the chunk covers the position.
/// This holds for negative positions too.
pub proof fn lemma_chunk_round_trip(pos: BlockPos, dims: ChunkDimensions)
    requires
        dims.valid(),
    ensures
        ({
            let t = ChunkTranslation::containing(pos, dims);
            let l = Chunk::local_offset(pos, dims);
            &&& t.x * dims.width + l.x == pos.x
            &&& t.y * dims.height + l.y == pos.y
            &&& t.z * dims.depth + l.z == pos.z
            &&& dims.contains(l.x as int, l.y as int, l.z as int)
            &&& t.covers(pos, dims)
        }),
{
    lemma_axis_fits(dims);
    lemma_axis_round_trip(pos.x as int, dims.width as int);
    lemma_axis_round_trip(pos.y as int, dims.height as int);
    lemma_axis_round_trip(pos.z as int, dims.depth as int);
}

/// One axis of the round trip.
pub proof fn lemma_axis_round_trip(a: int, b: int)
    requires
        0 < b <= isize::MAX,
        isize::MIN <= a <= isize::MAX,
    ensures
        isize::MIN <= a / b <= isize::MAX,
        0 <= a % b < b,
        (a / b) * b + a % b == a,
{
    lemma_floor_div_bounds(a, b);
    lemma_fundamental_div_mod(a, b);
    lemma_mod_bound(a, b);
    lemma_mul_is_commutative(a / b, b);
}

/// A voxel lies in exactly one chunk: a chunk covers it only if it is the
/// chunk found by floor division.
pub proof fn lemma_covering_chunk_is_unique(
    t: ChunkTranslation,
    pos: BlockPos,
    dims: ChunkDimensions,
)
    requires
        dims.valid(),
        t.covers(pos, dims),
    ensures
        t == ChunkTranslation::containing(pos, dims),
{
    lemma_axis_fits(dims);
    lemma_axis_covering(t.x as int, pos.x as int, dims.width as int);
    lemma_axis_covering(t.y as int, pos.y as int, dims.height as int);
    lemma_axis_covering(t.z as int, pos.z as int, dims.depth as int);
}

/// One axis of the uniqueness of the covering chunk.
pub proof fn lemma_axis_covering(t: int, a: int, b: int)
    requires
        b > 0,
        t * b <= a < t * b + b,
    ensures
        a / b == t,
        a % b == a - t * b,
{
    lemma_mul_is_commutative(t, b);
    lemma_fundamental_div_mod_converse(a, b, t, a - t * b);
}

/// A product of a non-negative number with a positive one is no smaller than
/// the first.
pub proof fn lemma_product_grows(a: int, b: int)
    requires
        0 <= a,
        0 < b,
    ensures
        a <= a * b,
{
    lemma_mul_inequality(1, b, a);
    lemma_mul_is_commutative(a, b);
}

} // verus!
