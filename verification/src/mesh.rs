//! Surface geometry of one chunk: one quad for every voxel face that can be
//! seen.
//!
//! Lengths are measured in block half-sizes, so a voxel edge is two units
//! long, and texture coordinates are atlas pixels. A voxel `(x, y, z)` of a
//! chunk lies at `(x - width / 2, y - height / 2, z - depth / 2)` voxels from
//! the chunk's centre.

use vstd::prelude::*;
use crate::block::{AtlasRect, AtlasSize, BlockId, BlockMesh, Opacity};
use crate::catalog::{resolved, BlockCatalog};
use crate::chunk::{lemma_axis_fits, Chunk, ChunkDimensions, LocalPos};

verus! {

/// One side of a voxel. `Front` looks along `+z`, `Back` along `-z`, `Right`
/// along `+x`, `Left` along `-x`, `Top` along `+y` and `Bottom` along `-y`.
#[derive(Clone, Copy, Debug, PartialEq, Eq, Structural)]
pub enum Face {
    Front,
    Back,
    Right,
    Left,
    Top,
    Bottom,
}

/// A corner of a quad.
#[derive(Clone, Copy, Debug, PartialEq, Eq)]
pub struct Vertex {
    /// Place relative to the chunk's centre, in block half-sizes.
    pub position: (i64, i64, i64),
    /// Unit vector that points away from the voxel.
    pub normal: (i8, i8, i8),
    /// Place in the atlas image, in pixels.
    pub uv: (u32, u32),
}

impl Face {
    /// Unit vector that points out of the voxel through this face.
    pub open spec fn normal(self) -> (i8, i8, i8) {
        match self {
            Face::Front => (0i8, 0i8, 1i8),
            Face::Back => (0i8, 0i8, -1i8),
            Face::Right => (1i8, 0i8, 0i8),
            Face::Left => (-1i8, 0i8, 0i8),
            Face::Top => (0i8, 1i8, 0i8),
            Face::Bottom => (0i8, -1i8, 0i8),
        }
    }
}

/// The four corners of a voxel's face in their fixed order, which winds
/// counter-clockwise when the face is seen from outside. `pos` is the voxel's
/// corner with the smallest coordinates and `uv` the texture's place in the
/// atlas.
pub open spec fn face_vertices(face: Face, pos: (i64, i64, i64), uv: AtlasRect) -> Seq<Vertex> {
    let (x0, y0, z0) = pos;
    let x1 = (x0 + 2) as i64;
    let y1 = (y0 + 2) as i64;
    let z1 = (z0 + 2) as i64;
    let n = face.normal();
    let lb = (uv.min_x, uv.min_y);
    let rb = (uv.max_x, uv.min_y);
    let lt = (uv.min_x, uv.max_y);
    let rt = (uv.max_x, uv.max_y);
    match face {
        Face::Front => seq![
            Vertex { position: (x0, y0, z1), normal: n, uv: lb },
            Vertex { position: (x1, y0, z1), normal: n, uv: rb },
            Vertex { position: (x1, y1, z1), normal: n, uv: rt },
            Vertex { position: (x0, y1, z1), normal: n, uv: lt },
        ],
        Face::Back => seq![
            Vertex { position: (x0, y1, z0), normal: n, uv: lt },
            Vertex { position: (x1, y1, z0), normal: n, uv: rt },
            Vertex { position: (x1, y0, z0), normal: n, uv: rb },
            Vertex { position: (x0, y0, z0), normal: n, uv: lb },
        ],
        Face::Right => seq![
            Vertex { position: (x1, y0, z0), normal: n, uv: lb },
            Vertex { position: (x1, y1, z0), normal: n, uv: lt },
            Vertex { position: (x1, y1, z1), normal: n, uv: rt },
            Vertex { position: (x1, y0, z1), normal: n, uv: rb },
        ],
        Face::Left => seq![
            Vertex { position: (x0, y0, z1), normal: n, uv: lb },
            Vertex { position: (x0, y1, z1), normal: n, uv: lt },
            Vertex { position: (x0, y1, z0), normal: n, uv: rt },
            Vertex { position: (x0, y0, z0), normal: n, uv: rb },
        ],
        Face::Top => seq![
            Vertex { position: (x1, y1, z0), normal: n, uv: rb },
            Vertex { position: (x0, y1, z0), normal: n, uv: lb },
            Vertex { position: (x0, y1, z1), normal: n, uv: lt },
            Vertex { position: (x1, y1, z1), normal: n, uv: rt },
        ],
        Face::Bottom => seq![
            Vertex { position: (x1, y0, z1), normal: n, uv: rb },
            Vertex { position: (x0, y0, z1), normal: n, uv: lb },
            Vertex { position: (x0, y0, z0), normal: n, uv: lt },
            Vertex { position: (x1, y0, z0), normal: n, uv: rt },
        ],
    }
}

/// What the fixed vertex order amounts to: every corner of a face carries the
/// face's normal, lies on the side of the voxel that the normal points to,
/// is a corner of the voxel, and shows a corner of the texture.
pub proof fn lemma_face_vertices_lie_on_face(
    face: Face,
    pos: (i64, i64, i64),
    uv: AtlasRect,
    k: int,
)
    requires
        pos.0 <= i64::MAX - 2,
        pos.1 <= i64::MAX - 2,
        pos.2 <= i64::MAX - 2,
        0 <= k < 4,
    ensures
        face_vertices(face, pos, uv).len() == 4,
        ({
            let v = face_vertices(face, pos, uv)[k];
            let n = face.normal();
            &&& v.normal == n
            &&& v.position.0 == pos.0 || v.position.0 == pos.0 + 2
            &&& v.position.1 == pos.1 || v.position.1 == pos.1 + 2
            &&& v.position.2 == pos.2 || v.position.2 == pos.2 + 2
            &&& n.0 != 0 ==> v.position.0 == pos.0 + 1 + n.0
            &&& n.1 != 0 ==> v.position.1 == pos.1 + 1 + n.1
            &&& n.2 != 0 ==> v.position.2 == pos.2 + 1 + n.2
            &&& v.uv.0 == uv.min_x || v.uv.0 == uv.max_x
            &&& v.uv.1 == uv.min_y || v.uv.1 == uv.max_y
        }),
{
}

/// Every face winds outward: seen from outside the voxel its corners run
/// counter-clockwise, so the cross product of the first triangle's edges
/// points along the face's normal.
pub proof fn lemma_faces_wind_outward(face: Face, pos: (i64, i64, i64), uv: AtlasRect)
    requires
        pos.0 <= i64::MAX - 2,
        pos.1 <= i64::MAX - 2,
        pos.2 <= i64::MAX - 2,
    ensures
        ({
            let q = face_vertices(face, pos, uv);
            let a = q[0].position;
            let u = (q[1].position.0 - a.0, q[1].position.1 - a.1, q[1].position.2 - a.2);
            let v = (q[2].position.0 - a.0, q[2].position.1 - a.1, q[2].position.2 - a.2);
            let n = face.normal();
            &&& u.1 * v.2 - u.2 * v.1 == 4 * n.0
            &&& u.2 * v.0 - u.0 * v.2 == 4 * n.1
            &&& u.0 * v.1 - u.1 * v.0 == 4 * n.2
        }),
{
    let q = face_vertices(face, pos, uv);
    let a = q[0].position;
    let u0 = q[1].position.0 - a.0;
    let u1 = q[1].position.1 - a.1;
    let u2 = q[1].position.2 - a.2;
    let v0 = q[2].position.0 - a.0;
    let v1 = q[2].position.1 - a.1;
    let v2 = q[2].position.2 - a.2;
    match face {
        Face::Front => {
            assert(u0 == 2 && u1 == 0 && u2 == 0);
            assert(v0 == 2 && v1 == 2 && v2 == 0);
            assert(u1 * v2 == 0) by (nonlinear_arith)
                requires
                    u1 == 0,
                    v2 == 0,
            ;
            assert(u2 * v1 == 0) by (nonlinear_arith)
                requires
                    u2 == 0,
                    v1 == 2,
            ;
            assert(u2 * v0 == 0) by (nonlinear_arith)
                requires
                    u2 == 0,
                    v0 == 2,
            ;
            assert(u0 * v2 == 0) by (nonlinear_arith)
                requires
                    u0 == 2,
                    v2 == 0,
            ;
            assert(u0 * v1 == 4) by (nonlinear_arith)
                requires
                    u0 == 2,
                    v1 == 2,
            ;
            assert(u1 * v0 == 0) by (nonlinear_arith)
                requires
                    u1 == 0,
                    v0 == 2,
            ;
        },
        Face::Back => {
            assert(u0 == 2 && u1 == 0 && u2 == 0);
            assert(v0 == 2 && v1 == -2 && v2 == 0);
            assert(u1 * v2 == 0) by (nonlinear_arith)
                requires
                    u1 == 0,
                    v2 == 0,
            ;
            assert(u2 * v1 == 0) by (nonlinear_arith)
                requires
                    u2 == 0,
                    v1 == -2,
            ;
            assert(u2 * v0 == 0) by (nonlinear_arith)
                requires
                    u2 == 0,
                    v0 == 2,
            ;
            assert(u0 * v2 == 0) by (nonlinear_arith)
                requires
                    u0 == 2,
                    v2 == 0,
            ;
            assert(u0 * v1 == -4) by (nonlinear_arith)
                requires
                    u0 == 2,
                    v1 == -2,
            ;
            assert(u1 * v0 == 0) by (nonlinear_arith)
                requires
                    u1 == 0,
                    v0 == 2,
            ;
        },
        Face::Right => {
            assert(u0 == 0 && u1 == 2 && u2 == 0);
            assert(v0 == 0 && v1 == 2 && v2 == 2);
            assert(u1 * v2 == 4) by (nonlinear_arith)
                requires
                    u1 == 2,
                    v2 == 2,
            ;
            assert(u2 * v1 == 0) by (nonlinear_arith)
                requires
                    u2 == 0,
                    v1 == 2,
            ;
            assert(u2 * v0 == 0) by (nonlinear_arith)
                requires
                    u2 == 0,
                    v0 == 0,
            ;
            assert(u0 * v2 == 0) by (nonlinear_arith)
                requires
                    u0 == 0,
                    v2 == 2,
            ;
            assert(u0 * v1 == 0) by (nonlinear_arith)
                requires
                    u0 == 0,
                    v1 == 2,
            ;
            assert(u1 * v0 == 0) by (nonlinear_arith)
                requires
                    u1 == 2,
                    v0 == 0,
            ;
        },
        Face::Left => {
            assert(u0 == 0 && u1 == 2 && u2 == 0);
            assert(v0 == 0 && v1 == 2 && v2 == -2);
            assert(u1 * v2 == -4) by (nonlinear_arith)
                requires
                    u1 == 2,
                    v2 == -2,
            ;
            assert(u2 * v1 == 0) by (nonlinear_arith)
                requires
                    u2 == 0,
                    v1 == 2,
            ;
            assert(u2 * v0 == 0) by (nonlinear_arith)
                requires
                    u2 == 0,
                    v0 == 0,
            ;
            assert(u0 * v2 == 0) by (nonlinear_arith)
                requires
                    u0 == 0,
                    v2 == -2,
            ;
            assert(u0 * v1 == 0) by (nonlinear_arith)
                requires
                    u0 == 0,
                    v1 == 2,
            ;
            assert(u1 * v0 == 0) by (nonlinear_arith)
                requires
                    u1 == 2,
                    v0 == 0,
            ;
        },
        Face::Top => {
            assert(u0 == -2 && u1 == 0 && u2 == 0);
            assert(v0 == -2 && v1 == 0 && v2 == 2);
            assert(u1 * v2 == 0) by (nonlinear_arith)
                requires
                    u1 == 0,
                    v2 == 2,
            ;
            assert(u2 * v1 == 0) by (nonlinear_arith)
                requires
                    u2 == 0,
                    v1 == 0,
            ;
            assert(u2 * v0 == 0) by (nonlinear_arith)
                requires
                    u2 == 0,
                    v0 == -2,
            ;
            assert(u0 * v2 == -4) by (nonlinear_arith)
                requires
                    u0 == -2,
                    v2 == 2,
            ;
            assert(u0 * v1 == 0) by (nonlinear_arith)
                requires
                    u0 == -2,
                    v1 == 0,
            ;
            assert(u1 * v0 == 0) by (nonlinear_arith)
                requires
                    u1 == 0,
                    v0 == -2,
            ;
        },
        Face::Bottom => {
            assert(u0 == -2 && u1 == 0 && u2 == 0);
            assert(v0 == -2 && v1 == 0 && v2 == -2);
            assert(u1 * v2 == 0) by (nonlinear_arith)
                requires
                    u1 == 0,
                    v2 == -2,
            ;
            assert(u2 * v1 == 0) by (nonlinear_arith)
                requires
                    u2 == 0,
                    v1 == 0,
            ;
            assert(u2 * v0 == 0) by (nonlinear_arith)
                requires
                    u2 == 0,
                    v0 == -2,
            ;
            assert(u0 * v2 == 4) by (nonlinear_arith)
                requires
                    u0 == -2,
                    v2 == -2,
            ;
            assert(u0 * v1 == 0) by (nonlinear_arith)
                requires
                    u0 == -2,
                    v1 == 0,
            ;
            assert(u1 * v0 == 0) by (nonlinear_arith)
                requires
                    u1 == 0,
                    v0 == -2,
            ;
        },
    }
}

/// Builds the four corners of one face of the voxel whose smallest corner is
/// `pos`.
pub fn get_face_mesh(face: Face, pos: (i64, i64, i64), uv: AtlasRect) -> (quad: [Vertex; 4])
    requires
        pos.0 <= i64::MAX - 2,
        pos.1 <= i64::MAX - 2,
        pos.2 <= i64::MAX - 2,
    ensures
        quad@ == face_vertices(face, pos, uv),
{
    let (x0, y0, z0) = pos;
    let x1: i64 = x0 + 2;
    let y1: i64 = y0 + 2;
    let z1: i64 = z0 + 2;
    let lb = (uv.min_x, uv.min_y);
    let rb = (uv.max_x, uv.min_y);
    let lt = (uv.min_x, uv.max_y);
    let rt = (uv.max_x, uv.max_y);
    let quad = match face {
        Face::Front => {
            let n = (0i8, 0i8, 1i8);
            [
                Vertex { position: (x0, y0, z1), normal: n, uv: lb },
                Vertex { position: (x1, y0, z1), normal: n, uv: rb },
                Vertex { position: (x1, y1, z1), normal: n, uv: rt },
                Vertex { position: (x0, y1, z1), normal: n, uv: lt },
            ]
        },
        Face::Back => {
            let n = (0i8, 0i8, -1i8);
            [
                Vertex { position: (x0, y1, z0), normal: n, uv: lt },
                Vertex { position: (x1, y1, z0), normal: n, uv: rt },
                Vertex { position: (x1, y0, z0), normal: n, uv: rb },
                Vertex { position: (x0, y0, z0), normal: n, uv: lb },
            ]
        },
        Face::Right => {
            let n = (1i8, 0i8, 0i8);
            [
                Vertex { position: (x1, y0, z0), normal: n, uv: lb },
                Vertex { position: (x1, y1, z0), normal: n, uv: lt },
                Vertex { position: (x1, y1, z1), normal: n, uv: rt },
                Vertex { position: (x1, y0, z1), normal: n, uv: rb },
            ]
        },
        Face::Left => {
            let n = (-1i8, 0i8, 0i8);
            [
                Vertex { position: (x0, y0, z1), normal: n, uv: lb },
                Vertex { position: (x0, y1, z1), normal: n, uv: lt },
                Vertex { position: (x0, y1, z0), normal: n, uv: rt },
                Vertex { position: (x0, y0, z0), normal: n, uv: rb },
            ]
        },
        Face::Top => {
            let n = (0i8, 1i8, 0i8);
            [
                Vertex { position: (x1, y1, z0), normal: n, uv: rb },
                Vertex { position: (x0, y1, z0), normal: n, uv: lb },
                Vertex { position: (x0, y1, z1), normal: n, uv: lt },
                Vertex { position: (x1, y1, z1), normal: n, uv: rt },
            ]
        },
        Face::Bottom => {
            let n = (0i8, -1i8, 0i8);
            [
                Vertex { position: (x1, y0, z1), normal: n, uv: rb },
                Vertex { position: (x0, y0, z1), normal: n, uv: lb },
                Vertex { position: (x0, y0, z0), normal: n, uv: lt },
                Vertex { position: (x1, y0, z0), normal: n, uv: rt },
            ]
        },
    };
    assert(quad@ =~= face_vertices(face, pos, uv));
    quad
}

/// The voxels of a chunk with what the catalog knows of each, ready for
/// meshing. A voxel is `None` if it is air or if its block is not in the
/// catalog; such a voxel gets no faces and hides none.
#[derive(Clone, Debug)]
pub struct ChunkMesh {
    pub block_data: Vec<Option<BlockMesh>>,
    pub atlas_size: AtlasSize,
    pub dimensions: ChunkDimensions,
}

/// Vertices and triangles of a chunk's surface. Three consecutive indices
/// make one triangle.
#[derive(Clone, Debug)]
pub struct MeshDescriptor {
    pub vertices: Vec<Vertex>,
    pub indices: Vec<u32>,
    /// Size of the atlas that the vertices' pixel coordinates refer to.
    pub atlas_size: AtlasSize,
}

/// The six faces in the order in which a voxel's quads are emitted.
pub open spec fn face_order() -> Seq<Face> {
    seq![Face::Back, Face::Front, Face::Left, Face::Right, Face::Bottom, Face::Top]
}

/// The voxel that `face` of the voxel `(x, y, z)` looks at.
pub open spec fn neighbour(face: Face, x: int, y: int, z: int) -> (int, int, int) {
    match face {
        Face::Front => (x, y, z + 1),
        Face::Back => (x, y, z - 1),
        Face::Right => (x + 1, y, z),
        Face::Left => (x - 1, y, z),
        Face::Top => (x, y + 1, z),
        Face::Bottom => (x, y - 1, z),
    }
}

/// The texture that a block shows on `face`. The face that looks along `-z`
/// shows the texture named for the front and the face that looks along `+z`
/// the one named for the back.
pub open spec fn face_texture(block: BlockMesh, face: Face) -> AtlasRect {
    match face {
        Face::Front => block.textures.back_of(),
        Face::Back => block.textures.front_of(),
        Face::Right => block.textures.right_of(),
        Face::Left => block.textures.left_of(),
        Face::Top => block.textures.top_of(),
        Face::Bottom => block.textures.bottom_of(),
    }
}

/// The indices of `quads` quads: the quad number `k` uses the vertices
/// `4k .. 4k + 3` and is cut into the triangles `(0, 1, 2)` and `(2, 3, 0)`.
pub open spec fn quad_indices(quads: nat) -> Seq<u32> {
    Seq::new(
        6 * quads,
        |j: int|
            (4 * (j / 6) + (if j % 6 == 0 || j % 6 == 5 {
                0int
            } else if j % 6 == 1 {
                1int
            } else if j % 6 == 4 {
                3int
            } else {
                2int
            })) as u32,
    )
}

/// What meshing reads of a chunk, as values: the block of every voxel in
/// array order, and the chunk's dimensions.
pub struct VoxelGrid {
    pub data: Seq<Option<BlockMesh>>,
    pub dims: ChunkDimensions,
}

impl View for ChunkMesh {
    type V = VoxelGrid;

    open spec fn view(&self) -> VoxelGrid {
        VoxelGrid { data: self.block_data@, dims: self.dimensions }
    }
}

/// The grid of a chunk with the voxel array `blocks`: each voxel with what
/// `catalog` knows of its block.
pub open spec fn resolved_grid(
    blocks: Seq<Option<Seq<char>>>,
    catalog: Map<Seq<char>, BlockMesh>,
    dims: ChunkDimensions,
) -> VoxelGrid {
    VoxelGrid { data: blocks.map_values(|v: Option<Seq<char>>| resolved(v, catalog)), dims }
}

impl VoxelGrid {
    /// There is one entry per voxel.
    pub open spec fn wf(self) -> bool {
        &&& self.dims.valid()
        &&& self.data.len() == self.dims.volume()
    }

    /// The block in the voxel `(x, y, z)`, which must lie in the chunk.
    pub open spec fn block_at(self, x: int, y: int, z: int) -> Option<BlockMesh> {
        self.data[self.dims.index_of(x, y, z)]
    }

    /// Opacity of the voxel `(x, y, z)`; a voxel without a block is fully
    /// transparent.
    pub open spec fn opacity_at(self, x: int, y: int, z: int) -> Opacity {
        match self.block_at(x, y, z) {
            Some(block) => block.opacity,
            None => Opacity::Transparent(255),
        }
    }

    /// Whether `face` of the voxel `(x, y, z)` can be seen: the voxel it looks
    /// at lies outside the chunk or is not opaque.
    pub open spec fn exposed(self, face: Face, x: int, y: int, z: int) -> bool {
        let (nx, ny, nz) = neighbour(face, x, y, z);
        !self.dims.contains(nx, ny, nz) || self.opacity_at(nx, ny, nz) != Opacity::Opaque
    }

    /// Smallest corner of the voxel `(x, y, z)`, in block half-sizes from the
    /// chunk's centre.
    pub open spec fn corner(self, x: int, y: int, z: int) -> (i64, i64, i64) {
        (
            (2 * (x - self.dims.width as int / 2)) as i64,
            (2 * (y - self.dims.height as int / 2)) as i64,
            (2 * (z - self.dims.depth as int / 2)) as i64,
        )
    }

    /// The quad of one face of the voxel stored at `index`, or nothing if the
    /// voxel has no block or the face cannot be seen.
    pub open spec fn face_quad(self, index: int, face: Face) -> Seq<Vertex> {
        let x = self.dims.x_of(index);
        let y = self.dims.y_of(index);
        let z = self.dims.z_of(index);
        match self.data[index] {
            Some(block) => if self.exposed(face, x, y, z) {
                face_vertices(face, self.corner(x, y, z), face_texture(block, face))
            } else {
                Seq::empty()
            },
            None => Seq::empty(),
        }
    }

    /// The quads of the first `faces` faces, in emission order, of the voxel
    /// stored at `index`.
    pub open spec fn voxel_quads(self, index: int, faces: nat) -> Seq<Vertex>
        decreases faces,
    {
        if faces == 0 || faces > 6 {
            Seq::empty()
        } else {
            self.voxel_quads(index, (faces - 1) as nat) + self.face_quad(
                index,
                face_order()[faces - 1],
            )
        }
    }

    /// The quads of the first `count` voxels in array order.
    pub open spec fn vertices_upto(self, count: nat) -> Seq<Vertex>
        decreases count,
    {
        if count == 0 {
            Seq::empty()
        } else {
            self.vertices_upto((count - 1) as nat) + self.voxel_quads(count - 1, 6)
        }
    }

    /// All vertices of the chunk's surface: voxel after voxel in array order,
    /// and for each voxel its visible faces in emission order.
    pub open spec fn surface(self) -> Seq<Vertex> {
        self.vertices_upto(self.dims.volume() as nat)
    }
}

impl ChunkMesh {
    /// Pairs every voxel of `chunk` with what `catalog` knows of its block.
    pub fn new(
        chunk: &Chunk,
        dimensions: ChunkDimensions,
        atlas_size: AtlasSize,
        catalog: &BlockCatalog,
    ) -> (mesh: ChunkMesh)
        requires
            dimensions.valid(),
            chunk.wf(dimensions),
        ensures
            mesh@.wf(),
            mesh.dimensions == dimensions,
            mesh.atlas_size == atlas_size,
            mesh@ == resolved_grid(chunk.blocks(), catalog@, dimensions),
    {
        let mut block_meshes: Vec<Option<BlockMesh>> = Vec::new();
        let mut j: usize = 0;
        while j < chunk.unique_blocks.len()
            invariant
                j <= chunk.unique_blocks.len(),
                block_meshes@.len() == j,
                forall|k: int|
                    0 <= k < j ==> #[trigger] block_meshes@[k] == resolved(
                        Some(chunk.unique()[k]),
                        catalog@,
                    ),
            decreases chunk.unique_blocks.len() - j,
        {
            block_meshes.push(catalog.get(&chunk.unique_blocks[j]));
            j += 1;
        }
        let mut block_data: Vec<Option<BlockMesh>> = Vec::new();
        let mut i: usize = 0;
        while i < chunk.block_data.len()
            invariant
                i <= chunk.block_data.len(),
                chunk.wf(dimensions),
                block_data@.len() == i,
                block_meshes@.len() == chunk.unique_blocks.len(),
                forall|k: int|
                    0 <= k < block_meshes@.len() ==> #[trigger] block_meshes@[k] == resolved(
                        Some(chunk.unique()[k]),
                        catalog@,
                    ),
                forall|k: int|
                    0 <= k < i ==> #[trigger] block_data@[k] == resolved(
                        chunk.blocks()[k],
                        catalog@,
                    ),
            decreases chunk.block_data.len() - i,
        {
            let entry = match &chunk.block_data[i] {
                Some(id) => {
                    assert(chunk.blocks()[i as int] == Some(id@));
                    assert(chunk.unique().contains(chunk.blocks()[i as int].unwrap()));
                    match position_of(&chunk.unique_blocks, id) {
                        Some(at) => block_meshes[at],
                        None => None,
                    }
                },
                None => None,
            };
            block_data.push(entry);
            i += 1;
        }
        let mesh = ChunkMesh { block_data, atlas_size, dimensions };
        proof {
            assert(mesh@.data =~= resolved_grid(chunk.blocks(), catalog@, dimensions).data);
        }
        mesh
    }

    /// The block in the voxel at `local`.
    pub fn get_block_at(&self, local: LocalPos) -> (block: Option<BlockMesh>)
        requires
            self@.wf(),
            self.dimensions.contains(local.x as int, local.y as int, local.z as int),
        ensures
            block == self@.block_at(local.x as int, local.y as int, local.z as int),
    {
        let index = self.dimensions.index(local);
        self.block_data[index]
    }

    /// Opacity of the voxel at `local`; a voxel without a block is fully
    /// transparent.
    pub fn get_block_opacity_at(&self, local: LocalPos) -> (opacity: Opacity)
        requires
            self@.wf(),
            self.dimensions.contains(local.x as int, local.y as int, local.z as int),
        ensures
            opacity == self@.opacity_at(local.x as int, local.y as int, local.z as int),
    {
        match self.get_block_at(local) {
            Some(block) => block.opacity,
            None => Opacity::Transparent(255),
        }
    }
}

impl ChunkMesh {
    /// Whether `face` of the voxel at `local` can be seen.
    pub fn is_exposed(&self, face: Face, local: LocalPos) -> (seen: bool)
        requires
            self@.wf(),
            self.dimensions.contains(local.x as int, local.y as int, local.z as int),
        ensures
            seen == self@.exposed(face, local.x as int, local.y as int, local.z as int),
    {
        let LocalPos { x, y, z } = local;
        match face {
            Face::Back => z == 0 || !self.get_block_opacity_at(
                LocalPos { x, y, z: z - 1 },
            ).is_opaque(),
            Face::Front => z == self.dimensions.depth - 1 || !self.get_block_opacity_at(
                LocalPos { x, y, z: z + 1 },
            ).is_opaque(),
            Face::Left => x == 0 || !self.get_block_opacity_at(
                LocalPos { x: x - 1, y, z },
            ).is_opaque(),
            Face::Right => x == self.dimensions.width - 1 || !self.get_block_opacity_at(
                LocalPos { x: x + 1, y, z },
            ).is_opaque(),
            Face::Bottom => y == 0 || !self.get_block_opacity_at(
                LocalPos { x, y: y - 1, z },
            ).is_opaque(),
            Face::Top => y == self.dimensions.height - 1 || !self.get_block_opacity_at(
                LocalPos { x, y: y + 1, z },
            ).is_opaque(),
        }
    }

    /// Smallest corner of the voxel at `local`, in block half-sizes from the
    /// chunk's centre.
    pub fn corner_of(&self, local: LocalPos) -> (corner: (i64, i64, i64))
        requires
            self@.wf(),
            self.dimensions.volume() <= u32::MAX,
            self.dimensions.contains(local.x as int, local.y as int, local.z as int),
        ensures
            corner == self@.corner(local.x as int, local.y as int, local.z as int),
            -0x2_0000_0000 <= corner.0 <= 0x2_0000_0000,
            -0x2_0000_0000 <= corner.1 <= 0x2_0000_0000,
            -0x2_0000_0000 <= corner.2 <= 0x2_0000_0000,
    {
        proof {
            lemma_axis_fits(self.dimensions);
        }
        let dims = self.dimensions;
        (
            2 * (local.x as i64 - (dims.width / 2) as i64),
            2 * (local.y as i64 - (dims.height / 2) as i64),
            2 * (local.z as i64 - (dims.depth / 2) as i64),
        )
    }

    /// Builds the chunk's surface: for every voxel that has a block, in array
    /// order, one quad for each face that can be seen, in the order back,
    /// front, left, right, bottom, top. Each quad adds four vertices and the
    /// two triangles `(0, 1, 2)` and `(2, 3, 0)` over them.
    pub fn mesh(&self) -> (out: MeshDescriptor)
        requires
            self@.wf(),
            24 * self.dimensions.volume() <= u32::MAX,
        ensures
            out.vertices@ == self@.surface(),
            out.vertices@.len() % 4 == 0,
            out.indices@ == quad_indices(out.vertices@.len() / 4),
            out.atlas_size == self.atlas_size,
    {
        let dims = self.dimensions;
        let ghost plane = dims.height * dims.depth;
        let mut indices: Vec<u32> = Vec::new();
        let mut vertices: Vec<Vertex> = Vec::new();
        let mut done: usize = 0;
        proof {
            dims.lemma_plane_fits();
            assert(indices@ =~= quad_indices(0));
        }
        let mut x: usize = 0;
        while x < dims.width
            invariant
                self@.wf(),
                dims == self.dimensions,
                plane == dims.height * dims.depth,
                24 * dims.volume() <= u32::MAX,
                x <= dims.width,
                done == x * plane,
                done <= dims.volume(),
                vertices@ == self@.vertices_upto(done as nat),
                vertices@.len() % 4 == 0,
                vertices@.len() <= 24 * done,
                indices@ == quad_indices(vertices@.len() / 4),
            decreases dims.width - x,
        {
            let mut y: usize = 0;
            while y < dims.height
                invariant
                    self@.wf(),
                    dims == self.dimensions,
                    plane == dims.height * dims.depth,
                    24 * dims.volume() <= u32::MAX,
                    x < dims.width,
                    y <= dims.height,
                    done == x * plane + y * dims.depth,
                    done <= dims.volume(),
                    vertices@ == self@.vertices_upto(done as nat),
                    vertices@.len() % 4 == 0,
                    vertices@.len() <= 24 * done,
                    indices@ == quad_indices(vertices@.len() / 4),
                decreases dims.height - y,
            {
                let mut z: usize = 0;
                while z < dims.depth
                    invariant
                        self@.wf(),
                        dims == self.dimensions,
                        plane == dims.height * dims.depth,
                        24 * dims.volume() <= u32::MAX,
                        x < dims.width,
                        y < dims.height,
                        z <= dims.depth,
                        done == x * plane + y * dims.depth + z,
                        done <= dims.volume(),
                        vertices@ == self@.vertices_upto(done as nat),
                        vertices@.len() % 4 == 0,
                        vertices@.len() <= 24 * done,
                        indices@ == quad_indices(vertices@.len() / 4),
                    decreases dims.depth - z,
                {
                    let local = LocalPos { x, y, z };
                    proof {
                        dims.lemma_index_in_range(x as int, y as int, z as int);
                        dims.lemma_index_round_trip(x as int, y as int, z as int);
                    }
                    self.push_voxel(local, &mut vertices, &mut indices);
                    done += 1;
                    z += 1;
                }
                proof {
                    assert(y * dims.depth + dims.depth == (y + 1) * dims.depth)
                        by (nonlinear_arith);
                }
                y += 1;
            }
            proof {
                assert(x * plane + plane == (x + 1) * plane) by (nonlinear_arith);
            }
            x += 1;
        }
        proof {
            dims.lemma_plane_fits();
            assert(dims.width * plane == dims.volume()) by {
                vstd::arithmetic::mul::lemma_mul_is_commutative(dims.width as int, plane);
            }
        }
        MeshDescriptor { vertices, indices, atlas_size: self.atlas_size }
    }

    /// Adds the quads of the voxel at `local` to a surface that holds the
    /// quads of all voxels before it.
    fn push_voxel(&self, local: LocalPos, vertices: &mut Vec<Vertex>, indices: &mut Vec<u32>)
        requires
            self@.wf(),
            24 * self.dimensions.volume() <= u32::MAX,
            self.dimensions.contains(local.x as int, local.y as int, local.z as int),
            old(vertices)@.len() % 4 == 0,
            old(vertices)@.len() <= 24 * self.dimensions.index_of(
                local.x as int,
                local.y as int,
                local.z as int,
            ),
            old(indices)@ == quad_indices(old(vertices)@.len() / 4),
        ensures
            final(vertices)@ == old(vertices)@ + self@.voxel_quads(
                self.dimensions.index_of(local.x as int, local.y as int, local.z as int),
                6,
            ),
            final(vertices)@.len() % 4 == 0,
            final(vertices)@.len() <= old(vertices)@.len() + 24,
            final(indices)@ == quad_indices(final(vertices)@.len() / 4),
    {
        let ghost index = self.dimensions.index_of(local.x as int, local.y as int, local.z as int);
        proof {
            self.dimensions.lemma_index_in_range(local.x as int, local.y as int, local.z as int);
            self.dimensions.lemma_index_round_trip(local.x as int, local.y as int, local.z as int);
        }
        let block = match self.get_block_at(local) {
            Some(block) => block,
            None => {
                proof {
                    self@.lemma_empty_voxel_has_no_quads(index, 6);
                    assert(vertices@ + Seq::<Vertex>::empty() =~= vertices@);
                }
                return ;
            },
        };
        let corner = self.corner_of(local);
        let order = [Face::Back, Face::Front, Face::Left, Face::Right, Face::Bottom, Face::Top];
        assert(order@ =~= face_order());
        let mut k: usize = 0;
        proof {
            assert(vertices@ + self@.voxel_quads(index, 0) =~= vertices@);
        }
        while k < 6
            invariant
                self@.wf(),
                24 * self.dimensions.volume() <= u32::MAX,
                self.dimensions.contains(local.x as int, local.y as int, local.z as int),
                index == self.dimensions.index_of(local.x as int, local.y as int, local.z as int),
                0 <= index < self.dimensions.volume(),
                self.dimensions.x_of(index) == local.x,
                self.dimensions.y_of(index) == local.y,
                self.dimensions.z_of(index) == local.z,
                self.block_data@[index] == Some(block),
                corner == self@.corner(local.x as int, local.y as int, local.z as int),
                corner.0 <= 0x2_0000_0000,
                corner.1 <= 0x2_0000_0000,
                corner.2 <= 0x2_0000_0000,
                order@ == face_order(),
                k <= 6,
                old(vertices)@.len() <= 24 * index,
                vertices@ == old(vertices)@ + self@.voxel_quads(index, k as nat),
                vertices@.len() % 4 == 0,
                vertices@.len() <= old(vertices)@.len() + 4 * k,
                indices@ == quad_indices(vertices@.len() / 4),
            decreases 6 - k,
        {
            let face = order[k];
            let ghost before = vertices@;
            if self.is_exposed(face, local) {
                let texture = match face {
                    Face::Back => *block.textures.front(),
                    Face::Front => *block.textures.back(),
                    Face::Left => *block.textures.left(),
                    Face::Right => *block.textures.right(),
                    Face::Bottom => *block.textures.bottom(),
                    Face::Top => *block.textures.top(),
                };
                let quad = get_face_mesh(face, corner, texture);
                push_quad(vertices, indices, quad);
                assert(vertices@ == before + self@.face_quad(index, face));
            } else {
                assert(before + self@.face_quad(index, face) =~= before);
            }
            proof {
                assert(self@.voxel_quads(index, (k + 1) as nat) == self@.voxel_quads(
                    index,
                    k as nat,
                ) + self@.face_quad(index, face));
                assert(vertices@ =~= old(vertices)@ + self@.voxel_quads(index, (k + 1) as nat));
            }
            k += 1;
        }
    }
}

impl VoxelGrid {
    /// A voxel without a block adds nothing to the surface.
    pub proof fn lemma_empty_voxel_has_no_quads(self, index: int, faces: nat)
        requires
            self.data[index].is_none(),
        ensures
            self.voxel_quads(index, faces) == Seq::<Vertex>::empty(),
        decreases faces,
    {
        if faces != 0 && faces <= 6 {
            self.lemma_empty_voxel_has_no_quads(index, (faces - 1) as nat);
            assert(Seq::<Vertex>::empty() + Seq::<Vertex>::empty() =~= Seq::<Vertex>::empty());
        }
    }
}

impl VoxelGrid {
    /// Voxels without a block add nothing: if none of the first `count` voxels,
    /// other than the one at `skip`, has a block, the surface of these voxels
    /// is the surface of the voxel at `skip` alone.
    pub proof fn lemma_only_blocks_add_quads(self, count: nat, skip: int)
        requires
            forall|i: int| 0 <= i < count && i != skip ==> self.data[i].is_none(),
        ensures
            self.vertices_upto(count) == (if 0 <= skip < count {
                self.voxel_quads(skip, 6)
            } else {
                Seq::<Vertex>::empty()
            }),
        decreases count,
    {
        if count > 0 {
            let last = count - 1;
            self.lemma_only_blocks_add_quads(last as nat, skip);
            if last == skip {
                assert(Seq::<Vertex>::empty() + self.voxel_quads(skip, 6) =~= self.voxel_quads(
                    skip,
                    6,
                ));
            } else {
                self.lemma_empty_voxel_has_no_quads(last, 6);
                assert(self.vertices_upto(last as nat) + Seq::<Vertex>::empty()
                    =~= self.vertices_upto(last as nat));
            }
        }
    }

    /// A chunk in which no voxel has a block has no surface: no vertex and no
    /// index.
    pub proof fn lemma_empty_chunk_has_no_surface(self)
        requires
            forall|i: int| 0 <= i < self.dims.volume() ==> self.data[i].is_none(),
        ensures
            self.surface().len() == 0,
            quad_indices(self.surface().len() / 4).len() == 0,
    {
        self.lemma_only_blocks_add_quads(self.dims.volume() as nat, -1);
    }

    /// A single block in an otherwise empty chunk shows all six faces,
    /// wherever in the chunk it lies: the surface has 24 vertices and 36
    /// indices.
    pub proof fn lemma_lone_block_has_six_quads(self, x: int, y: int, z: int)
        requires
            self.wf(),
            self.dims.contains(x, y, z),
            self.block_at(x, y, z).is_some(),
            forall|i: int|
                0 <= i < self.dims.volume() && i != self.dims.index_of(x, y, z)
                    ==> self.data[i].is_none(),
        ensures
            self.surface().len() == 24,
            quad_indices(self.surface().len() / 4).len() == 36,
    {
        let dims = self.dims;
        let index = dims.index_of(x, y, z);
        dims.lemma_index_in_range(x, y, z);
        dims.lemma_index_round_trip(x, y, z);
        self.lemma_only_blocks_add_quads(dims.volume() as nat, index);
        assert forall|k: int| 0 <= k < 6 implies self.face_quad(
            index,
            #[trigger] face_order()[k],
        ).len() == 4 by {
            let face = face_order()[k];
            let (nx, ny, nz) = neighbour(face, x, y, z);
            if dims.contains(nx, ny, nz) {
                dims.lemma_index_in_range(nx, ny, nz);
                dims.lemma_index_round_trip(nx, ny, nz);
                assert(dims.index_of(nx, ny, nz) != index);
                assert(self.data[dims.index_of(nx, ny, nz)].is_none());
            }
            assert(self.exposed(face, x, y, z));
        }
        self.lemma_voxel_quads_len(index, 6);
    }

    /// If each of the first `faces` faces of a voxel has a quad, the voxel
    /// adds four vertices for each of them.
    pub proof fn lemma_voxel_quads_len(self, index: int, faces: nat)
        requires
            faces <= 6,
            forall|k: int|
                0 <= k < faces ==> self.face_quad(index, #[trigger] face_order()[k]).len() == 4,
        ensures
            self.voxel_quads(index, faces).len() == 4 * faces,
        decreases faces,
    {
        if faces > 0 {
            self.lemma_voxel_quads_len(index, (faces - 1) as nat);
            assert(self.face_quad(index, face_order()[faces - 1]).len() == 4);
        }
    }
}

impl MeshDescriptor {
    /// The vertices' positions, in vertex order.
    pub fn positions(&self) -> (list: Vec<(i64, i64, i64)>)
        ensures
            list@ == self.vertices@.map_values(|v: Vertex| v.position),
    {
        let mut list: Vec<(i64, i64, i64)> = Vec::new();
        let mut i: usize = 0;
        while i < self.vertices.len()
            invariant
                i <= self.vertices.len(),
                list@ == self.vertices@.take(i as int).map_values(|v: Vertex| v.position),
            decreases self.vertices.len() - i,
        {
            list.push(self.vertices[i].position);
            proof {
                assert(list@ =~= self.vertices@.take(i as int + 1).map_values(
                    |v: Vertex| v.position,
                ));
            }
            i += 1;
        }
        proof {
            assert(self.vertices@.take(i as int) =~= self.vertices@);
        }
        list
    }

    /// The vertices' normals, in vertex order.
    pub fn normals(&self) -> (list: Vec<(i8, i8, i8)>)
        ensures
            list@ == self.vertices@.map_values(|v: Vertex| v.normal),
    {
        let mut list: Vec<(i8, i8, i8)> = Vec::new();
        let mut i: usize = 0;
        while i < self.vertices.len()
            invariant
                i <= self.vertices.len(),
                list@ == self.vertices@.take(i as int).map_values(|v: Vertex| v.normal),
            decreases self.vertices.len() - i,
        {
            list.push(self.vertices[i].normal);
            proof {
                assert(list@ =~= self.vertices@.take(i as int + 1).map_values(
                    |v: Vertex| v.normal,
                ));
            }
            i += 1;
        }
        proof {
            assert(self.vertices@.take(i as int) =~= self.vertices@);
        }
        list
    }

    /// The vertices' texture coordinates in atlas pixels, in vertex order.
    pub fn uvs(&self) -> (list: Vec<(u32, u32)>)
        ensures
            list@ == self.vertices@.map_values(|v: Vertex| v.uv),
    {
        let mut list: Vec<(u32, u32)> = Vec::new();
        let mut i: usize = 0;
        while i < self.vertices.len()
            invariant
                i <= self.vertices.len(),
                list@ == self.vertices@.take(i as int).map_values(|v: Vertex| v.uv),
            decreases self.vertices.len() - i,
        {
            list.push(self.vertices[i].uv);
            proof {
                assert(list@ =~= self.vertices@.take(i as int + 1).map_values(|v: Vertex| v.uv));
            }
            i += 1;
        }
        proof {
            assert(self.vertices@.take(i as int) =~= self.vertices@);
        }
        list
    }
}

/// Adds one quad to a surface: its four vertices, and the two triangles
/// `(0, 1, 2)` and `(2, 3, 0)` over them.
fn push_quad(vertices: &mut Vec<Vertex>, indices: &mut Vec<u32>, quad: [Vertex; 4])
    requires
        old(vertices)@.len() % 4 == 0,
        old(vertices)@.len() + 4 <= u32::MAX,
        old(indices)@ == quad_indices(old(vertices)@.len() / 4),
    ensures
        final(vertices)@ == old(vertices)@ + quad@,
        final(vertices)@.len() == old(vertices)@.len() + 4,
        final(indices)@ == quad_indices(final(vertices)@.len() / 4),
{
    let indice: u32 = vertices.len() as u32;
    vertices.push(quad[0]);
    vertices.push(quad[1]);
    vertices.push(quad[2]);
    vertices.push(quad[3]);
    indices.push(indice);
    indices.push(indice + 1);
    indices.push(indice + 2);
    indices.push(indice + 2);
    indices.push(indice + 3);
    indices.push(indice);
    proof {
        assert(vertices@ =~= old(vertices)@ + quad@);
        assert(indices@ =~= quad_indices(vertices@.len() / 4));
    }
}

/// The first place at which `id` is listed in `ids`.
pub fn position_of(ids: &Vec<BlockId>, id: &BlockId) -> (found: Option<usize>)
    ensures
        match found {
            Some(at) => at < ids@.len() && ids@[at as int]@ == id@,
            None => !ids@.map_values(|b: BlockId| b@).contains(id@),
        },
{
    let ghost names = ids@.map_values(|b: BlockId| b@);
    let mut i: usize = 0;
    while i < ids.len()
        invariant
            i <= ids.len(),
            names == ids@.map_values(|b: BlockId| b@),
            forall|j: int| 0 <= j < i ==> names[j] != id@,
        decreases ids.len() - i,
    {
        if ids[i].same_as(id) {
            return Some(i);
        }
        i += 1;
    }
    None
}

} // verus!
