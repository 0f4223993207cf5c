use mineclone::block::{AtlasRect, AtlasSize, BlockId, BlockMesh, BlockTextures, Opacity};
use mineclone::catalog::BlockCatalog;
use mineclone::chunk::{BlockPos, Chunk, ChunkDimensions, ChunkTranslation, LocalPos};
use mineclone::lifecycle::{build_geometry, can_mesh};
use mineclone::mesh::{get_face_mesh, ChunkMesh, Face, MeshDescriptor, Vertex};
use mineclone::world::generate_chunk;

const ATLAS: AtlasSize = AtlasSize { width: 64, height: 32 };

fn rect(n: u32) -> AtlasRect {
    AtlasRect { min_x: 16 * n, min_y: 0, max_x: 16 * n + 16, max_y: 16 }
}

fn catalog() -> BlockCatalog {
    let mut catalog = BlockCatalog::new();
    catalog.register(
        BlockId::named("mineclone:stone"),
        BlockMesh { opacity: Opacity::Opaque, textures: BlockTextures::Single(rect(0)) },
    );
    catalog.register(
        BlockId::named("mineclone:glass"),
        BlockMesh { opacity: Opacity::Transparent(128), textures: BlockTextures::Single(rect(1)) },
    );
    catalog.register(
        BlockId::named("mineclone:crate"),
        BlockMesh {
            opacity: Opacity::Opaque,
            textures: BlockTextures::All {
                top: rect(10),
                bottom: rect(11),
                front: rect(12),
                back: rect(13),
                left: rect(14),
                right: rect(15),
            },
        },
    );
    catalog
}

fn air_chunk(side: usize) -> (Chunk, ChunkDimensions) {
    let d = ChunkDimensions::new(side, side, side).unwrap();
    (generate_chunk(ChunkTranslation { x: 0, y: 0, z: 0 }, d), d)
}

fn put(chunk: &mut Chunk, d: ChunkDimensions, x: isize, y: isize, z: isize, name: &str) {
    chunk.set_block_at(BlockPos { x, y, z }, Some(BlockId::named(name)), d);
}

fn mesh_of(chunk: &Chunk, d: ChunkDimensions) -> MeshDescriptor {
    ChunkMesh::new(chunk, d, ATLAS, &catalog()).mesh()
}

fn quad_normals(mesh: &MeshDescriptor) -> Vec<(i8, i8, i8)> {
    mesh.vertices.chunks(4).map(|q| q[0].normal).collect()
}

#[test]
fn front_face_vertices() {
    let uv = AtlasRect { min_x: 16, min_y: 32, max_x: 48, max_y: 64 };
    let quad = get_face_mesh(Face::Front, (-2, 0, 4), uv);
    let n = (0, 0, 1);
    assert_eq!(
        quad,
        [
            Vertex { position: (-2, 0, 6), normal: n, uv: (16, 32) },
            Vertex { position: (0, 0, 6), normal: n, uv: (48, 32) },
            Vertex { position: (0, 2, 6), normal: n, uv: (48, 64) },
            Vertex { position: (-2, 2, 6), normal: n, uv: (16, 64) },
        ]
    );
}

#[test]
fn back_face_vertices() {
    let uv = AtlasRect { min_x: 16, min_y: 32, max_x: 48, max_y: 64 };
    let quad = get_face_mesh(Face::Back, (-2, 0, 4), uv);
    let n = (0, 0, -1);
    assert_eq!(
        quad,
        [
            Vertex { position: (-2, 2, 4), normal: n, uv: (16, 64) },
            Vertex { position: (0, 2, 4), normal: n, uv: (48, 64) },
            Vertex { position: (0, 0, 4), normal: n, uv: (48, 32) },
            Vertex { position: (-2, 0, 4), normal: n, uv: (16, 32) },
        ]
    );
}

#[test]
fn right_and_left_face_vertices() {
    let uv = AtlasRect { min_x: 1, min_y: 2, max_x: 3, max_y: 4 };
    let quad = get_face_mesh(Face::Right, (0, 0, 0), uv);
    let n = (1, 0, 0);
    assert_eq!(
        quad,
        [
            Vertex { position: (2, 0, 0), normal: n, uv: (1, 2) },
            Vertex { position: (2, 2, 0), normal: n, uv: (1, 4) },
            Vertex { position: (2, 2, 2), normal: n, uv: (3, 4) },
            Vertex { position: (2, 0, 2), normal: n, uv: (3, 2) },
        ]
    );
    let quad = get_face_mesh(Face::Left, (0, 0, 0), uv);
    let n = (-1, 0, 0);
    assert_eq!(
        quad,
        [
            Vertex { position: (0, 0, 2), normal: n, uv: (1, 2) },
            Vertex { position: (0, 2, 2), normal: n, uv: (1, 4) },
            Vertex { position: (0, 2, 0), normal: n, uv: (3, 4) },
            Vertex { position: (0, 0, 0), normal: n, uv: (3, 2) },
        ]
    );
}

#[test]
fn top_and_bottom_face_vertices() {
    let uv = AtlasRect { min_x: 1, min_y: 2, max_x: 3, max_y: 4 };
    let quad = get_face_mesh(Face::Top, (0, 0, 0), uv);
    let n = (0, 1, 0);
    assert_eq!(
        quad,
        [
            Vertex { position: (2, 2, 0), normal: n, uv: (3, 2) },
            Vertex { position: (0, 2, 0), normal: n, uv: (1, 2) },
            Vertex { position: (0, 2, 2), normal: n, uv: (1, 4) },
            Vertex { position: (2, 2, 2), normal: n, uv: (3, 4) },
        ]
    );
    let quad = get_face_mesh(Face::Bottom, (0, 0, 0), uv);
    let n = (0, -1, 0);
    assert_eq!(
        quad,
        [
            Vertex { position: (2, 0, 2), normal: n, uv: (3, 2) },
            Vertex { position: (0, 0, 2), normal: n, uv: (1, 2) },
            Vertex { position: (0, 0, 0), normal: n, uv: (1, 4) },
            Vertex { position: (2, 0, 0), normal: n, uv: (3, 4) },
        ]
    );
}

#[test]
fn every_face_winds_outward() {
    let uv = rect(0);
    for face in [Face::Front, Face::Back, Face::Right, Face::Left, Face::Top, Face::Bottom] {
        let q = get_face_mesh(face, (0, 0, 0), uv);
        let a = q[0].position;
        let b = q[1].position;
        let c = q[2].position;
        let u = (b.0 - a.0, b.1 - a.1, b.2 - a.2);
        let v = (c.0 - a.0, c.1 - a.1, c.2 - a.2);
        let cross = (u.1 * v.2 - u.2 * v.1, u.2 * v.0 - u.0 * v.2, u.0 * v.1 - u.1 * v.0);
        let n = q[0].normal;
        assert_eq!(cross, (4 * n.0 as i64, 4 * n.1 as i64, 4 * n.2 as i64));
        assert!(q.iter().all(|vertex| vertex.normal == n));
    }
}

#[test]
fn mesh_of_an_air_chunk_is_empty() {
    let (chunk, d) = air_chunk(4);
    let mesh = mesh_of(&chunk, d);
    assert_eq!(mesh.vertices.len(), 0);
    assert_eq!(mesh.indices.len(), 0);
    assert_eq!(mesh.atlas_size, ATLAS);
    assert!(build_geometry(&chunk, d, ATLAS, &catalog()).is_none());
}

#[test]
fn mesh_of_an_isolated_voxel_has_six_quads() {
    let (mut chunk, d) = air_chunk(3);
    put(&mut chunk, d, 1, 1, 1, "mineclone:stone");
    let mesh = mesh_of(&chunk, d);
    assert_eq!(mesh.vertices.len(), 24);
    assert_eq!(mesh.indices.len(), 36);
    assert_eq!(
        quad_normals(&mesh),
        vec![(0, 0, -1), (0, 0, 1), (-1, 0, 0), (1, 0, 0), (0, -1, 0), (0, 1, 0)]
    );
}

#[test]
fn isolated_voxel_has_six_quads_anywhere() {
    for side in [1usize, 2, 3, 5] {
        for x in 0..side {
            for y in 0..side {
                for z in 0..side {
                    let (mut chunk, d) = air_chunk(side);
                    put(&mut chunk, d, x as isize, y as isize, z as isize, "mineclone:stone");
                    let mesh = mesh_of(&chunk, d);
                    assert_eq!(mesh.vertices.len(), 24);
                    assert_eq!(mesh.indices.len(), 36);
                }
            }
        }
    }
}

#[test]
fn mesh_culls_the_faces_between_two_opaque_voxels() {
    for (dx, dy, dz) in [(1, 0, 0), (0, 1, 0), (0, 0, 1)] {
        let (mut chunk, d) = air_chunk(4);
        put(&mut chunk, d, 1, 1, 1, "mineclone:stone");
        put(&mut chunk, d, 1 + dx, 1 + dy, 1 + dz, "mineclone:stone");
        let mesh = mesh_of(&chunk, d);
        assert_eq!(mesh.vertices.len(), 40);
        assert_eq!(mesh.indices.len(), 60);
        let normals = quad_normals(&mesh);
        let toward = (dx as i8, dy as i8, dz as i8);
        let away = (-toward.0, -toward.1, -toward.2);
        assert_eq!(normals[..5].iter().filter(|n| **n == toward).count(), 0);
        assert_eq!(normals[5..].iter().filter(|n| **n == away).count(), 0);
    }
}

#[test]
fn transparent_neighbours_hide_nothing() {
    let (mut chunk, d) = air_chunk(4);
    put(&mut chunk, d, 1, 1, 1, "mineclone:stone");
    put(&mut chunk, d, 2, 1, 1, "mineclone:glass");
    let mesh = mesh_of(&chunk, d);
    // the stone keeps all six faces; the glass loses the one that looks at the stone
    assert_eq!(mesh.vertices.len(), 44);
    assert_eq!(mesh.indices.len(), 66);
}

#[test]
fn chunk_borders_are_always_shown() {
    let d = ChunkDimensions::new(2, 2, 2).unwrap();
    let chunk = generate_chunk(ChunkTranslation { x: 0, y: -1, z: 0 }, d);
    let mesh = mesh_of(&chunk, d);
    // eight voxels, each with three faces on the border and three hidden
    assert_eq!(mesh.vertices.len(), 8 * 3 * 4);
    assert_eq!(mesh.indices.len(), 8 * 3 * 6);
}

#[test]
fn a_full_chunk_shows_only_its_shell() {
    let d = ChunkDimensions::new(3, 4, 5).unwrap();
    let chunk = generate_chunk(ChunkTranslation { x: 0, y: -1, z: 0 }, d);
    let mesh = mesh_of(&chunk, d);
    let faces = 2 * (3 * 4 + 4 * 5 + 3 * 5);
    assert_eq!(mesh.vertices.len(), faces * 4);
    assert_eq!(mesh.indices.len(), faces * 6);
}

#[test]
fn indices_cut_every_quad_into_two_triangles() {
    let (mut chunk, d) = air_chunk(4);
    put(&mut chunk, d, 0, 0, 0, "mineclone:stone");
    put(&mut chunk, d, 3, 2, 1, "mineclone:glass");
    let mesh = mesh_of(&chunk, d);
    assert_eq!(mesh.indices.len(), 72);
    for (k, six) in mesh.indices.chunks(6).enumerate() {
        let base = 4 * k as u32;
        assert_eq!(six, [base, base + 1, base + 2, base + 2, base + 3, base]);
    }
}

#[test]
fn vertices_lie_at_the_voxel_corners_in_half_blocks() {
    let (mut chunk, d) = air_chunk(4);
    put(&mut chunk, d, 3, 0, 2, "mineclone:stone");
    let mesh = mesh_of(&chunk, d);
    // voxel (3, 0, 2) of a 4x4x4 chunk is at (1, -2, 0) voxels from the centre
    for v in &mesh.vertices {
        assert!(v.position.0 == 2 || v.position.0 == 4);
        assert!(v.position.1 == -4 || v.position.1 == -2);
        assert!(v.position.2 == 0 || v.position.2 == 2);
    }
    let back = &mesh.vertices[0..4];
    assert!(back.iter().all(|v| v.position.2 == 0 && v.normal == (0, 0, -1)));
    let top = &mesh.vertices[20..24];
    assert!(top.iter().all(|v| v.position.1 == -2 && v.normal == (0, 1, 0)));
}

#[test]
fn odd_dimensions_round_the_centre_down() {
    let (mut chunk, d) = air_chunk(3);
    put(&mut chunk, d, 0, 0, 0, "mineclone:stone");
    let mesh = mesh_of(&chunk, d);
    for v in &mesh.vertices {
        assert!(v.position.0 == -2 || v.position.0 == 0);
        assert!(v.position.1 == -2 || v.position.1 == 0);
        assert!(v.position.2 == -2 || v.position.2 == 0);
    }
}

#[test]
fn faces_show_their_textures() {
    let (mut chunk, d) = air_chunk(3);
    put(&mut chunk, d, 1, 1, 1, "mineclone:crate");
    let mesh = mesh_of(&chunk, d);
    let spans: Vec<(u32, u32)> = mesh
        .vertices
        .chunks(4)
        .map(|q| {
            (q.iter().map(|v| v.uv.0).min().unwrap(), q.iter().map(|v| v.uv.0).max().unwrap())
        })
        .collect();
    let span = |n: u32| (16 * n, 16 * n + 16);
    // emitted toward -z, +z, -x, +x, -y, +y; the -z face shows the front texture
    assert_eq!(spans, vec![span(12), span(13), span(14), span(15), span(11), span(10)]);
    assert!(mesh.vertices.iter().all(|v| v.uv.1 == 0 || v.uv.1 == 16));
}

#[test]
fn blocks_missing_from_the_catalog_are_skipped() {
    let (mut chunk, d) = air_chunk(4);
    put(&mut chunk, d, 1, 1, 1, "mineclone:stone");
    put(&mut chunk, d, 2, 1, 1, "mineclone:unknown");
    let mesh = mesh_of(&chunk, d);
    assert_eq!(mesh.vertices.len(), 24);
    assert_eq!(mesh.indices.len(), 36);
    let prepared = ChunkMesh::new(&chunk, d, ATLAS, &catalog());
    assert!(prepared.get_block_at(LocalPos { x: 2, y: 1, z: 1 }).is_none());
    assert!(prepared.get_block_at(LocalPos { x: 1, y: 1, z: 1 }).is_some());
}

#[test]
fn opacity_of_voxels() {
    let (mut chunk, d) = air_chunk(4);
    put(&mut chunk, d, 1, 1, 1, "mineclone:stone");
    put(&mut chunk, d, 2, 1, 1, "mineclone:glass");
    let prepared = ChunkMesh::new(&chunk, d, ATLAS, &catalog());
    assert_eq!(prepared.get_block_opacity_at(LocalPos { x: 1, y: 1, z: 1 }), Opacity::Opaque);
    assert_eq!(
        prepared.get_block_opacity_at(LocalPos { x: 2, y: 1, z: 1 }),
        Opacity::Transparent(128)
    );
    assert_eq!(
        prepared.get_block_opacity_at(LocalPos { x: 0, y: 0, z: 0 }),
        Opacity::Transparent(255)
    );
    assert!(prepared.is_exposed(Face::Left, LocalPos { x: 1, y: 1, z: 1 }));
    assert!(prepared.is_exposed(Face::Right, LocalPos { x: 1, y: 1, z: 1 }));
    assert!(!prepared.is_exposed(Face::Left, LocalPos { x: 2, y: 1, z: 1 }));
    assert!(prepared.is_exposed(Face::Left, LocalPos { x: 0, y: 0, z: 0 }));
}

#[test]
fn attribute_lists_follow_the_vertices() {
    let (mut chunk, d) = air_chunk(3);
    put(&mut chunk, d, 1, 1, 1, "mineclone:crate");
    let mesh = mesh_of(&chunk, d);
    let positions = mesh.positions();
    let normals = mesh.normals();
    let uvs = mesh.uvs();
    assert_eq!(positions.len(), 24);
    assert_eq!(normals.len(), 24);
    assert_eq!(uvs.len(), 24);
    for (i, v) in mesh.vertices.iter().enumerate() {
        assert_eq!(positions[i], v.position);
        assert_eq!(normals[i], v.normal);
        assert_eq!(uvs[i], v.uv);
    }
}

#[test]
fn geometry_is_kept_only_if_there_is_any() {
    let (mut chunk, d) = air_chunk(2);
    assert!(build_geometry(&chunk, d, ATLAS, &catalog()).is_none());
    put(&mut chunk, d, 0, 1, 0, "mineclone:stone");
    let geometry = build_geometry(&chunk, d, ATLAS, &catalog()).unwrap();
    assert_eq!(geometry.vertices.len(), 24);
    assert_eq!(geometry.indices.len(), 36);
}

#[test]
fn chunks_too_large_for_the_index_type_cannot_be_meshed() {
    let ok = ChunkDimensions { width: 16, height: 16, depth: 16 };
    assert!(can_mesh(ok));
    assert!(can_mesh(ChunkDimensions { width: 178_956_970, height: 1, depth: 1 }));
    assert!(!can_mesh(ChunkDimensions { width: 178_956_971, height: 1, depth: 1 }));
    assert!(!can_mesh(ChunkDimensions { width: 0, height: 1, depth: 1 }));
}
