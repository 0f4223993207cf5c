use bevy::ecs::entity::Entity;
use mineclone::block::{AtlasRect, AtlasSize, BlockId, BlockMesh, BlockTextures, Opacity};
use mineclone::catalog::BlockCatalog;
use mineclone::chunk::{BlockPos, ChunkDimensions, ChunkTranslation, WorldPoint};
use mineclone::edit::{create_object, destroy_object, find_representation, placeable, LookingAt};
use mineclone::intent::{ChunkEvent, ChunkLoadData, ChunkMarker};
use mineclone::lifecycle::{find_marker, load_chunks, reload_chunk, unload_chunks};
use mineclone::streaming::mark_chunks;
use mineclone::world::{ground_block, GameWorld};

const ATLAS: AtlasSize = AtlasSize { width: 32, height: 16 };

fn at(x: isize, y: isize, z: isize) -> ChunkTranslation {
    ChunkTranslation { x, y, z }
}

fn pos(x: isize, y: isize, z: isize) -> BlockPos {
    BlockPos { x, y, z }
}

fn world(side: usize) -> GameWorld {
    GameWorld::new(ChunkDimensions::new(side, side, side).unwrap())
}

fn catalog() -> BlockCatalog {
    let mut catalog = BlockCatalog::new();
    let rect = AtlasRect { min_x: 0, min_y: 0, max_x: 16, max_y: 16 };
    catalog.register(
        ground_block(),
        BlockMesh { opacity: Opacity::Opaque, textures: BlockTextures::Single(rect) },
    );
    let rect = AtlasRect { min_x: 16, min_y: 0, max_x: 32, max_y: 16 };
    catalog.register(
        BlockId::named("mineclone:dirt"),
        BlockMesh { opacity: Opacity::Opaque, textures: BlockTextures::Single(rect) },
    );
    catalog
}

fn load(x: isize, y: isize, z: isize, side: usize) -> ChunkEvent {
    let d = ChunkDimensions::new(side, side, side).unwrap();
    ChunkEvent::Load(ChunkLoadData { translation: at(x, y, z), global_pos: at(x, y, z).origin(d) })
}

fn resident(list: &[(u32, (isize, isize, isize))]) -> Vec<(Entity, ChunkMarker)> {
    list.iter()
        .map(|(id, (x, y, z))| (Entity::from_raw(*id), ChunkMarker { translation: at(*x, *y, *z) }))
        .collect()
}

#[test]
fn loading_an_air_chunk_spawns_a_bare_entity() {
    let mut w = world(2);
    let spawns = load_chunks(&mut w, &vec![load(0, 0, 0, 2)], &catalog(), ATLAS);
    assert_eq!(spawns.len(), 1);
    assert_eq!(spawns[0].marker.translation, at(0, 0, 0));
    assert_eq!(spawns[0].global_pos, WorldPoint { x: 2, y: 2, z: 2 });
    assert!(spawns[0].geometry.is_none());
    assert!(w.is_stored(at(0, 0, 0)));
}

#[test]
fn loading_a_ground_chunk_spawns_geometry() {
    let mut w = world(2);
    let spawns = load_chunks(&mut w, &vec![load(3, -1, -2, 2)], &catalog(), ATLAS);
    assert_eq!(spawns.len(), 1);
    assert_eq!(spawns[0].marker.translation, at(3, -1, -2));
    assert_eq!(spawns[0].global_pos, WorldPoint { x: 14, y: -2, z: -6 });
    let geometry = spawns[0].geometry.as_ref().unwrap();
    assert_eq!(geometry.vertices.len(), 96);
    assert_eq!(geometry.indices.len(), 144);
    assert_eq!(geometry.atlas_size, ATLAS);
}

#[test]
fn only_loads_are_loaded_and_in_order() {
    let mut w = world(2);
    let events = vec![
        ChunkEvent::Remove(Entity::from_raw(1)),
        load(0, -1, 0, 2),
        ChunkEvent::Reload(Entity::from_raw(2)),
        load(0, 1, 0, 2),
        load(5, -3, 5, 2),
    ];
    let spawns = load_chunks(&mut w, &events, &catalog(), ATLAS);
    let got: Vec<_> = spawns.iter().map(|s| (s.marker.translation, s.geometry.is_some())).collect();
    assert_eq!(got, vec![(at(0, -1, 0), true), (at(0, 1, 0), false), (at(5, -3, 5), true)]);
}

#[test]
fn loading_shows_earlier_edits() {
    let mut w = world(4);
    w.set_block_at(Some(BlockId::named("mineclone:dirt")), pos(1, 2, 3));
    let spawns = load_chunks(&mut w, &vec![load(0, 0, 0, 4)], &catalog(), ATLAS);
    let geometry = spawns[0].geometry.as_ref().unwrap();
    assert_eq!(geometry.vertices.len(), 24);
    assert_eq!(geometry.indices.len(), 36);
    assert!(geometry.vertices.iter().all(|v| v.uv.0 == 16 || v.uv.0 == 32));
}

#[test]
fn loading_changes_no_voxel() {
    let mut w = world(2);
    w.set_block_at(Some(BlockId::named("mineclone:dirt")), pos(0, 0, 0));
    let events = vec![load(0, 0, 0, 2), load(0, -1, 0, 2), load(1, 0, 0, 2)];
    load_chunks(&mut w, &events, &catalog(), ATLAS);
    assert_eq!(w.get_block_at(pos(0, 0, 0)), Some(BlockId::named("mineclone:dirt")));
    assert_eq!(w.get_block_at(pos(1, 0, 0)), None);
    assert_eq!(w.get_block_at(pos(2, 1, 1)), None);
    assert_eq!(w.get_block_at(pos(0, -1, 0)), Some(ground_block()));
}

#[test]
fn unloading_names_the_removed_entities() {
    let events = vec![
        load(0, 0, 0, 2),
        ChunkEvent::Remove(Entity::from_raw(7)),
        ChunkEvent::Reload(Entity::from_raw(8)),
        ChunkEvent::Remove(Entity::from_raw(3)),
    ];
    assert_eq!(unload_chunks(&events), vec![Entity::from_raw(7), Entity::from_raw(3)]);
    assert!(unload_chunks(&Vec::new()).is_empty());
}

#[test]
fn markers_are_found_by_entity() {
    let list = resident(&[(1, (0, 0, 0)), (2, (1, 0, 0)), (3, (2, 0, 0)), (2, (9, 9, 9))]);
    assert_eq!(find_marker(&list, Entity::from_raw(1)), Some(at(0, 0, 0)));
    assert_eq!(find_marker(&list, Entity::from_raw(2)), Some(at(1, 0, 0)));
    assert_eq!(find_marker(&list, Entity::from_raw(3)), Some(at(2, 0, 0)));
    assert_eq!(find_marker(&list, Entity::from_raw(4)), None);
    assert_eq!(find_marker(&Vec::new(), Entity::from_raw(1)), None);
}

#[test]
fn representations_are_found_by_coordinate() {
    let list = resident(&[(1, (0, 0, 0)), (2, (1, 0, 0)), (3, (0, 0, 0))]);
    assert_eq!(find_representation(&list, at(0, 0, 0)), Some(Entity::from_raw(3)));
    assert_eq!(find_representation(&list, at(1, 0, 0)), Some(Entity::from_raw(2)));
    assert_eq!(find_representation(&list, at(0, 1, 0)), None);
}

#[test]
fn reload_rebuilds_the_named_chunk() {
    let mut w = world(2);
    let list = resident(&[(1, (0, 0, 0)), (2, (0, -1, 0))]);
    let events = vec![
        ChunkEvent::Reload(Entity::from_raw(2)),
        load(4, 4, 4, 2),
        ChunkEvent::Reload(Entity::from_raw(9)),
        ChunkEvent::Reload(Entity::from_raw(1)),
    ];
    let rebuilds = reload_chunk(&mut w, &events, &list, &catalog(), ATLAS);
    assert_eq!(rebuilds.len(), 2);
    assert_eq!(rebuilds[0].entity, Entity::from_raw(2));
    assert_eq!(rebuilds[0].geometry.as_ref().unwrap().vertices.len(), 96);
    assert_eq!(rebuilds[1].entity, Entity::from_raw(1));
    assert!(rebuilds[1].geometry.is_none());
}

#[test]
fn destroying_a_block_asks_for_a_reload() {
    let mut w = world(2);
    let list = resident(&[(1, (0, 0, 0)), (2, (0, -1, 0))]);
    let hit = LookingAt::Something { block_pos: pos(1, -1, 0), normal: (0, 1, 0) };
    let reload = destroy_object(hit, &list, &mut w);
    assert!(matches!(reload, Some(ChunkEvent::Reload(e)) if e == Entity::from_raw(2)));
    assert_eq!(w.get_block_at(pos(1, -1, 0)), None);
    assert_eq!(w.get_block_at(pos(0, -1, 0)), Some(ground_block()));
    // the reload sees the edit: seven blocks are left, and three faces were uncovered
    let rebuilds = reload_chunk(&mut w, &vec![reload.unwrap()], &list, &catalog(), ATLAS);
    assert_eq!(rebuilds.len(), 1);
    assert_eq!(rebuilds[0].geometry.as_ref().unwrap().vertices.len(), (7 * 3 + 3) * 4);
}

#[test]
fn destroying_the_last_block_leaves_no_geometry() {
    let mut w = world(1);
    let list = resident(&[(5, (0, -1, 0))]);
    let hit = LookingAt::Something { block_pos: pos(0, -1, 0), normal: (0, 0, 0) };
    let reload = destroy_object(hit, &list, &mut w).unwrap();
    let rebuilds = reload_chunk(&mut w, &vec![reload], &list, &catalog(), ATLAS);
    assert_eq!(rebuilds.len(), 1);
    assert_eq!(rebuilds[0].entity, Entity::from_raw(5));
    assert!(rebuilds[0].geometry.is_none());
}

#[test]
fn an_edit_of_an_unrepresented_chunk_is_kept() {
    let mut w = world(2);
    let list = resident(&[(1, (0, 0, 0))]);
    let hit = LookingAt::Something { block_pos: pos(10, -1, 10), normal: (0, 1, 0) };
    assert!(destroy_object(hit, &list, &mut w).is_none());
    assert_eq!(w.get_block_at(pos(10, -1, 10)), None);
    let spawns = load_chunks(&mut w, &vec![load(5, -1, 5, 2)], &catalog(), ATLAS);
    assert_eq!(spawns[0].geometry.as_ref().unwrap().vertices.len(), (7 * 3 + 3) * 4);
}

#[test]
fn looking_at_nothing_edits_nothing() {
    let mut w = world(2);
    let list = resident(&[(1, (0, 0, 0))]);
    assert!(destroy_object(LookingAt::Nothing, &list, &mut w).is_none());
    assert!(create_object(LookingAt::Nothing, ground_block(), &list, &mut w).is_none());
    assert!(!w.is_stored(at(0, 0, 0)));
}

#[test]
fn creating_a_block_writes_in_front_of_the_face() {
    let mut w = world(2);
    let list = resident(&[(1, (0, 0, 0)), (2, (0, -1, 0)), (3, (-1, -1, 0))]);
    let dirt = BlockId::named("mineclone:dirt");
    let hit = LookingAt::Something { block_pos: pos(1, -1, 1), normal: (0, 1, 0) };
    assert!(placeable(hit));
    let reload = create_object(hit, dirt.clone(), &list, &mut w);
    assert!(matches!(reload, Some(ChunkEvent::Reload(e)) if e == Entity::from_raw(1)));
    assert_eq!(w.get_block_at(pos(1, 0, 1)), Some(dirt.clone()));
    assert_eq!(w.get_block_at(pos(1, -1, 1)), Some(ground_block()));

    let hit = LookingAt::Something { block_pos: pos(0, -1, 1), normal: (-1, 0, 0) };
    let reload = create_object(hit, dirt.clone(), &list, &mut w);
    assert!(matches!(reload, Some(ChunkEvent::Reload(e)) if e == Entity::from_raw(3)));
    assert_eq!(w.get_block_at(pos(-1, -1, 1)), Some(dirt));
}

#[test]
fn blocks_cannot_be_placed_beyond_the_last_position() {
    let edge = LookingAt::Something { block_pos: pos(isize::MAX, 0, 0), normal: (1, 0, 0) };
    assert!(!placeable(edge));
    let edge = LookingAt::Something { block_pos: pos(0, isize::MIN, 0), normal: (0, -1, 0) };
    assert!(!placeable(edge));
    let edge = LookingAt::Something { block_pos: pos(isize::MAX, 0, 0), normal: (-1, 0, 0) };
    assert!(placeable(edge));
    assert!(placeable(LookingAt::Nothing));
}

#[test]
fn a_tick_from_movement_to_geometry() {
    let d = ChunkDimensions::new(2, 2, 2).unwrap();
    let mut w = GameWorld::new(d);
    let events = mark_chunks(1, d, pos(0, 0, 0), &Vec::new());
    let spawns = load_chunks(&mut w, &events, &catalog(), ATLAS);
    assert_eq!(spawns.len(), 27);
    for s in &spawns {
        assert_eq!(s.global_pos, s.marker.translation.origin(d));
        assert_eq!(s.geometry.is_some(), s.marker.translation.y < 0);
        assert!(w.is_stored(s.marker.translation));
    }
    assert!(unload_chunks(&events).is_empty());
}
