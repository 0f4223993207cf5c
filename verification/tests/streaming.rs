use bevy::ecs::entity::Entity;
use mineclone::chunk::{BlockPos, ChunkDimensions, ChunkTranslation, WorldPoint};
use mineclone::intent::{ChunkEvent, ChunkMarker};
use mineclone::streaming::{
    can_stream, mark_chunks, track_player_chunk, ChunkConfig, ObserverTracker,
};
use std::collections::BTreeSet;

fn dims(side: usize) -> ChunkDimensions {
    ChunkDimensions::new(side, side, side).unwrap()
}

fn at(x: isize, y: isize, z: isize) -> ChunkTranslation {
    ChunkTranslation { x, y, z }
}

fn resident(list: &[(u32, (isize, isize, isize))]) -> Vec<(Entity, ChunkMarker)> {
    list.iter()
        .map(|(id, (x, y, z))| (Entity::from_raw(*id), ChunkMarker { translation: at(*x, *y, *z) }))
        .collect()
}

fn loads(events: &[ChunkEvent]) -> Vec<(isize, isize, isize)> {
    events
        .iter()
        .filter_map(|e| match e {
            ChunkEvent::Load(data) => {
                Some((data.translation.x, data.translation.y, data.translation.z))
            }
            _ => None,
        })
        .collect()
}

fn removed(events: &[ChunkEvent]) -> Vec<Entity> {
    events
        .iter()
        .filter_map(|e| match e {
            ChunkEvent::Remove(entity) => Some(*entity),
            _ => None,
        })
        .collect()
}

fn cube(c: (isize, isize, isize), r: isize) -> Vec<(isize, isize, isize)> {
    let mut all = Vec::new();
    for x in c.0 - r..=c.0 + r {
        for y in c.1 - r..=c.1 + r {
            for z in c.2 - r..=c.2 + r {
                all.push((x, y, z));
            }
        }
    }
    all
}

/// The coordinates that are represented once the events have been carried out.
fn settle(before: &[(Entity, ChunkMarker)], events: &[ChunkEvent]) -> Vec<(isize, isize, isize)> {
    let gone = removed(events);
    let mut after: Vec<(isize, isize, isize)> = before
        .iter()
        .filter(|(e, _)| !gone.contains(e))
        .map(|(_, m)| (m.translation.x, m.translation.y, m.translation.z))
        .collect();
    after.extend(loads(events));
    after
}

#[test]
fn default_render_distance_is_four() {
    assert_eq!(ChunkConfig::default().render_distance, 4);
}

#[test]
fn end_to_end_render_distance_one() {
    let d = dims(2);
    let observer = BlockPos { x: 0, y: 0, z: 0 };
    assert_eq!(ChunkTranslation::get_chunk_translation(observer, d), at(0, 0, 0));
    assert!(can_stream(at(0, 0, 0), 1));
    let events = mark_chunks(1, d, observer, &Vec::new());
    assert_eq!(events.len(), 27);
    assert!(removed(&events).is_empty());
    let got = loads(&events);
    assert_eq!(got, cube((0, 0, 0), 1));
    let set: BTreeSet<_> = got.into_iter().collect();
    assert_eq!(set.len(), 27);
    for x in -1..=1 {
        for y in -1..=1 {
            for z in -1..=1 {
                assert!(set.contains(&(x, y, z)));
            }
        }
    }
}

#[test]
fn loads_carry_the_chunk_centre() {
    let d = ChunkDimensions::new(16, 8, 4).unwrap();
    let events = mark_chunks(1, d, BlockPos { x: 0, y: 0, z: 0 }, &Vec::new());
    for e in &events {
        match e {
            ChunkEvent::Load(data) => {
                let t = data.translation;
                assert_eq!(
                    data.global_pos,
                    WorldPoint {
                        x: (2 * t.x as i128 + 1) * 16,
                        y: (2 * t.y as i128 + 1) * 8,
                        z: (2 * t.z as i128 + 1) * 4,
                    }
                );
            }
            _ => panic!("only loads are expected"),
        }
    }
    match events[0] {
        ChunkEvent::Load(data) => {
            assert_eq!(data.translation, at(-1, -1, -1));
            assert_eq!(data.global_pos, WorldPoint { x: -16, y: -8, z: -4 });
        }
        _ => panic!("a load is expected"),
    }
}

#[test]
fn render_distance_zero_keeps_one_chunk() {
    let d = dims(16);
    let events = mark_chunks(0, d, BlockPos { x: -1, y: 40, z: 16 }, &Vec::new());
    assert_eq!(loads(&events), vec![(-1, 2, 1)]);
}

#[test]
fn chunks_outside_the_cube_are_removed_in_order() {
    let d = dims(16);
    let before = resident(&[
        (1, (0, 0, 0)),
        (2, (5, 0, 0)),
        (3, (1, 1, 1)),
        (4, (0, -2, 0)),
        (5, (-1, -1, -1)),
        (6, (0, 0, 2)),
    ]);
    let events = mark_chunks(1, d, BlockPos { x: 3, y: 3, z: 3 }, &before);
    assert_eq!(
        removed(&events),
        vec![Entity::from_raw(2), Entity::from_raw(4), Entity::from_raw(6)]
    );
    // the removals come first
    assert!(matches!(events[0], ChunkEvent::Remove(_)));
    assert!(matches!(events[2], ChunkEvent::Remove(_)));
    assert!(events[3..].iter().all(|e| matches!(e, ChunkEvent::Load(_))));
    let expected: Vec<_> = cube((0, 0, 0), 1)
        .into_iter()
        .filter(|c| ![(0, 0, 0), (1, 1, 1), (-1, -1, -1)].contains(c))
        .collect();
    assert_eq!(loads(&events), expected);
}

#[test]
fn the_cube_is_a_cube_not_a_ball() {
    let d = dims(16);
    let before = resident(&[(1, (2, 2, 2)), (2, (-2, 2, -2)), (3, (3, 0, 0))]);
    let events = mark_chunks(2, d, BlockPos { x: 0, y: 0, z: 0 }, &before);
    assert_eq!(removed(&events), vec![Entity::from_raw(3)]);
    assert_eq!(loads(&events).len(), 125 - 2);
}

#[test]
fn streaming_converges_to_the_cube() {
    let d = dims(4);
    let before = resident(&[
        (10, (0, 0, 0)),
        (11, (9, 9, 9)),
        (12, (-3, 1, 2)),
        (13, (-2, 0, 1)),
        (14, (-4, -1, 0)),
        (15, (-1, 3, 3)),
        (16, (-5, 0, 0)),
    ]);
    // the observer stands in chunk (-2, 1, 1)
    let observer = BlockPos { x: -5, y: 4, z: 7 };
    assert_eq!(ChunkTranslation::get_chunk_translation(observer, d), at(-2, 1, 1));
    let events = mark_chunks(2, d, observer, &before);
    let after = settle(&before, &events);
    assert_eq!(after.len(), 125);
    let got: BTreeSet<_> = after.into_iter().collect();
    let want: BTreeSet<_> = cube((-2, 1, 1), 2).into_iter().collect();
    assert_eq!(got, want);
    assert_eq!(got.len(), 5 * 5 * 5);
}

#[test]
fn a_settled_neighbourhood_needs_no_intents() {
    let d = dims(2);
    let observer = BlockPos { x: 7, y: -3, z: 0 };
    let first = mark_chunks(1, d, observer, &Vec::new());
    let settled: Vec<(Entity, ChunkMarker)> = loads(&first)
        .into_iter()
        .enumerate()
        .map(|(i, (x, y, z))| (i as u32, (x, y, z)))
        .map(|(i, c)| (Entity::from_raw(i), ChunkMarker { translation: at(c.0, c.1, c.2) }))
        .collect();
    assert!(mark_chunks(1, d, observer, &settled).is_empty());
}

#[test]
fn moving_one_chunk_swaps_one_layer() {
    let d = dims(2);
    let first = mark_chunks(1, d, BlockPos { x: 0, y: 0, z: 0 }, &Vec::new());
    let settled: Vec<(Entity, ChunkMarker)> = loads(&first)
        .into_iter()
        .enumerate()
        .map(|(i, (x, y, z))| (i as u32, (x, y, z)))
        .map(|(i, c)| (Entity::from_raw(i), ChunkMarker { translation: at(c.0, c.1, c.2) }))
        .collect();
    let events = mark_chunks(1, d, BlockPos { x: 2, y: 0, z: 0 }, &settled);
    assert_eq!(removed(&events).len(), 9);
    let got = loads(&events);
    assert_eq!(got.len(), 9);
    assert!(got.iter().all(|c| c.0 == 2));
    let after: BTreeSet<_> = settle(&settled, &events).into_iter().collect();
    assert_eq!(after, cube((1, 0, 0), 1).into_iter().collect());
}

#[test]
fn two_entities_of_one_chunk_are_both_kept() {
    let d = dims(2);
    let before = resident(&[(1, (0, 0, 0)), (2, (0, 0, 0))]);
    let events = mark_chunks(0, d, BlockPos { x: 1, y: 1, z: 1 }, &before);
    assert!(events.is_empty());
}

#[test]
fn cubes_that_do_not_fit_cannot_be_streamed() {
    assert!(can_stream(at(0, 0, 0), 0));
    assert!(can_stream(at(0, 0, 0), 4));
    assert!(can_stream(at(isize::MAX - 4, 0, isize::MIN + 4), 4));
    assert!(!can_stream(at(isize::MAX - 3, 0, 0), 4));
    assert!(!can_stream(at(0, isize::MIN + 3, 0), 4));
    assert!(!can_stream(at(0, 0, isize::MAX), 1));
    assert!(!can_stream(at(0, 0, 0), usize::MAX));
    assert!(!can_stream(at(0, 0, 0), usize::MAX / 2));
    assert!(!can_stream(at(0, 0, 0), 1 << 21));
}

#[test]
fn the_tracker_reports_a_change_of_chunk_only() {
    let d = dims(16);
    let mut tracker = ObserverTracker::new();
    assert!(tracker.chunk.is_none());
    assert!(track_player_chunk(&mut tracker, BlockPos { x: 0, y: 0, z: 0 }, d));
    assert_eq!(tracker.chunk, Some(at(0, 0, 0)));
    assert!(!track_player_chunk(&mut tracker, BlockPos { x: 15, y: 3, z: 9 }, d));
    assert_eq!(tracker.chunk, Some(at(0, 0, 0)));
    assert!(track_player_chunk(&mut tracker, BlockPos { x: 15, y: -1, z: 9 }, d));
    assert_eq!(tracker.chunk, Some(at(0, -1, 0)));
    assert!(!track_player_chunk(&mut tracker, BlockPos { x: 0, y: -16, z: 0 }, d));
    assert!(track_player_chunk(&mut tracker, BlockPos { x: 16, y: -16, z: 0 }, d));
    assert_eq!(tracker.chunk, Some(at(1, -1, 0)));
}
