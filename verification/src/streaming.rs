//! Decides which chunks must be represented around the observer.
//!
//! The chunks to keep are the cube of grid coordinates within the render
//! distance of the observer's chunk on every axis. Every represented chunk
//! outside the cube is removed, and every coordinate of the cube that no
//! represented chunk has is loaded.

use vstd::prelude::*;
use bevy::ecs::entity::Entity;
use crate::chunk::{lemma_axis_fits, BlockPos, ChunkDimensions, ChunkTranslation, LocalPos};
use crate::intent::{ChunkEvent, ChunkLoadData, ChunkMarker};

verus! {

/// How far around the observer chunks are kept, in chunks per axis.
#[derive(Clone, Copy, Debug)]
pub struct ChunkConfig {
    pub render_distance: usize,
}

impl Default for ChunkConfig {
    /// Four chunks in every direction.
    fn default() -> (config: ChunkConfig)
        ensures
            config.render_distance == 4,
    {
        ChunkConfig { render_distance: 4 }
    }
}

/// The cube of coordinates to keep, as dimensions: `2 * distance + 1` on every
/// axis.
pub open spec fn cube_dims(render_distance: usize) -> ChunkDimensions {
    ChunkDimensions {
        width: (2 * render_distance + 1) as usize,
        height: (2 * render_distance + 1) as usize,
        depth: (2 * render_distance + 1) as usize,
    }
}

/// Whether `c` lies within `distance` of `centre` on every axis.
pub open spec fn in_cube(c: ChunkTranslation, centre: ChunkTranslation, distance: int) -> bool {
    &&& centre.x - distance <= c.x <= centre.x + distance
    &&& centre.y - distance <= c.y <= centre.y + distance
    &&& centre.z - distance <= c.z <= centre.z + distance
}

/// The coordinate number `n` of the cube, counting with `x` slowest and `z`
/// fastest from the corner with the smallest coordinates.
pub open spec fn cube_coord(
    centre: ChunkTranslation,
    render_distance: usize,
    n: int,
) -> ChunkTranslation {
    let cube = cube_dims(render_distance);
    ChunkTranslation {
        x: (centre.x - render_distance + cube.x_of(n)) as isize,
        y: (centre.y - render_distance + cube.y_of(n)) as isize,
        z: (centre.z - render_distance + cube.z_of(n)) as isize,
    }
}

/// Whether some represented chunk has the coordinate `c`.
pub open spec fn occupied(resident: Seq<(Entity, ChunkMarker)>, c: ChunkTranslation) -> bool {
    exists|i: int| 0 <= i < resident.len() && (#[trigger] resident[i]).1.translation == c
}

/// The removals: one for every represented chunk outside the cube, in the
/// order of `resident`.
pub open spec fn removals(
    resident: Seq<(Entity, ChunkMarker)>,
    centre: ChunkTranslation,
    distance: int,
) -> Seq<ChunkEvent>
    decreases resident.len(),
{
    if resident.len() == 0 {
        Seq::empty()
    } else {
        let rest = removals(resident.drop_last(), centre, distance);
        if in_cube(resident.last().1.translation, centre, distance) {
            rest
        } else {
            rest.push(ChunkEvent::Remove(resident.last().0))
        }
    }
}

/// The load of the chunk at `translation`.
pub open spec fn load_of(translation: ChunkTranslation, dims: ChunkDimensions) -> ChunkEvent {
    ChunkEvent::Load(ChunkLoadData { translation, global_pos: translation.centre(dims) })
}

/// The loads among the first `count` coordinates of the cube: one for every
/// coordinate that no represented chunk has, in counting order.
pub open spec fn loads_upto(
    resident: Seq<(Entity, ChunkMarker)>,
    centre: ChunkTranslation,
    render_distance: usize,
    dims: ChunkDimensions,
    count: nat,
) -> Seq<ChunkEvent>
    decreases count,
{
    if count == 0 {
        Seq::empty()
    } else {
        let rest = loads_upto(resident, centre, render_distance, dims, (count - 1) as nat);
        let c = cube_coord(centre, render_distance, count - 1);
        if occupied(resident, c) {
            rest
        } else {
            rest.push(load_of(c, dims))
        }
    }
}

/// All intents for an observer in the chunk `centre`: the removals, then the
/// loads.
pub open spec fn stream_events(
    resident: Seq<(Entity, ChunkMarker)>,
    centre: ChunkTranslation,
    render_distance: usize,
    dims: ChunkDimensions,
) -> Seq<ChunkEvent> {
    removals(resident, centre, render_distance as int) + loads_upto(
        resident,
        centre,
        render_distance,
        dims,
        cube_dims(render_distance).volume() as nat,
    )
}

/// The cube around `centre` can be counted and named on this machine: its
/// side fits, its flags fit in memory, and its coordinates are grid
/// coordinates.
pub open spec fn streamable(centre: ChunkTranslation, render_distance: usize) -> bool {
    &&& 2 * render_distance + 1 <= usize::MAX
    &&& cube_dims(render_distance).valid()
    &&& isize::MIN <= centre.x - render_distance
    &&& centre.x + render_distance <= isize::MAX
    &&& isize::MIN <= centre.y - render_distance
    &&& centre.y + render_distance <= isize::MAX
    &&& isize::MIN <= centre.z - render_distance
    &&& centre.z + render_distance <= isize::MAX
}

/// Whether the cube around `centre` can be counted and named on this machine.
pub fn can_stream(centre: ChunkTranslation, render_distance: usize) -> (ok: bool)
    ensures
        ok == streamable(centre, render_distance),
{
    let side: usize = match render_distance.checked_mul(2) {
        Some(twice) => match twice.checked_add(1) {
            Some(side) => side,
            None => { return false; },
        },
        None => { return false; },
    };
    if ChunkDimensions::new(side, side, side).is_none() {
        return false;
    }
    proof {
        lemma_axis_fits(cube_dims(render_distance));
    }
    let distance: isize = render_distance as isize;
    axis_in_reach(centre.x, distance) && axis_in_reach(centre.y, distance) && axis_in_reach(
        centre.z,
        distance,
    )
}

/// Compares the represented chunks with the cube around the observer and
/// returns the intents that make the two agree: first a removal for every
/// represented chunk outside the cube, in the order of `resident`, then a
/// load for every coordinate of the cube that no represented chunk has, with
/// `x` slowest and `z` fastest.
pub fn mark_chunks(
    render_distance: usize,
    chunk_dimensions: ChunkDimensions,
    observer: BlockPos,
    resident: &Vec<(Entity, ChunkMarker)>,
) -> (events: Vec<ChunkEvent>)
    requires
        chunk_dimensions.valid(),
        streamable(ChunkTranslation::containing(observer, chunk_dimensions), render_distance),
    ensures
        events@ == stream_events(
            resident@,
            ChunkTranslation::containing(observer, chunk_dimensions),
            render_distance,
            chunk_dimensions,
        ),
{
    let centre = ChunkTranslation::get_chunk_translation(observer, chunk_dimensions);
    let side: usize = 2 * render_distance + 1;
    let cube = ChunkDimensions { width: side, height: side, depth: side };
    proof {
        lemma_axis_fits(cube);
    }
    let distance: isize = render_distance as isize;
    let start_x: isize = centre.x - distance;
    let end_x: isize = centre.x + distance;
    let start_y: isize = centre.y - distance;
    let end_y: isize = centre.y + distance;
    let start_z: isize = centre.z - distance;
    let end_z: isize = centre.z + distance;
    let total = cube.voxel_count();

    let mut chunks: Vec<bool> = Vec::new();
    while chunks.len() < total
        invariant
            chunks@.len() <= total,
            forall|n: int| 0 <= n < chunks@.len() ==> !chunks@[n],
        decreases total - chunks@.len(),
    {
        chunks.push(false);
    }

    let mut events: Vec<ChunkEvent> = Vec::new();
    let mut i: usize = 0;
    proof {
        assert(resident@.take(0).len() == 0);
    }
    while i < resident.len()
        invariant
            i <= resident.len(),
            cube == cube_dims(render_distance),
            cube.valid(),
            total == cube.volume(),
            distance == render_distance,
            2 * render_distance + 1 <= isize::MAX,
            isize::MIN <= centre.x - distance,
            isize::MIN <= centre.y - distance,
            isize::MIN <= centre.z - distance,
            centre.x + distance <= isize::MAX,
            centre.y + distance <= isize::MAX,
            centre.z + distance <= isize::MAX,
            start_x == centre.x - distance,
            end_x == centre.x + distance,
            start_y == centre.y - distance,
            end_y == centre.y + distance,
            start_z == centre.z - distance,
            end_z == centre.z + distance,
            chunks@.len() == total,
            forall|n: int|
                0 <= n < total ==> #[trigger] chunks@[n] == occupied(
                    resident@.take(i as int),
                    cube_coord(centre, render_distance, n),
                ),
            events@ == removals(resident@.take(i as int), centre, distance as int),
        decreases resident.len() - i,
    {
        let entity = resident[i].0;
        let t = resident[i].1.translation;
        let ghost before = resident@.take(i as int);
        let ghost after = resident@.take(i as int + 1);
        proof {
            assert(after.drop_last() =~= before);
            assert(after.last() == resident@[i as int]);
            assert forall|c: ChunkTranslation|
                occupied(after, c) == (occupied(before, c) || t == c) by {
                lemma_occupied_step(before, resident@[i as int], c);
                assert(after =~= before.push(resident@[i as int]));
            }
        }
        if start_x <= t.x && t.x <= end_x && start_y <= t.y && t.y <= end_y && start_z <= t.z
            && t.z <= end_z {
            let local = LocalPos {
                x: (t.x - start_x) as usize,
                y: (t.y - start_y) as usize,
                z: (t.z - start_z) as usize,
            };
            let n = cube.index(local);
            chunks.set(n, true);
            proof {
                cube.lemma_index_round_trip(local.x as int, local.y as int, local.z as int);
                assert(cube_coord(centre, render_distance, n as int) == t);
                assert forall|m: int| 0 <= m < total implies #[trigger] chunks@[m] == occupied(
                    after,
                    cube_coord(centre, render_distance, m),
                ) by {
                    if m != n as int {
                        cube.lemma_coordinates_of_index(m);
                        assert(cube_coord(centre, render_distance, m) != t);
                    }
                }
            }
        } else {
            events.push(ChunkEvent::Remove(entity));
            proof {
                assert forall|m: int| 0 <= m < total implies #[trigger] chunks@[m] == occupied(
                    after,
                    cube_coord(centre, render_distance, m),
                ) by {
                    cube.lemma_coordinates_of_index(m);
                    assert(cube_coord(centre, render_distance, m) != t);
                }
            }
        }
        i += 1;
    }
    proof {
        assert(resident@.take(resident@.len() as int) =~= resident@);
    }

    let ghost removed = events@;
    let ghost plane = cube.height * cube.depth;
    let mut done: usize = 0;
    proof {
        cube.lemma_plane_fits();
        assert(removed + loads_upto(resident@, centre, render_distance, chunk_dimensions, 0)
            =~= removed);
    }
    let mut xi: usize = 0;
    while xi < side
        invariant
            chunk_dimensions.valid(),
            cube == cube_dims(render_distance),
            cube.valid(),
            side == cube.width,
            side == 2 * render_distance + 1,
            side <= isize::MAX,
            plane == cube.height * cube.depth,
            total == cube.volume(),
            start_x == centre.x - render_distance,
            start_y == centre.y - render_distance,
            start_z == centre.z - render_distance,
            centre.x + render_distance <= isize::MAX,
            centre.y + render_distance <= isize::MAX,
            centre.z + render_distance <= isize::MAX,
            chunks@.len() == total,
            forall|n: int|
                0 <= n < total ==> #[trigger] chunks@[n] == occupied(
                    resident@,
                    cube_coord(centre, render_distance, n),
                ),
            xi <= side,
            done == xi * plane,
            done <= total,
            events@ == removed + loads_upto(
                resident@,
                centre,
                render_distance,
                chunk_dimensions,
                done as nat,
            ),
        decreases side - xi,
    {
        let mut yi: usize = 0;
        while yi < side
            invariant
                chunk_dimensions.valid(),
                cube == cube_dims(render_distance),
                cube.valid(),
                side == cube.width,
                side == 2 * render_distance + 1,
                side <= isize::MAX,
                plane == cube.height * cube.depth,
                total == cube.volume(),
                start_x == centre.x - render_distance,
                start_y == centre.y - render_distance,
                start_z == centre.z - render_distance,
                centre.x + render_distance <= isize::MAX,
                centre.y + render_distance <= isize::MAX,
                centre.z + render_distance <= isize::MAX,
                chunks@.len() == total,
                forall|n: int|
                    0 <= n < total ==> #[trigger] chunks@[n] == occupied(
                        resident@,
                        cube_coord(centre, render_distance, n),
                    ),
                xi < side,
                yi <= side,
                done == xi * plane + yi * side,
                done <= total,
                events@ == removed + loads_upto(
                    resident@,
                    centre,
                    render_distance,
                    chunk_dimensions,
                    done as nat,
                ),
            decreases side - yi,
        {
            let mut zi: usize = 0;
            while zi < side
                invariant
                    chunk_dimensions.valid(),
                    cube == cube_dims(render_distance),
                    cube.valid(),
                    side == cube.width,
                    side == 2 * render_distance + 1,
                    side <= isize::MAX,
                    plane == cube.height * cube.depth,
                    total == cube.volume(),
                    start_x == centre.x - render_distance,
                    start_y == centre.y - render_distance,
                    start_z == centre.z - render_distance,
                    centre.x + render_distance <= isize::MAX,
                    centre.y + render_distance <= isize::MAX,
                    centre.z + render_distance <= isize::MAX,
                    chunks@.len() == total,
                    forall|n: int|
                        0 <= n < total ==> #[trigger] chunks@[n] == occupied(
                            resident@,
                            cube_coord(centre, render_distance, n),
                        ),
                    xi < side,
                    yi < side,
                    zi <= side,
                    done == xi * plane + yi * side + zi,
                    done <= total,
                    events@ == removed + loads_upto(
                        resident@,
                        centre,
                        render_distance,
                        chunk_dimensions,
                        done as nat,
                    ),
                decreases side - zi,
            {
                proof {
                    cube.lemma_index_in_range(xi as int, yi as int, zi as int);
                    cube.lemma_index_round_trip(xi as int, yi as int, zi as int);
                }
                let translation = ChunkTranslation {
                    x: start_x + xi as isize,
                    y: start_y + yi as isize,
                    z: start_z + zi as isize,
                };
                assert(translation == cube_coord(centre, render_distance, done as int));
                let ghost so_far = loads_upto(
                    resident@,
                    centre,
                    render_distance,
                    chunk_dimensions,
                    done as nat,
                );
                if !chunks[done] {
                    let global_pos = translation.origin(chunk_dimensions);
                    events.push(ChunkEvent::Load(ChunkLoadData { translation, global_pos }));
                    proof {
                        assert(events@ =~= removed + so_far.push(
                            load_of(translation, chunk_dimensions),
                        ));
                    }
                }
                done += 1;
                zi += 1;
            }
            proof {
                assert(yi * side + side == (yi + 1) * side) by (nonlinear_arith);
            }
            yi += 1;
        }
        proof {
            assert(xi * plane + plane == (xi + 1) * plane) by (nonlinear_arith);
        }
        xi += 1;
    }
    proof {
        assert(side * plane == total) by {
            vstd::arithmetic::mul::lemma_mul_is_commutative(side as int, plane);
        }
    }
    events
}

/// A coordinate is occupied after one more chunk is represented if it was
/// occupied before or is the coordinate of that chunk.
pub proof fn lemma_occupied_step(
    resident: Seq<(Entity, ChunkMarker)>,
    next: (Entity, ChunkMarker),
    c: ChunkTranslation,
)
    ensures
        occupied(resident.push(next), c) == (occupied(resident, c) || next.1.translation == c),
{
    let longer = resident.push(next);
    if occupied(resident, c) {
        let i = choose|i: int|
            0 <= i < resident.len() && (#[trigger] resident[i]).1.translation == c;
        assert(longer[i].1.translation == c);
    }
    if next.1.translation == c {
        assert(longer[resident.len() as int].1.translation == c);
    }
    if occupied(longer, c) {
        let i = choose|i: int| 0 <= i < longer.len() && (#[trigger] longer[i]).1.translation == c;
        if i < resident.len() {
            assert(resident[i].1.translation == c);
        }
    }
}

/// The coordinates that are represented once `events` have been carried out:
/// those of the represented chunks that no removal names, and those that a
/// load names.
pub open spec fn represented_after(
    resident: Seq<(Entity, ChunkMarker)>,
    events: Seq<ChunkEvent>,
) -> Set<ChunkTranslation> {
    Set::new(
        |c: ChunkTranslation|
            (exists|i: int|
                0 <= i < resident.len() && (#[trigger] resident[i]).1.translation == c
                    && !events.contains(ChunkEvent::Remove(resident[i].0))) || (exists|k: int|
                0 <= k < events.len() && is_load_of(#[trigger] events[k], c)),
    )
}

/// Whether `event` loads the chunk at `c`.
pub open spec fn is_load_of(event: ChunkEvent, c: ChunkTranslation) -> bool {
    match event {
        ChunkEvent::Load(data) => data.translation == c,
        _ => false,
    }
}

/// The coordinates within `distance` of `centre` on every axis.
pub open spec fn cube_set(centre: ChunkTranslation, distance: int) -> Set<ChunkTranslation> {
    Set::new(|c: ChunkTranslation| in_cube(c, centre, distance))
}

/// No two represented chunks share an entity.
pub open spec fn distinct_entities(resident: Seq<(Entity, ChunkMarker)>) -> bool {
    forall|i: int, j: int|
        0 <= i < resident.len() && 0 <= j < resident.len() && i != j ==> (#[trigger] resident[i]).0
            != (#[trigger] resident[j]).0
}

/// Whether the represented chunk `entry` lies outside the cube.
pub open spec fn is_outside(
    entry: (Entity, ChunkMarker),
    centre: ChunkTranslation,
    distance: int,
) -> bool {
    !in_cube(entry.1.translation, centre, distance)
}

/// Whether `event` removes the entity of a represented chunk outside the
/// cube.
pub open spec fn removes_outsider(
    resident: Seq<(Entity, ChunkMarker)>,
    centre: ChunkTranslation,
    distance: int,
    event: ChunkEvent,
) -> bool {
    exists|i: int|
        0 <= i < resident.len() && is_outside(#[trigger] resident[i], centre, distance) && event
            == ChunkEvent::Remove(resident[i].0)
}

/// Whether `event` loads one of the first `count` coordinates of the cube,
/// one that no represented chunk has.
pub open spec fn loads_vacancy(
    resident: Seq<(Entity, ChunkMarker)>,
    centre: ChunkTranslation,
    render_distance: usize,
    dims: ChunkDimensions,
    count: nat,
    event: ChunkEvent,
) -> bool {
    exists|m: int|
        0 <= m < count && !occupied(resident, #[trigger] cube_coord(centre, render_distance, m))
            && event == load_of(cube_coord(centre, render_distance, m), dims)
}

/// The removals name exactly the entities of the represented chunks outside
/// the cube, and hold nothing but removals.
pub proof fn lemma_removals_members(
    resident: Seq<(Entity, ChunkMarker)>,
    centre: ChunkTranslation,
    distance: int,
)
    ensures
        forall|i: int|
            0 <= i < resident.len() && is_outside(#[trigger] resident[i], centre, distance)
                ==> removals(resident, centre, distance).contains(
                ChunkEvent::Remove(resident[i].0),
            ),
        forall|k: int|
            0 <= k < removals(resident, centre, distance).len() ==> removes_outsider(
                resident,
                centre,
                distance,
                #[trigger] removals(resident, centre, distance)[k],
            ),
    decreases resident.len(),
{
    if resident.len() > 0 {
        let shorter = resident.drop_last();
        let rest = removals(shorter, centre, distance);
        let all = removals(resident, centre, distance);
        let last = resident.len() - 1;
        lemma_removals_members(shorter, centre, distance);
        assert forall|i: int|
            0 <= i < resident.len() && is_outside(#[trigger] resident[i], centre, distance)
            implies all.contains(ChunkEvent::Remove(resident[i].0)) by {
            if i < last {
                assert(shorter[i] == resident[i]);
                let k = choose|k: int|
                    0 <= k < rest.len() && rest[k] == ChunkEvent::Remove(shorter[i].0);
                assert(all[k] == ChunkEvent::Remove(resident[i].0));
            } else {
                assert(all[rest.len() as int] == ChunkEvent::Remove(resident[i].0));
            }
        }
        assert forall|k: int| 0 <= k < all.len() implies removes_outsider(
            resident,
            centre,
            distance,
            #[trigger] all[k],
        ) by {
            if k < rest.len() {
                assert(removes_outsider(shorter, centre, distance, rest[k]));
                let i = choose|i: int|
                    0 <= i < shorter.len() && !in_cube(
                        (#[trigger] shorter[i]).1.translation,
                        centre,
                        distance,
                    ) && rest[k] == ChunkEvent::Remove(shorter[i].0);
                assert(resident[i] == shorter[i]);
            } else {
                assert(all[k] == ChunkEvent::Remove(resident[last].0));
            }
        }
    }
}

/// The loads among the first `count` coordinates of the cube are exactly the
/// loads of those of them that no represented chunk has.
pub proof fn lemma_loads_members(
    resident: Seq<(Entity, ChunkMarker)>,
    centre: ChunkTranslation,
    render_distance: usize,
    dims: ChunkDimensions,
    count: nat,
)
    ensures
        forall|m: int|
            0 <= m < count && !occupied(resident, #[trigger] cube_coord(centre, render_distance, m))
                ==> loads_upto(resident, centre, render_distance, dims, count).contains(
                load_of(cube_coord(centre, render_distance, m), dims),
            ),
        forall|k: int|
            0 <= k < loads_upto(resident, centre, render_distance, dims, count).len()
                ==> loads_vacancy(
                resident,
                centre,
                render_distance,
                dims,
                count,
                #[trigger] loads_upto(resident, centre, render_distance, dims, count)[k],
            ),
    decreases count,
{
    if count > 0 {
        let rest = loads_upto(resident, centre, render_distance, dims, (count - 1) as nat);
        let all = loads_upto(resident, centre, render_distance, dims, count);
        let last = count - 1;
        lemma_loads_members(resident, centre, render_distance, dims, (count - 1) as nat);
        assert forall|m: int|
            0 <= m < count && !occupied(
                resident,
                #[trigger] cube_coord(centre, render_distance, m),
            ) implies all.contains(load_of(cube_coord(centre, render_distance, m), dims)) by {
            if m < last {
                let k = choose|k: int|
                    0 <= k < rest.len() && rest[k] == load_of(
                        cube_coord(centre, render_distance, m),
                        dims,
                    );
                assert(all[k] == rest[k]);
            } else {
                assert(all[rest.len() as int] == load_of(
                    cube_coord(centre, render_distance, m),
                    dims,
                ));
            }
        }
        assert forall|k: int| 0 <= k < all.len() implies loads_vacancy(
            resident,
            centre,
            render_distance,
            dims,
            count,
            #[trigger] all[k],
        ) by {
            if k < rest.len() {
                assert(loads_vacancy(
                    resident,
                    centre,
                    render_distance,
                    dims,
                    (count - 1) as nat,
                    rest[k],
                ));
                let m = choose|m: int|
                    0 <= m < count - 1 && !occupied(
                        resident,
                        #[trigger] cube_coord(centre, render_distance, m),
                    ) && rest[k] == load_of(cube_coord(centre, render_distance, m), dims);
                assert(all[k] == rest[k]);
            } else {
                assert(all[k] == load_of(cube_coord(centre, render_distance, last), dims));
            }
        }
    }
}

/// Counting the cube reaches every coordinate of it once: the number `n`
/// names a coordinate of the cube, different numbers name different
/// coordinates, and every coordinate of the cube has a number.
pub proof fn lemma_cube_is_counted(centre: ChunkTranslation, render_distance: usize)
    requires
        streamable(centre, render_distance),
    ensures
        forall|n: int|
            0 <= n < cube_dims(render_distance).volume() ==> in_cube(
                #[trigger] cube_coord(centre, render_distance, n),
                centre,
                render_distance as int,
            ),
        forall|n: int, m: int|
            0 <= n < cube_dims(render_distance).volume() && 0 <= m < cube_dims(
                render_distance,
            ).volume() && n != m ==> #[trigger] cube_coord(centre, render_distance, n)
                != #[trigger] cube_coord(centre, render_distance, m),
        forall|c: ChunkTranslation|
            in_cube(c, centre, render_distance as int) ==> 0 <= number_in_cube(
                c,
                centre,
                render_distance,
            ) < cube_dims(render_distance).volume() && cube_coord(
                centre,
                render_distance,
                #[trigger] number_in_cube(c, centre, render_distance),
            ) == c,
{
    let cube = cube_dims(render_distance);
    assert forall|n: int| 0 <= n < cube.volume() implies in_cube(
        #[trigger] cube_coord(centre, render_distance, n),
        centre,
        render_distance as int,
    ) by {
        cube.lemma_coordinates_of_index(n);
    }
    assert forall|n: int, m: int|
        0 <= n < cube.volume() && 0 <= m < cube.volume() && n != m
        implies #[trigger] cube_coord(centre, render_distance, n)
        != #[trigger] cube_coord(centre, render_distance, m) by {
        cube.lemma_coordinates_of_index(n);
        cube.lemma_coordinates_of_index(m);
    }
    assert forall|c: ChunkTranslation| in_cube(c, centre, render_distance as int) implies 0
        <= number_in_cube(c, centre, render_distance) < cube.volume() && cube_coord(
        centre,
        render_distance,
        #[trigger] number_in_cube(c, centre, render_distance),
    ) == c by {
        let x = c.x - (centre.x - render_distance);
        let y = c.y - (centre.y - render_distance);
        let z = c.z - (centre.z - render_distance);
        cube.lemma_index_in_range(x, y, z);
        cube.lemma_index_round_trip(x, y, z);
    }
}

/// The number under which the cube around `centre` counts the coordinate `c`.
pub open spec fn number_in_cube(
    c: ChunkTranslation,
    centre: ChunkTranslation,
    render_distance: usize,
) -> int {
    cube_dims(render_distance).index_of(
        c.x - (centre.x - render_distance),
        c.y - (centre.y - render_distance),
        c.z - (centre.z - render_distance),
    )
}

/// The cube around `centre` has `(2 * distance + 1)` cubed coordinates.
pub proof fn lemma_cube_size(centre: ChunkTranslation, render_distance: usize)
    requires
        streamable(centre, render_distance),
    ensures
        cube_set(centre, render_distance as int).finite(),
        cube_set(centre, render_distance as int).len() == (2 * render_distance + 1) * (2
            * render_distance + 1) * (2 * render_distance + 1),
{
    let cube = cube_dims(render_distance);
    let numbers = vstd::set_lib::set_int_range(0, cube.volume());
    let name = |n: int| cube_coord(centre, render_distance, n);
    lemma_cube_is_counted(centre, render_distance);
    vstd::set_lib::lemma_int_range(0, cube.volume());
    assert(vstd::relations::injective_on(name, numbers)) by {
        assert forall|n: int, m: int| #![all_triggers]
            numbers.contains(n) && numbers.contains(m) && name(n) == name(m) implies n == m by {
            if n != m {
                assert(cube_coord(centre, render_distance, n) != cube_coord(
                    centre,
                    render_distance,
                    m,
                ));
            }
        }
    }
    assert(numbers.map(name) =~= cube_set(centre, render_distance as int)) by {
        assert forall|c: ChunkTranslation|
            cube_set(centre, render_distance as int).contains(c) implies numbers.map(name).contains(
            c,
        ) by {
            let n = number_in_cube(c, centre, render_distance);
            assert(numbers.contains(n) && name(n) == c);
        }
        assert forall|c: ChunkTranslation| numbers.map(name).contains(c) implies cube_set(
            centre,
            render_distance as int,
        ).contains(c) by {
            let n = choose|n: int| numbers.contains(n) && name(n) == c;
            assert(in_cube(cube_coord(centre, render_distance, n), centre, render_distance as int));
        }
    }
    vstd::set_lib::lemma_map_size(numbers, cube_set(centre, render_distance as int), name);
}

/// Streaming converges: once the intents of `mark_chunks` have been carried
/// out, the represented coordinates are exactly the cube around the
/// observer's chunk, no more and no fewer, which are `(2 * distance + 1)`
/// cubed coordinates.
pub proof fn lemma_streaming_converges(
    resident: Seq<(Entity, ChunkMarker)>,
    centre: ChunkTranslation,
    render_distance: usize,
    dims: ChunkDimensions,
)
    requires
        streamable(centre, render_distance),
        distinct_entities(resident),
    ensures
        represented_after(resident, stream_events(resident, centre, render_distance, dims))
            == cube_set(centre, render_distance as int),
        cube_set(centre, render_distance as int).finite(),
        cube_set(centre, render_distance as int).len() == (2 * render_distance + 1) * (2
            * render_distance + 1) * (2 * render_distance + 1),
{
    let distance = render_distance as int;
    let total = cube_dims(render_distance).volume() as nat;
    let removed = removals(resident, centre, distance);
    let loaded = loads_upto(resident, centre, render_distance, dims, total);
    let events = stream_events(resident, centre, render_distance, dims);
    let after = represented_after(resident, events);
    let cube = cube_set(centre, distance);
    lemma_cube_size(centre, render_distance);
    lemma_cube_is_counted(centre, render_distance);
    lemma_removals_members(resident, centre, distance);
    lemma_loads_members(resident, centre, render_distance, dims, total);
    assert forall|c: ChunkTranslation| cube.contains(c) implies after.contains(c) by {
        if occupied(resident, c) {
            let i = choose|i: int|
                0 <= i < resident.len() && (#[trigger] resident[i]).1.translation == c;
            if events.contains(ChunkEvent::Remove(resident[i].0)) {
                let k = choose|k: int|
                    0 <= k < events.len() && events[k] == ChunkEvent::Remove(resident[i].0);
                if k < removed.len() {
                    assert(events[k] == removed[k]);
                    assert(removes_outsider(resident, centre, distance, removed[k]));
                    let j = choose|j: int|
                        0 <= j < resident.len() && !in_cube(
                            (#[trigger] resident[j]).1.translation,
                            centre,
                            distance,
                        ) && removed[k] == ChunkEvent::Remove(resident[j].0);
                    assert(resident[j].0 == resident[i].0);
                    assert(false);
                } else {
                    assert(events[k] == loaded[k - removed.len()]);
                    assert(loads_vacancy(
                        resident,
                        centre,
                        render_distance,
                        dims,
                        total,
                        loaded[k - removed.len()],
                    ));
                    assert(false);
                }
            }
        } else {
            let n = number_in_cube(c, centre, render_distance);
            assert(cube_coord(centre, render_distance, n) == c);
            let k = choose|k: int| 0 <= k < loaded.len() && loaded[k] == load_of(c, dims);
            assert(events[removed.len() + k] == loaded[k]);
            assert(is_load_of(events[removed.len() + k], c));
        }
    }
    assert forall|c: ChunkTranslation| after.contains(c) implies cube.contains(c) by {
        if exists|i: int|
            0 <= i < resident.len() && (#[trigger] resident[i]).1.translation == c
                && !events.contains(ChunkEvent::Remove(resident[i].0)) {
            let i = choose|i: int|
                0 <= i < resident.len() && (#[trigger] resident[i]).1.translation == c
                    && !events.contains(ChunkEvent::Remove(resident[i].0));
            if !in_cube(c, centre, distance) {
                let k = choose|k: int|
                    0 <= k < removed.len() && removed[k] == ChunkEvent::Remove(resident[i].0);
                assert(events[k] == removed[k]);
                assert(false);
            }
        } else {
            let k = choose|k: int| 0 <= k < events.len() && is_load_of(#[trigger] events[k], c);
            if k < removed.len() {
                assert(events[k] == removed[k]);
                assert(removes_outsider(resident, centre, distance, removed[k]));
                assert(false);
            } else {
                let at = k - removed.len();
                assert(events[k] == loaded[at]);
                assert(loads_vacancy(resident, centre, render_distance, dims, total, loaded[at]));
                let m = choose|m: int|
                    0 <= m < total && !occupied(
                        resident,
                        #[trigger] cube_coord(centre, render_distance, m),
                    ) && loaded[at] == load_of(cube_coord(centre, render_distance, m), dims);
                assert(cube_coord(centre, render_distance, m) == c);
            }
        }
    }
    assert(after =~= cube);
}

/// The chunk that the observer was in when the neighbourhood was last worked
/// out, if it ever was.
#[derive(Clone, Copy, Debug)]
pub struct ObserverTracker {
    pub chunk: Option<ChunkTranslation>,
}

impl ObserverTracker {
    /// A tracker that has seen no position yet.
    pub fn new() -> (tracker: ObserverTracker)
        ensures
            tracker.chunk.is_none(),
    {
        ObserverTracker { chunk: None }
    }
}

/// Notes the chunk of the observer's position and tells whether it differs
/// from the chunk noted before. The neighbourhood has to be worked out again
/// only when it does.
pub fn track_player_chunk(
    tracker: &mut ObserverTracker,
    observer: BlockPos,
    chunk_dimensions: ChunkDimensions,
) -> (moved: bool)
    requires
        chunk_dimensions.valid(),
    ensures
        final(tracker).chunk == Some(ChunkTranslation::containing(observer, chunk_dimensions)),
        moved == (old(tracker).chunk != Some(
            ChunkTranslation::containing(observer, chunk_dimensions),
        )),
{
    let now = ChunkTranslation::get_chunk_translation(observer, chunk_dimensions);
    let moved = match tracker.chunk {
        Some(before) => !(before == now),
        None => true,
    };
    tracker.chunk = Some(now);
    moved
}

/// Whether `c - distance` and `c + distance` are grid coordinates.
fn axis_in_reach(c: isize, distance: isize) -> (ok: bool)
    requires
        distance >= 0,
    ensures
        ok == (isize::MIN <= c - distance && c + distance <= isize::MAX),
{
    c.checked_sub(distance).is_some() && c.checked_add(distance).is_some()
}

} // verus!
