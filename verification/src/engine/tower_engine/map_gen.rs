//! Laying out a floor: rooms joined by corridors, and the fog of war the party
//! lifts as it walks.

use vstd::prelude::*;
use crate::data::game_data::GameData;
use crate::engine::tower_engine::camp::{room_index_at, room_index};
use crate::engine::tower_engine::map_objects::{add_map_objects, floor_stocked};
use crate::engine::tower_engine::walks::{
    lemma_center_inside, lemma_reaches_along_column, lemma_reaches_along_row, lemma_reaches_here, lemma_reaches_join,
    lemma_reaches_in_room, lemma_reaches_kept, lemma_room_open_kept, lemma_rooms_joined_kept, reaches, room_open, rooms_joined, walkable_kept,
};
use crate::state::game::GameState;
use crate::state::tower_map::{
    MAX_MAP_SIDE, rng_draw, rng_step, rooms_fit, TowerMapRng, TowerMapState, TowerRoom, TowerTileKind, TowerTileVisibility,
};
use crate::state::tower_run::TowerRunGoal;

verus! {

/// Only the tiles of `a` may differ in `b`, and the grid keeps its size.
pub open spec fn tiles_only(a: TowerMapState, b: TowerMapState) -> bool {
    &&& b == TowerMapState { tiles: b.tiles, ..a }
    &&& b.tiles@.len() == a.tiles@.len()
}

/// Only the fog of war of `a` may differ in `b`, and it keeps its size.
pub open spec fn fog_only(a: TowerMapState, b: TowerMapState) -> bool {
    &&& b == TowerMapState { visibility: b.visibility, ..a }
    &&& b.visibility@.len() == a.visibility@.len()
}

/// No walkable tile of `a` is walled up in `b`.
pub open spec fn keeps_walkable(a: TowerMapState, b: TowerMapState) -> bool {
    &&& b.tiles@.len() == a.tiles@.len()
    &&& forall|i: int| 0 <= i < a.tiles@.len() && a.tiles@[i] != TowerTileKind::Wall ==> #[trigger] b.tiles@[i] != TowerTileKind::Wall
}

/// Every tile strictly inside `room`'s walls can be walked on.
pub open spec fn interior_open(map: TowerMapState, room: TowerRoom) -> bool {
    forall|x: u32, y: u32| room.start_x < x && x + 1 < room.start_x + room.width && room.start_y < y
        && y + 1 < room.start_y + room.height ==> #[trigger] map.spec_passable(x, y)
}

/// The first room is open inside and at least three tiles across each way.
pub open spec fn first_room_open(map: TowerMapState) -> bool {
    map.rooms@.len() > 0 ==> interior_open(map, map.rooms@[0]) && map.rooms@[0].width >= 3 && map.rooms@[0].height >= 3
}

pub proof fn lemma_keeps_trans(a: TowerMapState, b: TowerMapState, c: TowerMapState)
    requires
        keeps_walkable(a, b),
        keeps_walkable(b, c),
    ensures
        keeps_walkable(a, c),
{
    assert forall|i: int| 0 <= i < a.tiles@.len() && a.tiles@[i] != TowerTileKind::Wall implies #[trigger] c.tiles@[i] != TowerTileKind::Wall by {
        assert(b.tiles@[i] != TowerTileKind::Wall);
    }
}

pub proof fn lemma_open_kept(a: TowerMapState, b: TowerMapState, room: TowerRoom)
    requires
        keeps_walkable(a, b),
        a.width == b.width,
        a.height == b.height,
        interior_open(a, room),
    ensures
        interior_open(b, room),
{
    assert forall|x: u32, y: u32| room.start_x < x && x + 1 < room.start_x + room.width && room.start_y < y
        && y + 1 < room.start_y + room.height implies #[trigger] b.spec_passable(x, y) by {
        assert(a.spec_passable(x, y));
    }
}

/// How many rooms a floor tries for: eight, one more per two floors up to
/// five more, adjusted by the run's goal.
pub open spec fn spec_room_target(floor: u32, goal: TowerRunGoal) -> u32 {
    let base = 8 + (if floor / 2 <= 5 { floor / 2 } else { 5 });
    (match goal {
        TowerRunGoal::Scout => base + 2,
        TowerRunGoal::PushDeeper => base + 1,
        TowerRunGoal::SafeRun => base - 1,
        _ => base,
    }) as u32
}

pub fn room_target(floor: u32, goal: TowerRunGoal) -> (n: u32)
    ensures
        n == spec_room_target(floor, goal),
{
    let half = floor / 2;
    let base: u32 = 8 + if half <= 5 { half } else { 5 };
    match goal {
        TowerRunGoal::Scout => base + 2,
        TowerRunGoal::PushDeeper => base + 1,
        TowerRunGoal::SafeRun => base - 1,
        _ => base,
    }
}

/// Tile `(x, y)` lies strictly inside `room`'s walls.
pub open spec fn inside_walls(room: TowerRoom, x: u32, y: u32) -> bool {
    room.start_x < x && x + 1 < room.start_x + room.width && room.start_y < y && y + 1 < room.start_y + room.height
}

/// The tile at `(x, y)` once the inside of `room` has been turned into floor.
pub open spec fn room_floor(map: TowerMapState, room: TowerRoom, x: u32, y: u32) -> TowerTileKind {
    if map.in_bounds(x, y) && inside_walls(room, x, y) { TowerTileKind::Floor } else { map.spec_tile(x, y) }
}

/// Turns the inside of `room` into floor.
fn carve_room(map: &mut TowerMapState, room: TowerRoom)
    requires
        old(map).wf(),
        room.start_x + room.width <= MAX_MAP_SIDE,
        room.start_y + room.height <= MAX_MAP_SIDE,
    ensures
        final(map).wf(),
        tiles_only(*old(map), *final(map)),
        keeps_walkable(*old(map), *final(map)),
        room.start_x + room.width <= old(map).width && room.start_y + room.height <= old(map).height
            ==> interior_open(*final(map), room),
        forall|x2: u32, y2: u32| #[trigger] final(map).spec_tile(x2, y2) == room_floor(*old(map), room, x2, y2),
{
    let mut x: u32 = room.start_x + 1;
    while x + 1 < room.start_x + room.width
        invariant
            map.wf(),
            tiles_only(*old(map), *map),
            keeps_walkable(*old(map), *map),
            room.start_x + room.width <= MAX_MAP_SIDE,
            room.start_y + room.height <= MAX_MAP_SIDE,
            x <= room.start_x + room.width + 1,
            room.start_x < x,
            room.start_x + room.width <= old(map).width && room.start_y + room.height <= old(map).height ==>
                forall|x2: u32, y2: u32| room.start_x < x2 && x2 < x && x2 + 1 < room.start_x + room.width && room.start_y < y2
                    && y2 + 1 < room.start_y + room.height ==> #[trigger] map.spec_passable(x2, y2),
            forall|x2: u32, y2: u32| #[trigger] map.spec_tile(x2, y2)
                == if x2 < x { room_floor(*old(map), room, x2, y2) } else { old(map).spec_tile(x2, y2) },
        decreases room.start_x + room.width - x,
    {
        let mut y: u32 = room.start_y + 1;
        while y + 1 < room.start_y + room.height
            invariant
                map.wf(),
                tiles_only(*old(map), *map),
                keeps_walkable(*old(map), *map),
                room.start_y + room.height <= MAX_MAP_SIDE,
                room.start_x + room.width <= MAX_MAP_SIDE,
                y <= room.start_y + room.height + 1,
                room.start_y < y,
                room.start_x < x,
                x + 1 < room.start_x + room.width,
                room.start_x + room.width <= old(map).width && room.start_y + room.height <= old(map).height ==>
                    forall|x2: u32, y2: u32| room.start_x < x2 && x2 + 1 < room.start_x + room.width && room.start_y < y2
                        && y2 + 1 < room.start_y + room.height && (x2 < x || (x2 == x && y2 < y)) ==> #[trigger] map.spec_passable(x2, y2),
                forall|x2: u32, y2: u32| #[trigger] map.spec_tile(x2, y2)
                    == if x2 < x || (x2 == x && y2 < y) { room_floor(*old(map), room, x2, y2) } else { old(map).spec_tile(x2, y2) },
            decreases room.start_y + room.height - y,
        {
            let ghost before = *map;
            map.set_tile(x, y, TowerTileKind::Floor);
            proof {
                lemma_set_one_tile(before, *map, x, y, TowerTileKind::Floor);
                assert forall|x2: u32, y2: u32| #[trigger] map.spec_tile(x2, y2)
                    == if x2 < x || (x2 == x && y2 < y + 1) { room_floor(*old(map), room, x2, y2) } else { old(map).spec_tile(x2, y2) } by {
                    assert(before.spec_tile(x2, y2) == if x2 < x || (x2 == x && y2 < y) { room_floor(*old(map), room, x2, y2) } else { old(map).spec_tile(x2, y2) });
                }
                if before.in_bounds(x, y) {
                    assert(y * before.width + x < before.width * before.height) by (nonlinear_arith)
                        requires y < before.height, x < before.width;
                }
                assert forall|x2: u32, y2: u32| before.spec_passable(x2, y2) implies #[trigger] map.spec_passable(x2, y2) by {
                    let j = before.index_of(x2, y2);
                    assert(before.spec_tile(x2, y2) != TowerTileKind::Wall);
                    assert(0 <= j < before.tiles@.len());
                    if before.in_bounds(x, y) {
                        if j == before.index_of(x, y) {
                            assert(map.tiles@[j] == TowerTileKind::Floor);
                        } else {
                            assert(map.tiles@[j] == before.tiles@[j]);
                        }
                    } else {
                        assert(map.tiles@ == before.tiles@);
                    }
                }
                if map.in_bounds(x, y) {
                    assert(y * map.width + x < map.width * map.height) by (nonlinear_arith)
                        requires y < map.height, x < map.width;
                    assert(map.tiles@[map.index_of(x, y)] == TowerTileKind::Floor);
                    assert(map.spec_passable(x, y));
                }
                assert forall|i: int| 0 <= i < old(map).tiles@.len() && old(map).tiles@[i] != TowerTileKind::Wall
                    implies #[trigger] map.tiles@[i] != TowerTileKind::Wall by {
                    assert(before.tiles@[i] != TowerTileKind::Wall);
                    if before.in_bounds(x, y) && i == before.index_of(x, y) {
                    } else if before.in_bounds(x, y) {
                        assert(map.tiles@[i] == before.tiles@[i]);
                    }
                }
            }
            y += 1;
        }
        x += 1;
    }
}

/// The tile at `(x, y)` once a corridor through the tiles that `hit` marks
/// has been dug into `map`: walls on the map become corridor.
pub open spec fn dug(map: TowerMapState, x: u32, y: u32, hit: bool) -> TowerTileKind {
    if hit && map.in_bounds(x, y) && map.spec_tile(x, y) == TowerTileKind::Wall {
        TowerTileKind::Corridor
    } else {
        map.spec_tile(x, y)
    }
}

/// Tile `(x, y)` lies on the row `row` between `from_x` and `to_x`, ends included.
pub open spec fn on_row(x: u32, y: u32, from_x: u32, to_x: u32, row: u32) -> bool {
    y == row && ((from_x <= x && x <= to_x) || (to_x <= x && x <= from_x))
}

/// Tile `(x, y)` lies on the column `col` between `from_y` and `to_y`, ends included.
pub open spec fn on_column(x: u32, y: u32, from_y: u32, to_y: u32, col: u32) -> bool {
    x == col && ((from_y <= y && y <= to_y) || (to_y <= y && y <= from_y))
}

/// The two legs of the corridor from `start` to `end`: along the start's row
/// then down the end's column, or down the start's column then along the
/// end's row.
pub open spec fn on_corridor(x: u32, y: u32, start: (u32, u32), end: (u32, u32), row_first: bool) -> bool {
    if row_first {
        on_row(x, y, start.0, end.0, start.1) || on_column(x, y, start.1, end.1, end.0)
    } else {
        on_column(x, y, start.1, end.1, start.0) || on_row(x, y, start.0, end.0, end.1)
    }
}

/// A corridor whose tiles are all walkable leads from its start to its end.
pub proof fn lemma_reaches_by_corridor(map: TowerMapState, start: (u32, u32), end: (u32, u32), row_first: bool)
    requires
        map.in_bounds(start.0, start.1),
        map.in_bounds(end.0, end.1),
        forall|x: u32, y: u32| map.in_bounds(x, y) && on_corridor(x, y, start, end, row_first) ==> #[trigger] map.spec_passable(x, y),
    ensures
        reaches(map, start, end),
{
    if row_first {
        assert forall|x: u32| ((start.0 <= x && x <= end.0) || (end.0 <= x && x <= start.0))
            implies #[trigger] map.spec_passable(x, start.1) by {
            assert(on_corridor(x, start.1, start, end, row_first));
        }
        lemma_reaches_along_row(map, start.1, start.0, end.0);
        assert forall|y: u32| ((start.1 <= y && y <= end.1) || (end.1 <= y && y <= start.1))
            implies #[trigger] map.spec_passable(end.0, y) by {
            assert(on_corridor(end.0, y, start, end, row_first));
        }
        lemma_reaches_along_column(map, end.0, start.1, end.1);
        lemma_reaches_join(map, start, (end.0, start.1), end);
    } else {
        assert forall|y: u32| ((start.1 <= y && y <= end.1) || (end.1 <= y && y <= start.1))
            implies #[trigger] map.spec_passable(start.0, y) by {
            assert(on_corridor(start.0, y, start, end, row_first));
        }
        lemma_reaches_along_column(map, start.0, start.1, end.1);
        assert forall|x: u32| ((start.0 <= x && x <= end.0) || (end.0 <= x && x <= start.0))
            implies #[trigger] map.spec_passable(x, end.1) by {
            assert(on_corridor(x, end.1, start, end, row_first));
        }
        lemma_reaches_along_row(map, end.1, start.0, end.0);
        lemma_reaches_join(map, start, (start.0, end.1), end);
    }
}

/// The coin that decides which leg of a corridor is dug first.
pub open spec fn corridor_coin(state: u64) -> bool {
    rng_draw(rng_step(state)) % 2 < 1
}

/// Setting one tile of a map changes what reads at that tile and nowhere else.
proof fn lemma_set_one_tile(a: TowerMapState, b: TowerMapState, x: u32, y: u32, k: TowerTileKind)
    requires
        a.wf(),
        b.width == a.width,
        b.height == a.height,
        b.tiles@ == if a.in_bounds(x, y) { a.tiles@.update(a.index_of(x, y), k) } else { a.tiles@ },
    ensures
        forall|x2: u32, y2: u32| #[trigger] b.spec_tile(x2, y2) == if x2 == x && y2 == y && a.in_bounds(x, y) {
            k
        } else {
            a.spec_tile(x2, y2)
        },
{
    assert forall|x2: u32, y2: u32| #[trigger] b.spec_tile(x2, y2) == if x2 == x && y2 == y && a.in_bounds(x, y) {
        k
    } else {
        a.spec_tile(x2, y2)
    } by {
        if a.in_bounds(x2, y2) {
            assert(y2 * a.width + x2 < a.width * a.height) by (nonlinear_arith)
                requires y2 < a.height, x2 < a.width;
            assert(0 <= a.index_of(x2, y2) < a.tiles@.len());
            if a.in_bounds(x, y) {
                assert(y * a.width + x < a.width * a.height) by (nonlinear_arith)
                    requires y < a.height, x < a.width;
                if x2 == x && y2 == y {
                    assert(b.tiles@[a.index_of(x, y)] == k);
                } else {
                    assert(y2 * a.width + x2 != y * a.width + x) by (nonlinear_arith)
                        requires x2 < a.width, x < a.width, !(x2 == x && y2 == y);
                    assert(b.tiles@[a.index_of(x2, y2)] == a.tiles@[a.index_of(x2, y2)]);
                }
            } else {
                assert(b.tiles@ == a.tiles@);
            }
            assert(b.index_of(x2, y2) == a.index_of(x2, y2));
        }
    }
}

fn carve_corridor_tile(map: &mut TowerMapState, x: u32, y: u32)
    requires
        old(map).wf(),
    ensures
        final(map).wf(),
        tiles_only(*old(map), *final(map)),
        keeps_walkable(*old(map), *final(map)),
        forall|x2: u32, y2: u32| #[trigger] final(map).spec_tile(x2, y2) == dug(*old(map), x2, y2, x2 == x && y2 == y),
{
    if map.tile_at(x, y) == TowerTileKind::Wall {
        let ghost before = *map;
        map.set_tile(x, y, TowerTileKind::Corridor);
        proof {
            lemma_set_one_tile(before, *map, x, y, TowerTileKind::Corridor);
            if before.in_bounds(x, y) {
                assert(y * before.width + x < before.width * before.height) by (nonlinear_arith)
                    requires y < before.height, x < before.width;
            }
            assert forall|i: int| 0 <= i < before.tiles@.len() && before.tiles@[i] != TowerTileKind::Wall
                implies #[trigger] map.tiles@[i] != TowerTileKind::Wall by {
                if before.in_bounds(x, y) && i != before.index_of(x, y) {
                    assert(map.tiles@[i] == before.tiles@[i]);
                }
            }
        }
    }
}

fn carve_horizontal(map: &mut TowerMapState, from_x: u32, to_x: u32, y: u32)
    requires
        old(map).wf(),
    ensures
        final(map).wf(),
        tiles_only(*old(map), *final(map)),
        keeps_walkable(*old(map), *final(map)),
        forall|x2: u32, y2: u32| #[trigger] final(map).spec_tile(x2, y2)
            == dug(*old(map), x2, y2, on_row(x2, y2, from_x, to_x, y)),
{
    let start: u64 = if from_x <= to_x { from_x as u64 } else { to_x as u64 };
    let end: u64 = if from_x <= to_x { to_x as u64 } else { from_x as u64 };
    let mut x: u64 = start;
    while x <= end
        invariant
            map.wf(),
            tiles_only(*old(map), *map),
            keeps_walkable(*old(map), *map),
            end <= u32::MAX,
            start <= x <= end + 1,
            start == (if from_x <= to_x { from_x } else { to_x }),
            end == (if from_x <= to_x { to_x } else { from_x }),
            forall|x2: u32, y2: u32| #[trigger] map.spec_tile(x2, y2)
                == dug(*old(map), x2, y2, y2 == y && start <= x2 < x),
        decreases end + 1 - x,
    {
        let ghost before = *map;
        carve_corridor_tile(map, x as u32, y);
        proof {
            lemma_keeps_trans(*old(map), before, *map);
            assert forall|x2: u32, y2: u32| #[trigger] map.spec_tile(x2, y2)
                == dug(*old(map), x2, y2, y2 == y && start <= x2 < x + 1) by {
                assert(map.spec_tile(x2, y2) == dug(before, x2, y2, x2 == x && y2 == y));
                assert(before.spec_tile(x2, y2) == dug(*old(map), x2, y2, y2 == y && start <= x2 < x));
            }
        }
        x += 1;
    }
    proof {
        assert forall|x2: u32, y2: u32| #[trigger] map.spec_tile(x2, y2)
            == dug(*old(map), x2, y2, on_row(x2, y2, from_x, to_x, y)) by {
            assert(map.spec_tile(x2, y2) == dug(*old(map), x2, y2, y2 == y && start <= x2 < x));
        }
    }
}

fn carve_vertical(map: &mut TowerMapState, from_y: u32, to_y: u32, x: u32)
    requires
        old(map).wf(),
    ensures
        final(map).wf(),
        tiles_only(*old(map), *final(map)),
        keeps_walkable(*old(map), *final(map)),
        forall|x2: u32, y2: u32| #[trigger] final(map).spec_tile(x2, y2)
            == dug(*old(map), x2, y2, on_column(x2, y2, from_y, to_y, x)),
{
    let start: u64 = if from_y <= to_y { from_y as u64 } else { to_y as u64 };
    let end: u64 = if from_y <= to_y { to_y as u64 } else { from_y as u64 };
    let mut y: u64 = start;
    while y <= end
        invariant
            map.wf(),
            tiles_only(*old(map), *map),
            keeps_walkable(*old(map), *map),
            end <= u32::MAX,
            start <= y <= end + 1,
            start == (if from_y <= to_y { from_y } else { to_y }),
            end == (if from_y <= to_y { to_y } else { from_y }),
            forall|x2: u32, y2: u32| #[trigger] map.spec_tile(x2, y2)
                == dug(*old(map), x2, y2, x2 == x && start <= y2 < y),
        decreases end + 1 - y,
    {
        let ghost before = *map;
        carve_corridor_tile(map, x, y as u32);
        proof {
            lemma_keeps_trans(*old(map), before, *map);
            assert forall|x2: u32, y2: u32| #[trigger] map.spec_tile(x2, y2)
                == dug(*old(map), x2, y2, x2 == x && start <= y2 < y + 1) by {
                assert(map.spec_tile(x2, y2) == dug(before, x2, y2, x2 == x && y2 == y));
                assert(before.spec_tile(x2, y2) == dug(*old(map), x2, y2, x2 == x && start <= y2 < y));
            }
        }
        y += 1;
    }
    proof {
        assert forall|x2: u32, y2: u32| #[trigger] map.spec_tile(x2, y2)
            == dug(*old(map), x2, y2, on_column(x2, y2, from_y, to_y, x)) by {
            assert(map.spec_tile(x2, y2) == dug(*old(map), x2, y2, x2 == x && start <= y2 < y));
        }
    }
}

/// Joins two points with an L-shaped corridor; a coin decides which leg comes first.
fn carve_corridor(map: &mut TowerMapState, start: (u32, u32), end: (u32, u32), rng: &mut TowerMapRng)
    requires
        old(map).wf(),
    ensures
        final(map).wf(),
        tiles_only(*old(map), *final(map)),
        keeps_walkable(*old(map), *final(map)),
        final(rng).state == rng_step(old(rng).state),
        forall|x2: u32, y2: u32| #[trigger] final(map).spec_tile(x2, y2)
            == dug(*old(map), x2, y2, on_corridor(x2, y2, start, end, corridor_coin(old(rng).state))),
{
    if rng.chance(1, 2) {
        carve_horizontal(map, start.0, end.0, start.1);
        let ghost mid = *map;
        carve_vertical(map, start.1, end.1, end.0);
        proof {
            lemma_keeps_trans(*old(map), mid, *map);
            assert forall|x2: u32, y2: u32| #[trigger] map.spec_tile(x2, y2)
                == dug(*old(map), x2, y2, on_corridor(x2, y2, start, end, true)) by {
                assert(map.spec_tile(x2, y2) == dug(mid, x2, y2, on_column(x2, y2, start.1, end.1, end.0)));
                assert(mid.spec_tile(x2, y2) == dug(*old(map), x2, y2, on_row(x2, y2, start.0, end.0, start.1)));
            }
        }
    } else {
        carve_vertical(map, start.1, end.1, start.0);
        let ghost mid = *map;
        carve_horizontal(map, start.0, end.0, end.1);
        proof {
            lemma_keeps_trans(*old(map), mid, *map);
            assert forall|x2: u32, y2: u32| #[trigger] map.spec_tile(x2, y2)
                == dug(*old(map), x2, y2, on_corridor(x2, y2, start, end, false)) by {
                assert(map.spec_tile(x2, y2) == dug(mid, x2, y2, on_row(x2, y2, start.0, end.0, end.1)));
                assert(mid.spec_tile(x2, y2) == dug(*old(map), x2, y2, on_column(x2, y2, start.1, end.1, start.0)));
            }
        }
    }
}

/// Six fixed rooms joined in a chain, for floors where random placement found too few.
fn carve_fallback_layout(map: &mut TowerMapState, rng: &mut TowerMapRng)
    requires
        old(map).wf(),
        old(map).width >= 11,
        old(map).height >= 9,
    ensures
        final(map).wf(),
        *final(map) == (TowerMapState { tiles: final(map).tiles, rooms: final(map).rooms, ..*old(map) }),
        final(map).tiles@.len() == old(map).tiles@.len(),
        final(map).rooms@.len() == 6,
        rooms_fit(final(map).rooms@),
        first_room_open(*final(map)),
        rooms_joined(*final(map)),
{
    let mut i: usize = 0;
    while i < map.tiles.len()
        invariant
            map.wf(),
            *map == (TowerMapState { tiles: map.tiles, ..*old(map) }),
            map.tiles@.len() == old(map).tiles@.len(),
        decreases map.tiles.len() - i,
    {
        map.tiles.set(i, TowerTileKind::Wall);
        i += 1;
    }
    map.rooms = Vec::new();
    let width = map.width;
    let height = map.height;
    let mut rooms: Vec<TowerRoom> = Vec::new();
    rooms.push(TowerRoom { start_x: 2, start_y: 2, width: 7, height: 6 });
    rooms.push(TowerRoom { start_x: width / 2 - 4, start_y: 2, width: 8, height: 6 });
    rooms.push(TowerRoom { start_x: width - 10, start_y: 3, width: 8, height: 6 });
    rooms.push(TowerRoom { start_x: 3, start_y: height - 9, width: 8, height: 6 });
    rooms.push(TowerRoom { start_x: width / 2 - 3, start_y: height - 8, width: 7, height: 6 });
    rooms.push(TowerRoom { start_x: width - 11, start_y: height - 9, width: 9, height: 6 });
    assert forall|j: int| 0 <= j < 6 implies #[trigger] rooms@[j].start_x + rooms@[j].width <= width
        && rooms@[j].start_y + rooms@[j].height <= height && rooms@[j].width >= 3 && rooms@[j].height >= 3 by {}
    let mut previous: Option<(u32, u32)> = None;
    let mut k: usize = 0;
    proof {
        reveal(rooms_joined);
    }
    while k < rooms.len()
        invariant
            map.wf(),
            map.width == width,
            map.height == height,
            rooms@.len() == 6,
            k <= 6,
            map.rooms@.len() == k,
            *map == (TowerMapState { tiles: map.tiles, rooms: map.rooms, ..*old(map) }),
            map.tiles@.len() == old(map).tiles@.len(),
            forall|j: int| 0 <= j < 6 ==> #[trigger] rooms@[j].start_x + rooms@[j].width <= width
                && rooms@[j].start_y + rooms@[j].height <= height && rooms@[j].width >= 3 && rooms@[j].height >= 3,
            rooms_joined(*map),
            k == 0 ==> previous is None,
            k > 0 ==> previous == Some(map.rooms@.last().spec_center()),
        decreases rooms.len() - k,
    {
        let room = rooms[k];
        assert(room == rooms@[k as int]);
        join_fallback_room(map, room, previous, rng);
        previous = Some(room.center());
        k += 1;
    }
    proof {
        reveal(rooms_joined);
        assert(room_open(*map, map.rooms@[0]));
    }
}

/// Every tile of a dug corridor can be walked on.
proof fn lemma_corridor_open(a: TowerMapState, b: TowerMapState, start: (u32, u32), end: (u32, u32), row_first: bool)
    requires
        tiles_only(a, b),
        forall|x2: u32, y2: u32| #[trigger] b.spec_tile(x2, y2) == dug(a, x2, y2, on_corridor(x2, y2, start, end, row_first)),
    ensures
        forall|x: u32, y: u32| b.in_bounds(x, y) && on_corridor(x, y, start, end, row_first) ==> #[trigger] b.spec_passable(x, y),
{
    assert forall|x: u32, y: u32| b.in_bounds(x, y) && on_corridor(x, y, start, end, row_first) implies #[trigger] b.spec_passable(x, y) by {
        assert(b.spec_tile(x, y) == dug(a, x, y, on_corridor(x, y, start, end, row_first)));
    }
}

/// Carves `room` into `map` and, after the first room, digs a corridor to it
/// from the centre of the room before.
#[verifier::rlimit(100)]
fn join_fallback_room(map: &mut TowerMapState, room: TowerRoom, previous: Option<(u32, u32)>, rng: &mut TowerMapRng)
    requires
        old(map).wf(),
        room.start_x + room.width <= old(map).width,
        room.start_y + room.height <= old(map).height,
        room.width >= 3,
        room.height >= 3,
        rooms_joined(*old(map)),
        old(map).rooms@.len() == 0 ==> previous is None,
        old(map).rooms@.len() > 0 ==> previous == Some(old(map).rooms@.last().spec_center()),
    ensures
        final(map).wf(),
        *final(map) == (TowerMapState { tiles: final(map).tiles, rooms: final(map).rooms, ..*old(map) }),
        final(map).tiles@.len() == old(map).tiles@.len(),
        final(map).rooms@ == old(map).rooms@.push(room),
        rooms_joined(*final(map)),
{
    let ghost before = *map;
    carve_room(map, room);
    let ghost carved = *map;
    let center = room.center();
    let ghost coin = corridor_coin(rng.state);
    match previous {
        Some(p) => carve_corridor(map, p, center, rng),
        None => {},
    }
    let ghost joined = *map;
    proof {
        lemma_keeps_trans(before, carved, joined);
        lemma_open_kept(carved, joined, room);
        if before.rooms@.len() > 0 {
            lemma_corridor_open(carved, joined, before.rooms@.last().spec_center(), center, coin);
        }
    }
    let ghost before_rooms = map.rooms@;
    map.rooms.push(room);
    assert forall|i: int| 0 <= i < map.rooms@.len() implies #[trigger] map.rooms@[i].start_x + map.rooms@[i].width <= MAX_MAP_SIDE
        && map.rooms@[i].start_y + map.rooms@[i].height <= MAX_MAP_SIDE by {
        if i < before_rooms.len() {
            assert(map.rooms@[i] == before_rooms[i]);
        }
    }
    proof {
        let after = *map;
        assert(after.tiles == joined.tiles && after.width == joined.width && after.height == joined.height);
        assert(keeps_walkable(joined, after));
        lemma_keeps_trans(before, joined, after);
        lemma_open_kept(joined, after, room);
        if before.rooms@.len() > 0 {
            let from = before.rooms@.last().spec_center();
            assert forall|x: u32, y: u32| after.in_bounds(x, y) && on_corridor(x, y, from, room.spec_center(), coin)
                implies #[trigger] after.spec_passable(x, y) by {
                assert(joined.spec_passable(x, y));
            }
        }
        lemma_room_joined(before, after, room, coin);
    }
}

/// `room`, grown by one tile on every side, overlaps `other`.
pub open spec fn overlaps_padded(room: TowerRoom, other: TowerRoom) -> bool {
    room.start_x <= other.start_x + other.width && other.start_x <= room.start_x + room.width + 1
        && room.start_y <= other.start_y + other.height && other.start_y <= room.start_y + room.height + 1
}

/// `room` keeps clear of every room in `rooms`.
pub open spec fn clears_rooms(rooms: Seq<TowerRoom>, room: TowerRoom) -> bool {
    forall|i: int| 0 <= i < rooms.len() ==> !overlaps_padded(room, #[trigger] rooms[i])
}

/// Whether a freshly drawn room fits on the map and clears every existing room.
fn room_is_free(map: &TowerMapState, room: TowerRoom) -> (r: bool)
    requires
        rooms_fit(map.rooms@),
        room.start_x + room.width + 1 <= MAX_MAP_SIDE,
        room.start_y + room.height + 1 <= MAX_MAP_SIDE,
    ensures
        r == clears_rooms(map.rooms@, room),
{
    let mut i: usize = 0;
    while i < map.rooms.len()
        invariant
            i <= map.rooms@.len(),
            rooms_fit(map.rooms@),
            room.start_x + room.width + 1 <= MAX_MAP_SIDE,
            room.start_y + room.height + 1 <= MAX_MAP_SIDE,
            forall|j: int| 0 <= j < i ==> !overlaps_padded(room, #[trigger] map.rooms@[j]),
        decreases map.rooms.len() - i,
    {
        if room.intersects_padded(map.rooms[i]) {
            return false;
        }
        i += 1;
    }
    true
}

/// The generator's state four draws on from `state`.
pub open spec fn four_draws_on(state: u64) -> u64 {
    rng_step(rng_step(rng_step(rng_step(state))))
}

/// The room drawn from `state` on a map of the given size: its width, its
/// height, then a start column and a start row that leave a tile of wall
/// round it where the map allows.
pub open spec fn drawn_room(state: u64, width: u32, height: u32) -> TowerRoom {
    let s1 = rng_step(state);
    let s2 = rng_step(s1);
    let s3 = rng_step(s2);
    let s4 = rng_step(s3);
    let w = 5 + rng_draw(s1) % 4u32;
    let h = 4 + rng_draw(s2) % 3u32;
    let span_x: int = if width > w + 1 { width - (w + 1) } else { 0 };
    let span_y: int = if height > h + 1 { height - (h + 1) } else { 0 };
    let hi_x: int = if span_x >= 2 { span_x } else { 2 };
    let hi_y: int = if span_y >= 2 { span_y } else { 2 };
    TowerRoom {
        start_x: (1 + rng_draw(s3) % ((hi_x - 1) as u32)) as u32,
        start_y: (1 + rng_draw(s4) % ((hi_y - 1) as u32)) as u32,
        width: w as u32,
        height: h as u32,
    }
}

/// A room of 5 to 8 by 4 to 6 tiles at a random spot of a map of the given size.
fn draw_room(rng: &mut TowerMapRng, width: u32, height: u32) -> (room: TowerRoom)
    requires
        width <= 34,
        height <= 34,
    ensures
        room == drawn_room(old(rng).state, width, height),
        final(rng).state == four_draws_on(old(rng).state),
        5 <= room.width < 9,
        4 <= room.height < 7,
        1 <= room.start_x < 34,
        1 <= room.start_y < 34,
{
    let room_width = rng.range(5, 9);
    let room_height = rng.range(4, 7);
    let span_x: u32 = if width > room_width + 1 { width - (room_width + 1) } else { 0 };
    let span_y: u32 = if height > room_height + 1 { height - (room_height + 1) } else { 0 };
    let start_x = rng.range(1, if span_x >= 2 { span_x } else { 2 });
    let start_y = rng.range(1, if span_y >= 2 { span_y } else { 2 });
    TowerRoom { start_x, start_y, width: room_width, height: room_height }
}

/// The drawn room fits on the map with a tile to spare and clears every room
/// already on it.
pub open spec fn room_fits(map: TowerMapState, room: TowerRoom) -> bool {
    &&& room.start_x + room.width + 1 < map.width
    &&& room.start_y + room.height + 1 < map.height
    &&& clears_rooms(map.rooms@, room)
}

/// The tile at `(x, y)` once `room` has been carved into `map` and, when the
/// map already had rooms, joined to the last of them by a corridor whose
/// order of legs `row_first` gives.
pub open spec fn added_room_tile(map: TowerMapState, room: TowerRoom, row_first: bool, x: u32, y: u32) -> TowerTileKind {
    let t = room_floor(map, room, x, y);
    if map.rooms@.len() > 0 && map.in_bounds(x, y) && t == TowerTileKind::Wall
        && on_corridor(x, y, map.rooms@.last().spec_center(), room.spec_center(), row_first) {
        TowerTileKind::Corridor
    } else {
        t
    }
}

/// A room added to a map whose rooms are joined, open inside and reached by
/// a walkable corridor from the centre of the last room, keeps them joined.
proof fn lemma_room_joined(a: TowerMapState, b: TowerMapState, room: TowerRoom, row_first: bool)
    requires
        rooms_joined(a),
        walkable_kept(a, b),
        b.rooms@ == a.rooms@.push(room),
        rooms_fit(b.rooms@),
        room_open(b, room),
        a.rooms@.len() > 0 ==> forall|x: u32, y: u32| b.in_bounds(x, y)
            && on_corridor(x, y, a.rooms@.last().spec_center(), room.spec_center(), row_first) ==> #[trigger] b.spec_passable(x, y),
    ensures
        rooms_joined(b),
{
    reveal(rooms_joined);
    let n = a.rooms@.len() as int;
    assert(b.rooms@[n] == room);
    assert(room.start_x + room.width <= MAX_MAP_SIDE && room.start_y + room.height <= MAX_MAP_SIDE);
    lemma_center_inside(b, room);
    let c = room.spec_center();
    assert forall|i: int| 0 <= i < b.rooms@.len() implies room_open(b, #[trigger] b.rooms@[i]) by {
        if i < n {
            assert(b.rooms@[i] == a.rooms@[i]);
            lemma_room_open_kept(a, b, a.rooms@[i]);
        }
    }
    if n == 0 {
        lemma_reaches_here(b, c);
        assert forall|i: int| 0 <= i < b.rooms@.len()
            implies reaches(b, b.rooms@[0].spec_center(), (#[trigger] b.rooms@[i]).spec_center()) by {}
    } else {
        let first = a.rooms@[0].spec_center();
        let last = a.rooms@.last();
        assert(last == b.rooms@[n - 1]);
        assert(last.start_x + last.width <= MAX_MAP_SIDE && last.start_y + last.height <= MAX_MAP_SIDE);
        assert(room_open(b, b.rooms@[n - 1]));
        lemma_center_inside(b, last);
        assert(reaches(a, first, a.rooms@[n - 1].spec_center()));
        lemma_reaches_kept(a, b, first, last.spec_center());
        lemma_reaches_by_corridor(b, last.spec_center(), c, row_first);
        lemma_reaches_join(b, first, last.spec_center(), c);
        assert(b.rooms@[0] == a.rooms@[0]);
        assert forall|i: int| 0 <= i < b.rooms@.len()
            implies reaches(b, b.rooms@[0].spec_center(), (#[trigger] b.rooms@[i]).spec_center()) by {
            if i < n {
                assert(b.rooms@[i] == a.rooms@[i]);
                lemma_reaches_kept(a, b, first, a.rooms@[i].spec_center());
            }
        }
    }
}

/// Draws one room; keeps it, joined to the previous room by a corridor, when
/// it fits on the map and clears every existing room.
fn try_add_room(map: &mut TowerMapState, rng: &mut TowerMapRng)
    requires
        old(map).wf(),
        old(map).width <= 34,
        old(map).height == 22,
    ensures
        ({
            let room = drawn_room(old(rng).state, old(map).width, old(map).height);
            let drawn = four_draws_on(old(rng).state);
            if room_fits(*old(map), room) {
                &&& final(map).rooms@ == old(map).rooms@.push(room)
                &&& final(rng).state == if old(map).rooms@.len() > 0 { rng_step(drawn) } else { drawn }
                &&& forall|x: u32, y: u32| #[trigger] final(map).spec_tile(x, y)
                    == added_room_tile(*old(map), room, corridor_coin(drawn), x, y)
            } else {
                *final(map) == *old(map) && final(rng).state == drawn
            }
        }),
        final(map).wf(),
        *final(map) == (TowerMapState { tiles: final(map).tiles, rooms: final(map).rooms, ..*old(map) }),
        final(map).tiles@.len() == old(map).tiles@.len(),
        keeps_walkable(*old(map), *final(map)),
        first_room_open(*old(map)) ==> first_room_open(*final(map)),
        old(map).rooms@.len() > 0 ==> final(map).rooms@[0] == old(map).rooms@[0],
        rooms_joined(*old(map)) ==> rooms_joined(*final(map)),
{
    let width = map.width;
    let height = map.height;
    let room = draw_room(rng, width, height);
    if room.start_x + room.width + 1 >= width || room.start_y + room.height + 1 >= height {
        return;
    }
    if !room_is_free(map, room) {
        return;
    }
    carve_room(map, room);
    let ghost carved = *map;
    proof {
        if old(map).rooms@.len() > 0 && first_room_open(*old(map)) {
            lemma_open_kept(*old(map), carved, old(map).rooms@[0]);
        }
    }
    let count = map.rooms.len();
    let ghost drawn = rng.state;
    if count > 0 {
        let previous = map.rooms[count - 1];
        let from = previous.center();
        let to = room.center();
        carve_corridor(map, from, to, rng);
        proof {
            assert(previous == old(map).rooms@.last());
            assert forall|x: u32, y: u32| #[trigger] map.spec_tile(x, y)
                == added_room_tile(*old(map), room, corridor_coin(drawn), x, y) by {
                assert(carved.spec_tile(x, y) == room_floor(*old(map), room, x, y));
                assert(map.spec_tile(x, y) == dug(carved, x, y, on_corridor(x, y, from, to, corridor_coin(drawn))));
            }
        }
    } else {
        proof {
            assert forall|x: u32, y: u32| #[trigger] map.spec_tile(x, y)
                == added_room_tile(*old(map), room, corridor_coin(drawn), x, y) by {
                assert(carved.spec_tile(x, y) == room_floor(*old(map), room, x, y));
            }
        }
    }
    proof {
        lemma_keeps_trans(*old(map), carved, *map);
        lemma_open_kept(carved, *map, room);
        if old(map).rooms@.len() > 0 && first_room_open(*old(map)) {
            lemma_open_kept(carved, *map, old(map).rooms@[0]);
        }
    }
    let ghost before = map.rooms@;
    let ghost pre = *map;
    map.rooms.push(room);
    proof {
        assert forall|x: u32, y: u32| #[trigger] map.spec_tile(x, y)
            == added_room_tile(*old(map), room, corridor_coin(drawn), x, y) by {
            assert(map.spec_tile(x, y) == pre.spec_tile(x, y));
        }
        if first_room_open(*old(map)) || old(map).rooms@.len() == 0 {
            if old(map).rooms@.len() == 0 {
                lemma_open_kept(pre, *map, room);
            } else {
                lemma_open_kept(pre, *map, old(map).rooms@[0]);
            }
        }
    }
    assert forall|i: int| 0 <= i < map.rooms@.len() implies #[trigger] map.rooms@[i].start_x + map.rooms@[i].width <= MAX_MAP_SIDE
        && map.rooms@[i].start_y + map.rooms@[i].height <= MAX_MAP_SIDE by {
        if i < before.len() {
            assert(map.rooms@[i] == before[i]);
        }
    }
    proof {
        if rooms_joined(*old(map)) {
            lemma_open_kept(pre, *map, room);
            if old(map).rooms@.len() > 0 {
                assert forall|x: u32, y: u32| map.in_bounds(x, y)
                    && on_corridor(x, y, old(map).rooms@.last().spec_center(), room.spec_center(), corridor_coin(drawn))
                    implies #[trigger] map.spec_passable(x, y) by {
                    assert(map.spec_tile(x, y) == added_room_tile(*old(map), room, corridor_coin(drawn), x, y));
                }
            }
            lemma_room_joined(*old(map), *map, room, corridor_coin(drawn));
        }
    }
}

/// A new floor map drawn from `seed`: rooms joined by corridors (a fixed
/// layout when too few rooms fit), the party at a random spot in the first
/// room, the floor's objects placed, and the party's surroundings revealed.
pub fn generate_map(state: &GameState, data: &GameData, floor_number: u32, goal: TowerRunGoal, seed: u64) -> (m: TowerMapState)
    ensures
        m.wf(),
        m.width == 30 + 2 * (if floor_number / 4 <= 2 { floor_number / 4 } else { 2 }),
        m.height == 22,
        m.floor == floor_number,
        m.seed == seed,
        m.visibility@.len() == m.tiles@.len(),
        m.rooms@.len() >= 1,
        m.player_x == m.start_x,
        m.player_y == m.start_y,
        m.spec_passable(m.player_x, m.player_y),
        m.spec_visibility(m.player_x, m.player_y) == TowerTileVisibility::Visible,
        forall|i: int| 0 <= i < m.rooms@.len() ==> reaches(m, (m.start_x, m.start_y), (#[trigger] m.rooms@[i]).spec_center()),
        exists|laid: TowerMapState, placed: TowerMapState, s0: u64, s1: u64| {
            &&& laid.objects@.len() == 0
            &&& floor_stocked(laid, placed, *state, *data, floor_number, goal, s0, s1)
            &&& m == (TowerMapState { visibility: m.visibility, ..placed })
        },
{
    let mut rng = TowerMapRng::new(seed);
    let quarter = floor_number / 4;
    let width: u32 = 30 + 2 * (if quarter <= 2 { quarter } else { 2 });
    let height: u32 = 22;
    let mut map = TowerMapState::new(width, height, floor_number, seed);
    let target = room_target(floor_number, goal);
    let attempts: u64 = target as u64 * 12;
    let mut attempt: u64 = 0;
    proof {
        reveal(rooms_joined);
    }
    while attempt < attempts
        invariant
            map.wf(),
            map.width == width,
            map.height == height,
            map.floor == floor_number,
            map.seed == seed,
            map.visibility@.len() == map.tiles@.len(),
            map.player_x == 0 && map.player_y == 0 && map.start_x == 0 && map.start_y == 0,
            width <= 34,
            height == 22,
            first_room_open(map),
            rooms_joined(map),
            map.objects@.len() == 0,
        decreases attempts - attempt,
    {
        attempt += 1;
        if map.rooms.len() >= target as usize {
            break;
        }
        try_add_room(&mut map, &mut rng);
    }
    if map.rooms.len() < 4 {
        carve_fallback_layout(&mut map, &mut rng);
    }
    let first = map.rooms[0];
    let (start_x, start_y) = first.random_inner(&mut rng);
    let ghost laid = map;
    map.start_x = start_x;
    map.start_y = start_y;
    map.player_x = start_x;
    map.player_y = start_y;
    proof {
        assert(first == map.rooms@[0]);
        assert(first.start_x < start_x && start_x + 1 < first.start_x + first.width);
        assert(first.start_y < start_y && start_y + 1 < first.start_y + first.height);
        lemma_open_kept(laid, map, first);
        assert(map.spec_passable(start_x, start_y));
    }
    let ghost started = map;
    let ghost s0 = rng.state;
    add_map_objects(&mut map, state, data, floor_number, goal, &mut rng);
    let ghost placed = map;
    reveal_current_area(&mut map);
    proof {
        assert(laid.objects@.len() == 0);
        assert(floor_stocked(started, placed, *state, *data, floor_number, goal, s0, rng.state));
        assert(map == (TowerMapState { visibility: map.visibility, ..placed }));
        lemma_rooms_joined_kept(laid, map);
        reveal(rooms_joined);
        let room = map.rooms@[0];
        assert(room == first);
        assert(room_open(map, room));
        lemma_center_inside(map, room);
        let start = (map.start_x, map.start_y);
        lemma_reaches_in_room(map, room, start, room.spec_center());
        assert forall|i: int| 0 <= i < map.rooms@.len()
            implies reaches(map, (map.start_x, map.start_y), (#[trigger] map.rooms@[i]).spec_center()) by {
            assert(reaches(map, room.spec_center(), map.rooms@[i].spec_center()));
            lemma_reaches_join(map, start, room.spec_center(), map.rooms@[i].spec_center());
        }
    }
    proof {
        let px = placed.player_x;
        let py = placed.player_y;
        let i = placed.index_of(px, py);
        assert(py * placed.width + px < placed.width * placed.height) by (nonlinear_arith)
            requires py < placed.height, px < placed.width;
        vstd::arithmetic::div_mod::lemma_fundamental_div_mod_converse(i, placed.width as int, py as int, px as int);
        assert(near(placed, px, py, px, py, 2));
        assert(near(placed, px, py, px, py, 3));
        assert(lit(placed, px, py));
        assert(map.visibility@[i] == fog_after(placed, px, py, fog_grid(placed)[i]));
    }
    map
}

// ---------------------------------------------------------------- fog of war

/// Whether tile `(x, y)` lies within `radius` of the centre (one more step
/// along the diagonals), inside the map.
pub open spec fn near(map: TowerMapState, cx: u32, cy: u32, x: u32, y: u32, radius: int) -> bool {
    let dx = if cx >= x { cx - x } else { x - cx };
    let dy = if cy >= y { cy - y } else { y - cy };
    &&& cx - radius <= x <= cx + radius
    &&& cy - radius <= y <= cy + radius
    &&& x < map.width && y < map.height
    &&& dx + dy <= radius + 1
}

/// Whether tile `(x, y)` is part of `room`, inside the map.
pub open spec fn in_room_area(map: TowerMapState, room: TowerRoom, x: u32, y: u32) -> bool {
    room.spec_contains(x, y) && x < map.width && y < map.height
}

/// Whether tile `(x, y)` lies on or just around `room` and can be walked on.
pub open spec fn on_room_edge(map: TowerMapState, room: TowerRoom, x: u32, y: u32) -> bool {
    &&& room.start_x - 1 <= x <= room.start_x + room.width
    &&& room.start_y - 1 <= y <= room.start_y + room.height
    &&& x < map.width && y < map.height
    &&& map.spec_passable(x, y)
}

/// The tiles the party sees from where it stands: its room, its edges and
/// two steps around it; outside any room, three steps around it.
pub open spec fn lit(map: TowerMapState, x: u32, y: u32) -> bool {
    match room_index_at(map, map.player_x, map.player_y) {
        Some(i) => {
            let room = map.rooms@[i];
            in_room_area(map, room, x, y) || near(map, map.player_x, map.player_y, x, y, 2) || on_room_edge(map, room, x, y)
        },
        None => near(map, map.player_x, map.player_y, x, y, 3),
    }
}

/// A tile's fog after the party looks around: lit tiles become visible, tiles
/// that were visible become explored, the rest stay as they were.
pub open spec fn fog_after(map: TowerMapState, x: u32, y: u32, before: TowerTileVisibility) -> TowerTileVisibility {
    if lit(map, x, y) {
        TowerTileVisibility::Visible
    } else if before == TowerTileVisibility::Visible {
        TowerTileVisibility::Explored
    } else {
        before
    }
}

/// The fog grid with one entry per tile, hidden everywhere when it did not match the tiles.
pub open spec fn fog_grid(map: TowerMapState) -> Seq<TowerTileVisibility> {
    if map.visibility@.len() == map.tiles@.len() {
        map.visibility@
    } else {
        Seq::new(map.tiles@.len(), |i: int| TowerTileVisibility::Hidden)
    }
}

pub open spec fn spec_revealed(map: TowerMapState) -> Seq<TowerTileVisibility> {
    let fog = fog_grid(map);
    Seq::new(fog.len(), |i: int| fog_after(map, (i % (map.width as int)) as u32, (i / (map.width as int)) as u32, fog[i]))
}

fn lit_tile(map: &TowerMapState, room: Option<usize>, x: u32, y: u32) -> (r: bool)
    requires
        map.wf(),
        match room {
            Some(i) => room_index_at(*map, map.player_x, map.player_y) == Some(i as int) && i < map.rooms@.len(),
            None => room_index_at(*map, map.player_x, map.player_y) is None,
        },
    ensures
        r == lit(*map, x, y),
{
    let px = map.player_x as i64;
    let py = map.player_y as i64;
    let xi = x as i64;
    let yi = y as i64;
    let dx = if px >= xi { px - xi } else { xi - px };
    let dy = if py >= yi { py - yi } else { yi - py };
    let inside = x < map.width && y < map.height;
    match room {
        Some(i) => {
            let r = map.rooms[i];
            let in_room = r.contains(x, y) && inside;
            let near2 = px - 2 <= xi && xi <= px + 2 && py - 2 <= yi && yi <= py + 2 && inside && dx + dy <= 3;
            let edge = r.start_x as i64 - 1 <= xi && xi <= r.start_x as i64 + r.width as i64
                && r.start_y as i64 - 1 <= yi && yi <= r.start_y as i64 + r.height as i64 && inside
                && map.is_passable(x, y);
            in_room || near2 || edge
        },
        None => px - 3 <= xi && xi <= px + 3 && py - 3 <= yi && yi <= py + 3 && inside && dx + dy <= 4,
    }
}

/// Lifts the fog around the party: what it saw before is marked explored and
/// what it sees now is marked visible.
pub fn reveal_current_area(map: &mut TowerMapState)
    requires
        old(map).wf(),
    ensures
        final(map).wf(),
        fog_only(*old(map), *final(map)) || old(map).visibility@.len() != old(map).tiles@.len(),
        *final(map) == (TowerMapState { visibility: final(map).visibility, ..*old(map) }),
        final(map).visibility@ == spec_revealed(*old(map)),
{
    map.ensure_visibility();
    let ghost m0 = *map;
    assert(fog_grid(*old(map)) =~= m0.visibility@);
    let room = room_index(map, map.player_x, map.player_y);
    let w = map.width;
    let h = map.height;
    let ghost target = spec_revealed(*old(map));
    let mut y: u32 = 0;
    let mut idx: usize = 0;
    while y < h
        invariant
            m0.wf(),
            *map == (TowerMapState { visibility: map.visibility, ..m0 }),
            map.visibility@.len() == m0.visibility@.len(),
            m0.visibility@.len() == m0.tiles@.len(),
            w == m0.width,
            h == m0.height,
            y <= h,
            idx == y * w,
            target == spec_revealed(*old(map)),
            target.len() == m0.tiles@.len(),
            forall|j: int| 0 <= j < idx ==> map.visibility@[j] == target[j],
            forall|j: int| idx <= j < m0.visibility@.len() ==> map.visibility@[j] == m0.visibility@[j],
            *old(map) == (TowerMapState { visibility: old(map).visibility, ..m0 }),
            fog_grid(*old(map)) == m0.visibility@,
            match room {
                Some(i) => room_index_at(m0, m0.player_x, m0.player_y) == Some(i as int) && i < m0.rooms@.len(),
                None => room_index_at(m0, m0.player_x, m0.player_y) is None,
            },
        decreases h - y,
    {
        let mut x: u32 = 0;
        while x < w
            invariant
                m0.wf(),
                *map == (TowerMapState { visibility: map.visibility, ..m0 }),
                map.visibility@.len() == m0.visibility@.len(),
                m0.visibility@.len() == m0.tiles@.len(),
                w == m0.width,
                h == m0.height,
                y < h,
                x <= w,
                idx == y * w + x,
                target == spec_revealed(*old(map)),
                target.len() == m0.tiles@.len(),
                forall|j: int| 0 <= j < idx ==> map.visibility@[j] == target[j],
                forall|j: int| idx <= j < m0.visibility@.len() ==> map.visibility@[j] == m0.visibility@[j],
                *old(map) == (TowerMapState { visibility: old(map).visibility, ..m0 }),
                fog_grid(*old(map)) == m0.visibility@,
                match room {
                    Some(i) => room_index_at(m0, m0.player_x, m0.player_y) == Some(i as int) && i < m0.rooms@.len(),
                    None => room_index_at(m0, m0.player_x, m0.player_y) is None,
                },
            decreases w - x,
        {
            proof {
                assert(y * w + x < w * h) by (nonlinear_arith)
                    requires y < h, x < w;
                assert(w * h <= 1024 * 1024) by (nonlinear_arith)
                    requires w <= 1024, h <= 1024;
                vstd::arithmetic::div_mod::lemma_fundamental_div_mod_converse(idx as int, w as int, y as int, x as int);
            }
            let before = map.visibility[idx];
            let shown = lit_tile(map, room, x, y);
            let after = if shown {
                TowerTileVisibility::Visible
            } else if before == TowerTileVisibility::Visible {
                TowerTileVisibility::Explored
            } else {
                before
            };
            proof {
                assert(lit(m0, x, y) == lit(*old(map), x, y));
                assert(target[idx as int] == fog_after(*old(map), x, y, m0.visibility@[idx as int]));
            }
            map.visibility.set(idx, after);
            x += 1;
            idx += 1;
        }
        proof {
            assert(idx == (y + 1) * w) by (nonlinear_arith)
                requires idx == y * w + w;
        }
        y += 1;
    }
    proof {
        assert(idx == m0.tiles@.len()) by (nonlinear_arith)
            requires idx == y * w, y == h, m0.tiles@.len() == w * h;
        assert(map.visibility@ =~= target);
    }
}

} // verus!
