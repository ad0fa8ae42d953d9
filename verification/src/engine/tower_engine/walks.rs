//! Walks over a floor map: which tiles the party can get to from where.

use vstd::prelude::*;
use crate::state::tower_map::{TowerMapState, TowerRoom, TowerTileKind};

verus! {

/// Two tiles that share a side.
pub open spec fn side_by_side(a: (u32, u32), b: (u32, u32)) -> bool {
    ||| (a.0 == b.0 && (a.1 + 1 == b.1 || b.1 + 1 == a.1))
    ||| (a.1 == b.1 && (a.0 + 1 == b.0 || b.0 + 1 == a.0))
}

/// `p` is a walk on `map`: at least one tile, every tile walkable, each
/// tile beside the one before it.
pub open spec fn is_walk(map: TowerMapState, p: Seq<(u32, u32)>) -> bool {
    &&& p.len() > 0
    &&& forall|i: int| 0 <= i < p.len() ==> map.spec_passable(#[trigger] p[i].0, p[i].1)
    &&& forall|i: int| 0 <= i < p.len() - 1 ==> #[trigger] side_by_side(p[i], p[i + 1])
}

/// The party can walk from `a` to `b` on `map`.
pub open spec fn reaches(map: TowerMapState, a: (u32, u32), b: (u32, u32)) -> bool {
    exists|p: Seq<(u32, u32)>| #[trigger] is_walk(map, p) && p[0] == a && p.last() == b
}

/// `room` is at least three tiles across each way and open inside its walls.
pub open spec fn room_open(map: TowerMapState, room: TowerRoom) -> bool {
    &&& room.width >= 3
    &&& room.height >= 3
    &&& forall|x: u32, y: u32| room.start_x < x && x + 1 < room.start_x + room.width && room.start_y < y
        && y + 1 < room.start_y + room.height ==> #[trigger] map.spec_passable(x, y)
}

/// Every room of `map` is open inside, and the centre of each can be walked
/// to from the centre of the first.
#[verifier::opaque]
pub open spec fn rooms_joined(map: TowerMapState) -> bool {
    &&& forall|i: int| 0 <= i < map.rooms@.len() ==> room_open(map, #[trigger] map.rooms@[i])
    &&& forall|i: int| 0 <= i < map.rooms@.len()
        ==> reaches(map, map.rooms@[0].spec_center(), (#[trigger] map.rooms@[i]).spec_center())
}

/// `b` keeps every walkable tile of `a`, on a grid of the same size.
pub open spec fn walkable_kept(a: TowerMapState, b: TowerMapState) -> bool {
    &&& a.width == b.width
    &&& a.height == b.height
    &&& b.tiles@.len() == a.tiles@.len()
    &&& forall|i: int| 0 <= i < a.tiles@.len() && a.tiles@[i] != TowerTileKind::Wall ==> #[trigger] b.tiles@[i] != TowerTileKind::Wall
}

pub proof fn lemma_passable_kept(a: TowerMapState, b: TowerMapState, x: u32, y: u32)
    requires
        walkable_kept(a, b),
        a.spec_passable(x, y),
    ensures
        b.spec_passable(x, y),
{
    let i = a.index_of(x, y);
    assert(a.tiles@[i] != TowerTileKind::Wall);
}

pub proof fn lemma_reaches_kept(a: TowerMapState, b: TowerMapState, from: (u32, u32), to: (u32, u32))
    requires
        walkable_kept(a, b),
        reaches(a, from, to),
    ensures
        reaches(b, from, to),
{
    let p = choose|p: Seq<(u32, u32)>| #[trigger] is_walk(a, p) && p[0] == from && p.last() == to;
    assert forall|i: int| 0 <= i < p.len() implies b.spec_passable(#[trigger] p[i].0, p[i].1) by {
        assert(a.spec_passable(p[i].0, p[i].1));
        lemma_passable_kept(a, b, p[i].0, p[i].1);
    }
    assert(is_walk(b, p));
}

pub proof fn lemma_rooms_joined_kept(a: TowerMapState, b: TowerMapState)
    requires
        walkable_kept(a, b),
        b.rooms@ == a.rooms@,
        rooms_joined(a),
    ensures
        rooms_joined(b),
{
    reveal(rooms_joined);
    assert forall|i: int| 0 <= i < b.rooms@.len() implies room_open(b, #[trigger] b.rooms@[i]) by {
        lemma_room_open_kept(a, b, a.rooms@[i]);
    }
    assert forall|i: int| 0 <= i < b.rooms@.len()
        implies reaches(b, b.rooms@[0].spec_center(), (#[trigger] b.rooms@[i]).spec_center()) by {
        assert(reaches(a, a.rooms@[0].spec_center(), a.rooms@[i].spec_center()));
        lemma_reaches_kept(a, b, a.rooms@[0].spec_center(), a.rooms@[i].spec_center());
    }
}

pub proof fn lemma_room_open_kept(a: TowerMapState, b: TowerMapState, room: TowerRoom)
    requires
        walkable_kept(a, b),
        room_open(a, room),
    ensures
        room_open(b, room),
{
    assert forall|x: u32, y: u32| room.start_x < x && x + 1 < room.start_x + room.width && room.start_y < y
        && y + 1 < room.start_y + room.height implies #[trigger] b.spec_passable(x, y) by {
        lemma_passable_kept(a, b, x, y);
    }
}

pub proof fn lemma_reaches_here(map: TowerMapState, a: (u32, u32))
    requires
        map.spec_passable(a.0, a.1),
    ensures
        reaches(map, a, a),
{
    let p = seq![a];
    assert(is_walk(map, p));
}

/// A walk to `b` goes on to a walkable tile beside it.
pub proof fn lemma_reaches_step(map: TowerMapState, a: (u32, u32), b: (u32, u32), c: (u32, u32))
    requires
        reaches(map, a, b),
        side_by_side(b, c),
        map.spec_passable(c.0, c.1),
    ensures
        reaches(map, a, c),
{
    let p = choose|p: Seq<(u32, u32)>| #[trigger] is_walk(map, p) && p[0] == a && p.last() == b;
    let q = p.push(c);
    assert forall|i: int| 0 <= i < q.len() implies map.spec_passable(#[trigger] q[i].0, q[i].1) by {
        if i < p.len() {
            assert(q[i] == p[i]);
        }
    }
    assert forall|i: int| 0 <= i < q.len() - 1 implies #[trigger] side_by_side(q[i], q[i + 1]) by {
        if i + 1 < p.len() {
            assert(q[i] == p[i] && q[i + 1] == p[i + 1]);
            assert(side_by_side(p[i], p[i + 1]));
        }
    }
    assert(is_walk(map, q));
}

/// Two walks joined end to end.
pub proof fn lemma_reaches_join(map: TowerMapState, a: (u32, u32), b: (u32, u32), c: (u32, u32))
    requires
        reaches(map, a, b),
        reaches(map, b, c),
    ensures
        reaches(map, a, c),
{
    let p = choose|p: Seq<(u32, u32)>| #[trigger] is_walk(map, p) && p[0] == a && p.last() == b;
    let q = choose|q: Seq<(u32, u32)>| #[trigger] is_walk(map, q) && q[0] == b && q.last() == c;
    let r = p + q.skip(1);
    assert forall|i: int| 0 <= i < r.len() implies map.spec_passable(#[trigger] r[i].0, r[i].1) by {
        if i < p.len() {
            assert(r[i] == p[i]);
        } else {
            assert(r[i] == q[i - p.len() + 1]);
        }
    }
    assert forall|i: int| 0 <= i < r.len() - 1 implies #[trigger] side_by_side(r[i], r[i + 1]) by {
        if i + 1 < p.len() {
            assert(r[i] == p[i] && r[i + 1] == p[i + 1]);
            assert(side_by_side(p[i], p[i + 1]));
        } else if i + 1 == p.len() {
            assert(r[i] == b && r[i + 1] == q[1]);
            assert(side_by_side(q[0], q[1]));
        } else {
            let j = i - p.len() + 1;
            assert(r[i] == q[j] && r[i + 1] == q[j + 1]);
            assert(side_by_side(q[j], q[j + 1]));
        }
    }
    if q.len() == 1 {
        assert(r =~= p);
    } else {
        assert(r.last() == q.last());
    }
    assert(is_walk(map, r));
}

/// Along a row whose tiles between the two ends are all walkable.
pub proof fn lemma_reaches_along_row(map: TowerMapState, y: u32, from_x: u32, to_x: u32)
    requires
        forall|x: u32| ((from_x <= x && x <= to_x) || (to_x <= x && x <= from_x)) ==> #[trigger] map.spec_passable(x, y),
    ensures
        reaches(map, (from_x, y), (to_x, y)),
    decreases if from_x <= to_x { to_x - from_x } else { from_x - to_x },
{
    if from_x == to_x {
        lemma_reaches_here(map, (from_x, y));
    } else {
        let prev: u32 = if from_x < to_x { (to_x - 1) as u32 } else { (to_x + 1) as u32 };
        assert forall|x: u32| ((from_x <= x && x <= prev) || (prev <= x && x <= from_x)) implies #[trigger] map.spec_passable(x, y) by {}
        lemma_reaches_along_row(map, y, from_x, prev);
        assert(map.spec_passable(to_x, y));
        lemma_reaches_step(map, (from_x, y), (prev, y), (to_x, y));
    }
}

/// Down a column whose tiles between the two ends are all walkable.
pub proof fn lemma_reaches_along_column(map: TowerMapState, x: u32, from_y: u32, to_y: u32)
    requires
        forall|y: u32| ((from_y <= y && y <= to_y) || (to_y <= y && y <= from_y)) ==> #[trigger] map.spec_passable(x, y),
    ensures
        reaches(map, (x, from_y), (x, to_y)),
    decreases if from_y <= to_y { to_y - from_y } else { from_y - to_y },
{
    if from_y == to_y {
        lemma_reaches_here(map, (x, from_y));
    } else {
        let prev: u32 = if from_y < to_y { (to_y - 1) as u32 } else { (to_y + 1) as u32 };
        assert forall|y: u32| ((from_y <= y && y <= prev) || (prev <= y && y <= from_y)) implies #[trigger] map.spec_passable(x, y) by {}
        lemma_reaches_along_column(map, x, from_y, prev);
        assert(map.spec_passable(x, to_y));
        lemma_reaches_step(map, (x, from_y), (x, prev), (x, to_y));
    }
}

/// Inside an open room, any tile within its walls can be walked to from any other.
pub proof fn lemma_reaches_in_room(map: TowerMapState, room: TowerRoom, a: (u32, u32), b: (u32, u32))
    requires
        room_open(map, room),
        room.start_x < a.0 && a.0 + 1 < room.start_x + room.width && room.start_y < a.1 && a.1 + 1 < room.start_y + room.height,
        room.start_x < b.0 && b.0 + 1 < room.start_x + room.width && room.start_y < b.1 && b.1 + 1 < room.start_y + room.height,
    ensures
        reaches(map, a, b),
{
    assert forall|x: u32| ((a.0 <= x && x <= b.0) || (b.0 <= x && x <= a.0)) implies #[trigger] map.spec_passable(x, a.1) by {}
    lemma_reaches_along_row(map, a.1, a.0, b.0);
    assert forall|y: u32| ((a.1 <= y && y <= b.1) || (b.1 <= y && y <= a.1)) implies #[trigger] map.spec_passable(b.0, y) by {}
    lemma_reaches_along_column(map, b.0, a.1, b.1);
    lemma_reaches_join(map, a, (b.0, a.1), b);
}

/// The centre of an open room lies within its walls.
pub proof fn lemma_center_inside(map: TowerMapState, room: TowerRoom)
    requires
        room_open(map, room),
        room.start_x + room.width <= u32::MAX,
        room.start_y + room.height <= u32::MAX,
    ensures
        ({
            let c = room.spec_center();
            room.start_x < c.0 && c.0 + 1 < room.start_x + room.width && room.start_y < c.1 && c.1 + 1 < room.start_y + room.height
        }),
        map.spec_passable(room.spec_center().0, room.spec_center().1),
{
}

} // verus!
