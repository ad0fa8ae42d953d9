//! Finding ways across a floor: how a wandering enemy hunts the party.

use vstd::prelude::*;
use crate::state::tower_map::{TowerMapObject, TowerMapObjectKind, TowerMapState, TowerTileVisibility, first_object_at, lemma_first_object_at};
use crate::state::tower_run::TowerRunGoal;

verus! {

/// The distance given to tiles no path reaches.
pub const UNREACHED: u32 = 0xFFFF_FFFF;

/// The tile at grid position `i`.
pub open spec fn cell_of(map: TowerMapState, i: int) -> (u32, u32) {
    ((i % (map.width as int)) as u32, (i / (map.width as int)) as u32)
}

/// Neighbour `k` of a tile, when it is on the map: 0 up, 1 left, 2 right, 3 down.
pub open spec fn neighbor(map: TowerMapState, x: u32, y: u32, k: int) -> Option<(u32, u32)> {
    let raw: Option<(int, int)> = if k == 0 {
        if y > 0 { Some((x as int, y - 1)) } else { None }
    } else if k == 1 {
        if x > 0 { Some((x - 1, y as int)) } else { None }
    } else if k == 2 {
        Some((x + 1, y as int))
    } else {
        Some((x as int, y + 1))
    };
    match raw {
        Some((nx, ny)) => if nx < map.width && ny < map.height { Some((nx as u32, ny as u32)) } else { None },
        None => None,
    }
}

/// A hunter standing on grid position `hunter` may cross the tile: it is
/// walkable and holds no object other than the hunter.
pub open spec fn open_tile(map: TowerMapState, x: u32, y: u32, hunter: (u32, u32)) -> bool {
    map.spec_passable(x, y) && ((x, y) == hunter || first_object_at(map.objects@, x, y) is None)
}

/// The distance through neighbour `k`: one more than the neighbour's, or unreached.
pub open spec fn via(map: TowerMapState, d: Seq<u32>, x: u32, y: u32, k: int) -> int {
    match neighbor(map, x, y, k) {
        Some((nx, ny)) => {
            let v = d[map.index_of(nx, ny)];
            if v < UNREACHED { v + 1 } else { UNREACHED as int }
        },
        None => UNREACHED as int,
    }
}

pub open spec fn min4(a: int, b: int, c: int, e: int) -> int {
    let ab = if a <= b { a } else { b };
    let ce = if c <= e { c } else { e };
    if ab <= ce { ab } else { ce }
}

/// One round of shortening: an open tile takes the best of its own distance
/// and its neighbours' plus one.
pub open spec fn relax_tile(map: TowerMapState, d: Seq<u32>, i: int, hunter: (u32, u32)) -> u32 {
    let (x, y) = cell_of(map, i);
    if open_tile(map, x, y, hunter) {
        let best = min4(via(map, d, x, y, 0), via(map, d, x, y, 1), via(map, d, x, y, 2), via(map, d, x, y, 3));
        if best < d[i] { best as u32 } else { d[i] }
    } else {
        d[i]
    }
}

pub open spec fn relax(map: TowerMapState, d: Seq<u32>, hunter: (u32, u32)) -> Seq<u32> {
    Seq::new(d.len(), |i: int| relax_tile(map, d, i, hunter))
}

/// Distances to `target` after `k` rounds: the target at zero, every other tile unreached at first.
pub open spec fn chase_dist(map: TowerMapState, target: (u32, u32), hunter: (u32, u32), k: nat) -> Seq<u32>
    decreases k,
{
    if k == 0 {
        Seq::new(map.tiles@.len(), |i: int| if cell_of(map, i) == target { 0u32 } else { UNREACHED })
    } else {
        relax(map, chase_dist(map, target, hunter, (k - 1) as nat), hunter)
    }
}

/// Full distances: as many rounds as the map has tiles.
pub open spec fn chase_distances(map: TowerMapState, target: (u32, u32), hunter: (u32, u32)) -> Seq<u32> {
    chase_dist(map, target, hunter, map.tiles@.len())
}

fn neighbor_of(map: &TowerMapState, x: u32, y: u32, k: u32) -> (r: Option<(u32, u32)>)
    requires
        k < 4,
    ensures
        r == neighbor(*map, x, y, k as int),
{
    let (nx, ny): (u64, u64) = if k == 0 {
        if y == 0 {
            return None;
        }
        (x as u64, y as u64 - 1)
    } else if k == 1 {
        if x == 0 {
            return None;
        }
        (x as u64 - 1, y as u64)
    } else if k == 2 {
        (x as u64 + 1, y as u64)
    } else {
        (x as u64, y as u64 + 1)
    };
    if nx < map.width as u64 && ny < map.height as u64 {
        Some((nx as u32, ny as u32))
    } else {
        None
    }
}

fn open_tile_at(map: &TowerMapState, x: u32, y: u32, hunter: (u32, u32)) -> (r: bool)
    requires
        map.wf(),
    ensures
        r == open_tile(*map, x, y, hunter),
{
    map.is_passable(x, y) && ((x == hunter.0 && y == hunter.1) || map.object_index_at(x, y).is_none())
}

fn index_at(map: &TowerMapState, x: u32, y: u32) -> (i: usize)
    requires
        map.wf(),
        x < map.width,
        y < map.height,
    ensures
        i as int == map.index_of(x, y),
        i < map.tiles@.len(),
{
    proof {
        assert(y * map.width + x < map.width * map.height) by (nonlinear_arith)
            requires y < map.height, x < map.width;
        assert(map.width * map.height <= 1024 * 1024) by (nonlinear_arith)
            requires map.width <= 1024, map.height <= 1024;
    }
    (y as usize) * (map.width as usize) + (x as usize)
}

fn via_at(map: &TowerMapState, d: &Vec<u32>, x: u32, y: u32, k: u32) -> (v: u64)
    requires
        map.wf(),
        d@.len() == map.tiles@.len(),
        k < 4,
    ensures
        v == via(*map, d@, x, y, k as int),
{
    match neighbor_of(map, x, y, k) {
        Some((nx, ny)) => {
            proof {
                assert(nx < map.width && ny < map.height);
            }
            let i = index_at(map, nx, ny);
            let v = d[i];
            if v < UNREACHED { v as u64 + 1 } else { UNREACHED as u64 }
        },
        None => UNREACHED as u64,
    }
}

fn relax_once(map: &TowerMapState, d: &Vec<u32>, hunter: (u32, u32)) -> (r: Vec<u32>)
    requires
        map.wf(),
        d@.len() == map.tiles@.len(),
    ensures
        r@ == relax(*map, d@, hunter),
{
    let w = map.width;
    let h = map.height;
    let mut out: Vec<u32> = Vec::new();
    let mut y: u32 = 0;
    while y < h
        invariant
            map.wf(),
            d@.len() == map.tiles@.len(),
            w == map.width,
            h == map.height,
            y <= h,
            out@.len() == y * w,
            forall|j: int| 0 <= j < out@.len() ==> out@[j] == relax_tile(*map, d@, j, hunter),
        decreases h - y,
    {
        let mut x: u32 = 0;
        while x < w
            invariant
                map.wf(),
                d@.len() == map.tiles@.len(),
                w == map.width,
                h == map.height,
                y < h,
                x <= w,
                out@.len() == y * w + x,
                forall|j: int| 0 <= j < out@.len() ==> out@[j] == relax_tile(*map, d@, j, hunter),
            decreases w - x,
        {
            let i = index_at(map, x, y);
            proof {
                vstd::arithmetic::div_mod::lemma_fundamental_div_mod_converse(i as int, w as int, y as int, x as int);
                assert(cell_of(*map, i as int) == (x, y));
            }
            let current = d[i];
            let value = if open_tile_at(map, x, y, hunter) {
                let a = via_at(map, d, x, y, 0);
                let b = via_at(map, d, x, y, 1);
                let c = via_at(map, d, x, y, 2);
                let e = via_at(map, d, x, y, 3);
                let ab = if a <= b { a } else { b };
                let ce = if c <= e { c } else { e };
                let best = if ab <= ce { ab } else { ce };
                if best < current as u64 { best as u32 } else { current }
            } else {
                current
            };
            out.push(value);
            x += 1;
        }
        proof {
            assert(out@.len() == (y + 1) * w) by (nonlinear_arith)
                requires out@.len() == y * w + w;
        }
        y += 1;
    }
    proof {
        assert(out@.len() == map.tiles@.len()) by (nonlinear_arith)
            requires out@.len() == y * w, y == h, map.tiles@.len() == w * h;
        assert(out@ =~= relax(*map, d@, hunter));
    }
    out
}

/// Distances to `target` for a hunter standing at `hunter`.
pub fn chase_distance_grid(map: &TowerMapState, target: (u32, u32), hunter: (u32, u32)) -> (r: Vec<u32>)
    requires
        map.wf(),
    ensures
        r@ == chase_distances(*map, target, hunter),
        r@.len() == map.tiles@.len(),
{
    let n = map.tiles.len();
    let w = map.width;
    let h = map.height;
    let mut d: Vec<u32> = Vec::new();
    let mut y: u32 = 0;
    while y < h
        invariant
            map.wf(),
            n == map.tiles@.len(),
            w == map.width,
            h == map.height,
            y <= h,
            d@.len() == y * w,
            forall|j: int| 0 <= j < d@.len() ==> d@[j] == (if cell_of(*map, j) == target { 0u32 } else { UNREACHED }),
        decreases h - y,
    {
        let mut x: u32 = 0;
        while x < w
            invariant
                map.wf(),
                n == map.tiles@.len(),
                w == map.width,
                h == map.height,
                y < h,
                x <= w,
                d@.len() == y * w + x,
                forall|j: int| 0 <= j < d@.len() ==> d@[j] == (if cell_of(*map, j) == target { 0u32 } else { UNREACHED }),
            decreases w - x,
        {
            let ghost i = d@.len() as int;
            proof {
                vstd::arithmetic::div_mod::lemma_fundamental_div_mod_converse(i, w as int, y as int, x as int);
            }
            d.push(if x == target.0 && y == target.1 { 0 } else { UNREACHED });
            x += 1;
        }
        proof {
            assert(d@.len() == (y + 1) * w) by (nonlinear_arith)
                requires d@.len() == y * w + w;
        }
        y += 1;
    }
    proof {
        assert(d@.len() == n) by (nonlinear_arith)
            requires d@.len() == y * w, y == h, n == w * h;
        assert(d@ =~= chase_dist(*map, target, hunter, 0));
    }
    let mut k: usize = 0;
    while k < n
        invariant
            map.wf(),
            n == map.tiles@.len(),
            k <= n,
            d@ == chase_dist(*map, target, hunter, k as nat),
            d@.len() == n,
        decreases n - k,
    {
        d = relax_once(map, &d, hunter);
        k += 1;
    }
    d
}

pub struct WanderingEncounter {
    pub enemy_id: String,
    pub wandering: bool,
}

pub enum WanderingAdvance {
    Moved,
    Encounter(WanderingEncounter),
}

/// The first wandering enemy on the map.
pub open spec fn first_hunter(objs: Seq<TowerMapObject>) -> Option<int> {
    crate::seqs::first_where(objs, |o: TowerMapObject| o.wandering && o.kind == TowerMapObjectKind::Enemy)
}

/// Whether a tile touches the party's tile (or is it).
pub open spec fn touches_party(map: TowerMapState, x: u32, y: u32) -> bool {
    let dx = if x >= map.player_x { x - map.player_x } else { map.player_x - x };
    let dy = if y >= map.player_y { y - map.player_y } else { map.player_y - y };
    dx + dy <= 1
}

/// The hunter's step: among its open neighbours in the order up, left, right,
/// down, the first one closest to the party, when any is reached.
pub open spec fn best_step(map: TowerMapState, d: Seq<u32>, hunter: (u32, u32), k: int) -> Option<(u32, u32)>
    decreases 4 - k,
{
    if k >= 4 || k < 0 {
        None
    } else {
        let rest = best_step(map, d, hunter, k + 1);
        match neighbor(map, hunter.0, hunter.1, k) {
            Some((nx, ny)) => {
                let v = d[map.index_of(nx, ny)];
                if open_tile(map, nx, ny, hunter) && v < UNREACHED && (rest matches Some((rx, ry)) ==> v <= d[map.index_of(rx, ry)]) {
                    Some((nx, ny))
                } else {
                    rest
                }
            },
            None => rest,
        }
    }
}

/// A hunter's step goes to a tile beside it that is walkable and holds no
/// other object.
pub proof fn law_hunter_step(map: TowerMapState, d: Seq<u32>, hunter: (u32, u32), k: int)
    requires
        0 <= k <= 4,
    ensures
        best_step(map, d, hunter, k) matches Some((nx, ny)) ==> {
            &&& map.spec_passable(nx, ny)
            &&& ((nx as int - hunter.0) == 0 && (ny as int - hunter.1 == 1 || ny as int - hunter.1 == -1)
                || (ny as int - hunter.1) == 0 && (nx as int - hunter.0 == 1 || nx as int - hunter.0 == -1))
            &&& ((nx, ny) == hunter || first_object_at(map.objects@, nx, ny) is None)
        },
    decreases 4 - k,
{
    if k < 4 {
        law_hunter_step(map, d, hunter, k + 1);
    }
}

fn pick_step(map: &TowerMapState, d: &Vec<u32>, hunter: (u32, u32)) -> (r: Option<(u32, u32)>)
    requires
        map.wf(),
        d@.len() == map.tiles@.len(),
    ensures
        r == best_step(*map, d@, hunter, 0),
        r matches Some((x, y)) ==> x < map.width && y < map.height,
{
    let mut best: Option<(u32, u32)> = None;
    let mut k: u32 = 4;
    while k > 0
        invariant
            map.wf(),
            d@.len() == map.tiles@.len(),
            k <= 4,
            best == best_step(*map, d@, hunter, k as int),
            best matches Some((x, y)) ==> x < map.width && y < map.height,
        decreases k,
    {
        k -= 1;
        match neighbor_of(map, hunter.0, hunter.1, k) {
            Some((nx, ny)) => {
                let i = index_at(map, nx, ny);
                let v = d[i];
                let better = match best {
                    Some((bx, by)) => {
                        let j = index_at(map, bx, by);
                        v <= d[j]
                    },
                    None => true,
                };
                if open_tile_at(map, nx, ny, hunter) && v < UNREACHED && better {
                    best = Some((nx, ny));
                }
            },
            None => {},
        }
    }
    best
}

/// What moving the first wandering enemy does to the map (see `advance_wandering_enemy`).
pub open spec fn hunter_advanced(m0: TowerMapState, m1: TowerMapState, r: Option<WanderingAdvance>) -> bool {
    &&& (m1.wf())
    &&& (m1 == (TowerMapState { objects: m1.objects, ..m0 }))
    &&& (match first_hunter(m0.objects@) {
        None => r is None && m1.objects == m0.objects,
        Some(h) => {
            let o = m0.objects@[h];
            if touches_party(m0, o.x, o.y) {
                &&& r matches Some(WanderingAdvance::Encounter(e)) && e.enemy_id@ == o.enemy_id@ && e.wandering
                &&& m1.objects@ == m0.objects@.remove(h)
            } else {
                match best_step(m0, chase_distances(m0, (m0.player_x, m0.player_y), (o.x, o.y)), (o.x, o.y), 0) {
                    Some((nx, ny)) => r matches Some(WanderingAdvance::Moved)
                        && m1.objects@ == m0.objects@.update(h, TowerMapObject { x: nx, y: ny, ..o }),
                    None => r is None && m1.objects == m0.objects,
                }
            }
        },
    })
}

/// The first wandering enemy closes in: beside the party it intercepts it and
/// leaves the map; otherwise it takes one step along a shortest open route.
pub fn advance_wandering_enemy(map: &mut TowerMapState) -> (r: Option<WanderingAdvance>)
    requires
        old(map).wf(),
    ensures
        hunter_advanced(*old(map), *final(map), r),
{
    let ghost p = |o: TowerMapObject| o.wandering && o.kind == TowerMapObjectKind::Enemy;
    let mut found: Option<usize> = None;
    let mut i: usize = 0;
    while i < map.objects.len() && found.is_none()
        invariant
            i <= map.objects@.len(),
            found is None ==> crate::seqs::first_where(map.objects@.take(i as int), p) is None,
            found matches Some(h) ==> h < map.objects@.len() && crate::seqs::first_where(map.objects@, p) == Some(h as int),
            p == (|o: TowerMapObject| o.wandering && o.kind == TowerMapObjectKind::Enemy),
        decreases map.objects.len() - i,
    {
        proof { crate::seqs::lemma_first_where_step(map.objects@, p, i as int); }
        if map.objects[i].wandering && map.objects[i].kind == TowerMapObjectKind::Enemy {
            found = Some(i);
        }
        i += 1;
    }
    let h = match found {
        Some(h) => h,
        None => {
            proof { crate::seqs::lemma_first_where_done(map.objects@, p); }
            return None;
        },
    };
    let hx = map.objects[h].x;
    let hy = map.objects[h].y;
    let dx: u64 = if hx >= map.player_x { (hx - map.player_x) as u64 } else { (map.player_x - hx) as u64 };
    let dy: u64 = if hy >= map.player_y { (hy - map.player_y) as u64 } else { (map.player_y - hy) as u64 };
    if dx + dy <= 1 {
        let o = map.objects.remove(h);
        return Some(WanderingAdvance::Encounter(WanderingEncounter { enemy_id: o.enemy_id, wandering: true }));
    }
    let d = chase_distance_grid(map, (map.player_x, map.player_y), (hx, hy));
    match pick_step(map, &d, (hx, hy)) {
        Some((nx, ny)) => {
            let mut moved = map.objects.remove(h);
            moved.x = nx;
            moved.y = ny;
            map.objects.insert(h, moved);
            proof {
                assert(map.objects@ =~= old(map).objects@.update(h as int, TowerMapObject { x: nx, y: ny, ..old(map).objects@[h as int] }));
            }
            Some(WanderingAdvance::Moved)
        },
        None => None,
    }
}

// ---------------------------------------------------------------- exploring

/// The four steps a party can take.
pub open spec fn is_step(d: (i32, i32)) -> bool {
    d == (0i32, -1i32) || d == (-1i32, 0i32) || d == (1i32, 0i32) || d == (0i32, 1i32)
}

/// What it costs the party to enter tile `(x, y)`: one, except that a party
/// playing safe steers around enemies (15) and hazards (18) it has seen.
pub open spec fn step_cost(map: TowerMapState, goal: TowerRunGoal, x: u32, y: u32) -> int {
    if goal != TowerRunGoal::SafeRun || map.spec_visibility(x, y) == TowerTileVisibility::Hidden {
        1
    } else {
        match first_object_at(map.objects@, x, y) {
            Some(j) => match map.objects@[j].kind {
                TowerMapObjectKind::Enemy | TowerMapObjectKind::Boss => 15,
                TowerMapObjectKind::Hazard => 18,
                _ => 1,
            },
            None => 1,
        }
    }
}

fn traversal_cost(map: &TowerMapState, goal: TowerRunGoal, x: u32, y: u32) -> (c: u64)
    requires
        map.wf(),
    ensures
        c == step_cost(*map, goal, x, y),
        1 <= c <= 18,
{
    if goal != TowerRunGoal::SafeRun || !map.is_discovered(x, y) {
        return 1;
    }
    match map.object_at(x, y) {
        Some(o) => match o.kind {
            TowerMapObjectKind::Enemy | TowerMapObjectKind::Boss => 15,
            TowerMapObjectKind::Hazard => 18,
            _ => 1,
        },
        None => 1,
    }
}

/// The pull a goal puts on a kind of object: a goal's own kind of target
/// pulls hardest, a party playing safe is pushed away from danger, and
/// otherwise treasure pulls a little and danger pushes.
pub open spec fn goal_object_bias(goal: TowerRunGoal, kind: TowerMapObjectKind) -> int {
    match (goal, kind) {
        (TowerRunGoal::EggHunt, TowerMapObjectKind::Egg) => -90,
        (TowerRunGoal::Salvage, TowerMapObjectKind::Loot) => -80,
        (TowerRunGoal::Scout, TowerMapObjectKind::SpecialLocation) => -80,
        (TowerRunGoal::PushDeeper, TowerMapObjectKind::Stairs) => -100,
        (TowerRunGoal::SafeRun, TowerMapObjectKind::Exit) => -50,
        (TowerRunGoal::SafeRun, TowerMapObjectKind::Enemy) => 140,
        (TowerRunGoal::SafeRun, TowerMapObjectKind::Boss) => 140,
        (TowerRunGoal::SafeRun, TowerMapObjectKind::Hazard) => 170,
        (_, TowerMapObjectKind::SpecialLocation) => -20,
        (_, TowerMapObjectKind::Egg) => -10,
        (_, TowerMapObjectKind::Loot) => -10,
        (_, TowerMapObjectKind::SecretCache) => -10,
        (_, TowerMapObjectKind::Stairs) => 0,
        (_, TowerMapObjectKind::Exit) => 0,
        (_, TowerMapObjectKind::Enemy) => 30,
        (_, TowerMapObjectKind::Boss) => 30,
        (_, TowerMapObjectKind::Hazard) => 50,
    }
}

/// The pull a goal puts on unseen tiles: scouts seek them, a safe run avoids them.
pub open spec fn goal_frontier_bias(goal: TowerRunGoal) -> int {
    match goal {
        TowerRunGoal::Scout => -30,
        TowerRunGoal::SafeRun => 10,
        _ => 0,
    }
}

/// How strongly a goal pulls the party toward a kind of object (lower pulls harder).
fn object_bias(goal: TowerRunGoal, kind: TowerMapObjectKind) -> (b: i64)
    ensures
        b == goal_object_bias(goal, kind),
        -100 <= b <= 170,
{
    match (goal, kind) {
        (TowerRunGoal::EggHunt, TowerMapObjectKind::Egg) => -90,
        (TowerRunGoal::Salvage, TowerMapObjectKind::Loot) => -80,
        (TowerRunGoal::Scout, TowerMapObjectKind::SpecialLocation) => -80,
        (TowerRunGoal::PushDeeper, TowerMapObjectKind::Stairs) => -100,
        (TowerRunGoal::SafeRun, TowerMapObjectKind::Exit) => -50,
        (TowerRunGoal::SafeRun, TowerMapObjectKind::Enemy) => 140,
        (TowerRunGoal::SafeRun, TowerMapObjectKind::Boss) => 140,
        (TowerRunGoal::SafeRun, TowerMapObjectKind::Hazard) => 170,
        (_, TowerMapObjectKind::SpecialLocation) => -20,
        (_, TowerMapObjectKind::Egg) => -10,
        (_, TowerMapObjectKind::Loot) => -10,
        (_, TowerMapObjectKind::SecretCache) => -10,
        (_, TowerMapObjectKind::Stairs) => 0,
        (_, TowerMapObjectKind::Exit) => 0,
        (_, TowerMapObjectKind::Enemy) => 30,
        (_, TowerMapObjectKind::Boss) => 30,
        (_, TowerMapObjectKind::Hazard) => 50,
    }
}

/// How strongly a goal pulls the party toward unseen tiles.
fn frontier_bias(goal: TowerRunGoal) -> (b: i64)
    ensures
        b == goal_frontier_bias(goal),
        -30 <= b <= 10,
{
    match goal {
        TowerRunGoal::Scout => -30,
        TowerRunGoal::SafeRun => 10,
        _ => 0,
    }
}

/// The cost of reaching tile `(x, y)` through its neighbour `k`: the
/// neighbour's cost plus the cost of entering the tile, or unreached.
pub open spec fn cost_via(map: TowerMapState, goal: TowerRunGoal, d: Seq<u64>, x: u32, y: u32, k: int) -> int {
    match neighbor(map, x, y, k) {
        Some((nx, ny)) => {
            let v = d[map.index_of(nx, ny)];
            if v < u64::MAX { v + step_cost(map, goal, x, y) } else { u64::MAX as int }
        },
        None => u64::MAX as int,
    }
}

/// One round of shortening: a walkable tile takes the cheapest of its own
/// cost and the costs through its neighbours.
pub open spec fn cost_relax_tile(map: TowerMapState, goal: TowerRunGoal, d: Seq<u64>, i: int) -> u64 {
    let (x, y) = cell_of(map, i);
    if map.spec_passable(x, y) {
        let best = min4(
            cost_via(map, goal, d, x, y, 0),
            cost_via(map, goal, d, x, y, 1),
            cost_via(map, goal, d, x, y, 2),
            cost_via(map, goal, d, x, y, 3),
        );
        if best < d[i] { best as u64 } else { d[i] }
    } else {
        d[i]
    }
}

pub open spec fn cost_relax(map: TowerMapState, goal: TowerRunGoal, d: Seq<u64>) -> Seq<u64> {
    Seq::new(d.len(), |i: int| cost_relax_tile(map, goal, d, i))
}

/// The cheapest cost of reaching each tile from the party in at most `k`
/// steps over walkable tiles (the largest `u64` where no such path leads).
pub open spec fn costs_within(map: TowerMapState, goal: TowerRunGoal, k: nat) -> Seq<u64>
    decreases k,
{
    if k == 0 {
        Seq::new(map.tiles@.len(), |i: int| if cell_of(map, i) == (map.player_x, map.player_y) { 0u64 } else { u64::MAX })
    } else {
        cost_relax(map, goal, costs_within(map, goal, (k - 1) as nat))
    }
}

/// The cheapest cost of reaching each tile from the party: paths of at most
/// as many steps as the map has tiles, which is enough for every cheapest path.
pub open spec fn party_costs(map: TowerMapState, goal: TowerRunGoal) -> Seq<u64> {
    costs_within(map, goal, map.tiles@.len())
}

/// The pull on a tile: the pull of the first object on a seen tile, the
/// frontier's pull on an unseen one, none on a seen empty tile.
pub open spec fn tile_bias(map: TowerMapState, goal: TowerRunGoal, i: int) -> Option<int> {
    let (x, y) = cell_of(map, i);
    if map.spec_visibility(x, y) != TowerTileVisibility::Hidden {
        match first_object_at(map.objects@, x, y) {
            Some(j) => Some(goal_object_bias(goal, map.objects@[j].kind)),
            None => None,
        }
    } else {
        Some(goal_frontier_bias(goal))
    }
}

/// The map has tiles and the party stands on it.
pub open spec fn explore_ready(map: TowerMapState) -> bool {
    map.tiles@.len() > 0 && map.player_x < map.width && map.player_y < map.height
}

/// Tile `t` is worth heading for: another tile than the party's, reachable,
/// and either unseen or holding an object.
pub open spec fn target_candidate(map: TowerMapState, goal: TowerRunGoal, t: int) -> bool {
    &&& explore_ready(map)
    &&& 0 <= t < map.tiles@.len()
    &&& t != map.index_of(map.player_x, map.player_y)
    &&& party_costs(map, goal)[t] < u64::MAX
    &&& tile_bias(map, goal, t) is Some
}

/// How a target ranks: ten per point of path cost plus its pull (lower is better).
pub open spec fn target_score(map: TowerMapState, goal: TowerRunGoal, t: int) -> int {
    party_costs(map, goal)[t] * 10 + tile_bias(map, goal, t).unwrap()
}

/// The best-ranked target among the first `m` tiles, the first one on a tie.
pub open spec fn best_target_upto(map: TowerMapState, goal: TowerRunGoal, m: int) -> Option<int>
    decreases m,
{
    if m <= 0 {
        None
    } else {
        let b = best_target_upto(map, goal, m - 1);
        if target_candidate(map, goal, m - 1) && (b is None || target_score(map, goal, m - 1) < target_score(map, goal, b.unwrap())) {
            Some(m - 1)
        } else {
            b
        }
    }
}

/// The best-ranked target of the floor, the first one on a tie.
pub open spec fn best_target(map: TowerMapState, goal: TowerRunGoal) -> Option<int> {
    best_target_upto(map, goal, map.tiles@.len() as int)
}

/// Neighbour `n` of tile `(x, y)` lies on a cheapest way back toward the party.
pub open spec fn leads_back(map: TowerMapState, goal: TowerRunGoal, d: Seq<u64>, x: u32, y: u32, n: (u32, u32)) -> bool {
    &&& d[map.index_of(n.0, n.1)] < u64::MAX
    &&& d[map.index_of(n.0, n.1)] + step_cost(map, goal, x, y) <= d[map.index_of(x, y)]
}

/// The first neighbour of `(x, y)`, from neighbour `k` on in the order up,
/// left, right, down, that lies on a cheapest way back toward the party.
pub open spec fn back_from(map: TowerMapState, goal: TowerRunGoal, d: Seq<u64>, x: u32, y: u32, k: int) -> Option<(u32, u32)>
    decreases 4 - k,
{
    if k < 0 || k >= 4 {
        None
    } else {
        match neighbor(map, x, y, k) {
            Some(n) => if leads_back(map, goal, d, x, y, n) { Some(n) } else { back_from(map, goal, d, x, y, k + 1) },
            None => back_from(map, goal, d, x, y, k + 1),
        }
    }
}

/// Following the way back from `(x, y)` toward the party: the tile next to
/// the party on that way.
pub open spec fn walk_back(map: TowerMapState, goal: TowerRunGoal, d: Seq<u64>, x: u32, y: u32, fuel: nat) -> Option<(u32, u32)>
    decreases fuel,
{
    if fuel == 0 {
        None
    } else {
        match back_from(map, goal, d, x, y, 0) {
            None => None,
            Some(p) => if p == (map.player_x, map.player_y) {
                Some((x, y))
            } else {
                walk_back(map, goal, d, p.0, p.1, (fuel - 1) as nat)
            },
        }
    }
}

/// The first step along a cheapest path from the party to tile `t`.
pub open spec fn first_step_to(map: TowerMapState, goal: TowerRunGoal, t: int) -> Option<(i32, i32)> {
    let d = party_costs(map, goal);
    let (tx, ty) = cell_of(map, t);
    match walk_back(map, goal, d, tx, ty, (d[t] + 1) as nat) {
        Some((cx, cy)) => Some(((cx - map.player_x) as i32, (cy - map.player_y) as i32)),
        None => None,
    }
}

/// Where exploring leads: the first step toward the best target, if any.
pub open spec fn explore_step(map: TowerMapState, goal: TowerRunGoal) -> Option<(i32, i32)> {
    if !explore_ready(map) {
        None
    } else {
        match best_target(map, goal) {
            None => None,
            Some(t) => first_step_to(map, goal, t),
        }
    }
}

fn cost_via_at(map: &TowerMapState, goal: TowerRunGoal, d: &Vec<u64>, x: u32, y: u32, k: u32) -> (v: u64)
    requires
        map.wf(),
        d@.len() == map.tiles@.len(),
        k < 4,
        forall|j: int| 0 <= j < d@.len() ==> d@[j] == u64::MAX || d@[j] <= 18 * 1024 * 1024 * 2,
    ensures
        v == cost_via(*map, goal, d@, x, y, k as int),
{
    match neighbor_of(map, x, y, k) {
        Some((nx, ny)) => {
            let i = index_at(map, nx, ny);
            let v = d[i];
            if v < u64::MAX {
                let c = traversal_cost(map, goal, x, y);
                v + c
            } else {
                u64::MAX
            }
        },
        None => u64::MAX,
    }
}

proof fn lemma_cell_index(map: TowerMapState, i: int)
    requires
        map.wf(),
        0 <= i < map.tiles@.len(),
    ensures
        cell_of(map, i).0 < map.width,
        cell_of(map, i).1 < map.height,
        map.index_of(cell_of(map, i).0, cell_of(map, i).1) == i,
{
    assert(map.width > 0) by {
        if map.width == 0 {
            assert(map.tiles@.len() == 0) by (nonlinear_arith)
                requires map.tiles@.len() == map.width * map.height, map.width == 0;
        }
    }
    let w = map.width as int;
    vstd::arithmetic::div_mod::lemma_fundamental_div_mod(i, w);
    assert(i / w < map.height) by (nonlinear_arith)
        requires i < w * map.height, w > 0, i >= 0, i == w * (i / w) + i % w, 0 <= i % w < w;
    assert(0 <= i / w) by (nonlinear_arith) requires i >= 0, w > 0;
}

fn cost_relax_once(map: &TowerMapState, goal: TowerRunGoal, d: &Vec<u64>, bound: Ghost<int>) -> (r: Vec<u64>)
    requires
        map.wf(),
        d@.len() == map.tiles@.len(),
        bound@ <= 18 * 1024 * 1024,
        forall|j: int| 0 <= j < d@.len() ==> d@[j] == u64::MAX || d@[j] <= bound@,
    ensures
        r@ == cost_relax(*map, goal, d@),
        forall|j: int| 0 <= j < r@.len() ==> r@[j] == u64::MAX || r@[j] <= bound@ + 18,
{
    let n = d.len();
    let w = map.width as usize;
    let mut out: Vec<u64> = Vec::new();
    let mut i: usize = 0;
    while i < n
        invariant
            map.wf(),
            n == d@.len(),
            d@.len() == map.tiles@.len(),
            w == map.width,
            bound@ <= 18 * 1024 * 1024,
            forall|j: int| 0 <= j < d@.len() ==> d@[j] == u64::MAX || d@[j] <= bound@,
            i <= n,
            out@.len() == i,
            forall|j: int| 0 <= j < i ==> out@[j] == cost_relax_tile(*map, goal, d@, j),
            forall|j: int| 0 <= j < i ==> out@[j] == u64::MAX || out@[j] <= bound@ + 18,
        decreases n - i,
    {
        proof {
            lemma_cell_index(*map, i as int);
        }
        let x = (i % w) as u32;
        let y = (i / w) as u32;
        assert((x, y) == cell_of(*map, i as int));
        let current = d[i];
        proof {
            lemma_cost_via_bound(*map, goal, d@, x, y, 0, bound@);
            lemma_cost_via_bound(*map, goal, d@, x, y, 1, bound@);
            lemma_cost_via_bound(*map, goal, d@, x, y, 2, bound@);
            lemma_cost_via_bound(*map, goal, d@, x, y, 3, bound@);
        }
        let value = if map.is_passable(x, y) {
            let a = cost_via_at(map, goal, d, x, y, 0);
            let b = cost_via_at(map, goal, d, x, y, 1);
            let c = cost_via_at(map, goal, d, x, y, 2);
            let e = cost_via_at(map, goal, d, x, y, 3);
            let ab = if a <= b { a } else { b };
            let ce = if c <= e { c } else { e };
            let best = if ab <= ce { ab } else { ce };
            if best < current { best } else { current }
        } else {
            current
        };
        out.push(value);
        i += 1;
    }
    assert(out@ =~= cost_relax(*map, goal, d@));
    out
}

/// The cheapest cost of reaching every tile from the party (see `party_costs`).
fn path_costs(map: &TowerMapState, goal: TowerRunGoal) -> (d: Vec<u64>)
    requires
        map.wf(),
    ensures
        d@ == party_costs(*map, goal),
        d@.len() == map.tiles@.len(),
        forall|i: int| 0 <= i < d@.len() ==> d@[i] == u64::MAX || d@[i] <= 18 * map.tiles@.len(),
{
    let n = map.tiles.len();
    proof {
        assert(map.tiles@.len() <= 1024 * 1024) by (nonlinear_arith)
            requires map.tiles@.len() == map.width * map.height, map.width <= 1024, map.height <= 1024;
    }
    let w = map.width as usize;
    let mut d: Vec<u64> = Vec::new();
    let mut i: usize = 0;
    while i < n
        invariant
            map.wf(),
            n == map.tiles@.len(),
            n <= 1024 * 1024,
            w == map.width,
            i <= n,
            d@.len() == i,
            forall|j: int| 0 <= j < i ==> d@[j] == (if cell_of(*map, j) == (map.player_x, map.player_y) { 0u64 } else { u64::MAX }),
        decreases n - i,
    {
        proof {
            lemma_cell_index(*map, i as int);
        }
        let x = (i % w) as u32;
        let y = (i / w) as u32;
        assert((x, y) == cell_of(*map, i as int));
        d.push(if x == map.player_x && y == map.player_y { 0 } else { u64::MAX });
        i += 1;
    }
    assert(d@ =~= costs_within(*map, goal, 0));
    let mut k: usize = 0;
    while k < n
        invariant
            map.wf(),
            n == map.tiles@.len(),
            n <= 1024 * 1024,
            k <= n,
            d@ == costs_within(*map, goal, k as nat),
            d@.len() == n,
            forall|j: int| 0 <= j < d@.len() ==> d@[j] == u64::MAX || d@[j] <= 18 * k,
        decreases n - k,
    {
        d = cost_relax_once(map, goal, &d, Ghost(18 * k as int));
        k += 1;
    }
    d
}

/// The pull on the tile at `(x, y)` (see `tile_bias`).
fn tile_bias_at(map: &TowerMapState, goal: TowerRunGoal, x: u32, y: u32) -> (b: Option<i64>)
    requires
        map.wf(),
    ensures
        match b {
            Some(v) => tile_bias_xy(*map, goal, x, y) == Some(v as int),
            None => tile_bias_xy(*map, goal, x, y) is None,
        },
        b matches Some(v) ==> -100 <= v <= 170,
{
    if map.is_discovered(x, y) {
        match map.object_at(x, y) {
            Some(o) => Some(object_bias(goal, o.kind)),
            None => None,
        }
    } else {
        Some(frontier_bias(goal))
    }
}

/// The pull on the tile at `(x, y)`.
pub open spec fn tile_bias_xy(map: TowerMapState, goal: TowerRunGoal, x: u32, y: u32) -> Option<int> {
    if map.spec_visibility(x, y) != TowerTileVisibility::Hidden {
        match first_object_at(map.objects@, x, y) {
            Some(j) => Some(goal_object_bias(goal, map.objects@[j].kind)),
            None => None,
        }
    } else {
        Some(goal_frontier_bias(goal))
    }
}

/// The first neighbour of `(x, y)` on a cheapest way back (see `back_from`).
fn back_neighbor(map: &TowerMapState, goal: TowerRunGoal, d: &Vec<u64>, x: u32, y: u32) -> (r: Option<(u32, u32)>)
    requires
        map.wf(),
        d@.len() == map.tiles@.len(),
        x < map.width,
        y < map.height,
        forall|j: int| 0 <= j < d@.len() ==> d@[j] == u64::MAX || d@[j] <= 18 * 1024 * 1024 * 2,
    ensures
        r == back_from(*map, goal, d@, x, y, 0),
{
    let here = index_at(map, x, y);
    let cost = traversal_cost(map, goal, x, y);
    let mut k: u32 = 0;
    while k < 4
        invariant
            map.wf(),
            d@.len() == map.tiles@.len(),
            here as int == map.index_of(x, y),
            here < d@.len(),
            cost == step_cost(*map, goal, x, y),
            1 <= cost <= 18,
            k <= 4,
            forall|j: int| 0 <= j < d@.len() ==> d@[j] == u64::MAX || d@[j] <= 18 * 1024 * 1024 * 2,
            back_from(*map, goal, d@, x, y, 0) == back_from(*map, goal, d@, x, y, k as int),
        decreases 4 - k,
    {
        match neighbor_of(map, x, y, k) {
            Some((nx, ny)) => {
                let j = index_at(map, nx, ny);
                if d[j] < u64::MAX && d[j] + cost <= d[here] {
                    return Some((nx, ny));
                }
            },
            None => {},
        }
        k += 1;
    }
    None
}

/// The direction that takes the party one step toward the best target of the
/// floor (see `explore_step`); none when no target is reachable.
pub fn explore_direction(map: &TowerMapState, goal: TowerRunGoal) -> (r: Option<(i32, i32)>)
    requires
        map.wf(),
    ensures
        r == explore_step(*map, goal),
        (exists|t: int| target_candidate(*map, goal, t)) ==> r is Some,
        r matches Some(step) ==> is_step(step)
            && map.spec_passable((map.player_x + step.0) as u32, (map.player_y + step.1) as u32),
{
    proof {
        lemma_explore_step(*map, goal);
    }
    if map.tiles.len() == 0 || map.player_x >= map.width || map.player_y >= map.height {
        return None;
    }
    let d = path_costs(map, goal);
    let n = d.len();
    let w = map.width as usize;
    let start = index_at(map, map.player_x, map.player_y);
    proof {
        assert(map.tiles@.len() <= 1024 * 1024) by (nonlinear_arith)
            requires map.tiles@.len() == map.width * map.height, map.width <= 1024, map.height <= 1024;
    }
    let mut best: Option<(i64, usize)> = None;
    let mut i: usize = 0;
    while i < n
        invariant
            map.wf(),
            explore_ready(*map),
            n == d@.len(),
            d@ == party_costs(*map, goal),
            d@.len() == map.tiles@.len(),
            n <= 1024 * 1024,
            w == map.width,
            start as int == map.index_of(map.player_x, map.player_y),
            forall|j: int| 0 <= j < d@.len() ==> d@[j] == u64::MAX || d@[j] <= 18 * map.tiles@.len(),
            i <= n,
            (exists|t: int| target_candidate(*map, goal, t)) ==> explore_step(*map, goal) is Some,
            match best {
                None => best_target_upto(*map, goal, i as int) is None,
                Some((s, b)) => best_target_upto(*map, goal, i as int) == Some(b as int)
                    && s == target_score(*map, goal, b as int) && b < n,
            },
        decreases n - i,
    {
        proof {
            lemma_cell_index(*map, i as int);
        }
        let x = (i % w) as u32;
        let y = (i / w) as u32;
        assert((x, y) == cell_of(*map, i as int));
        let dist = d[i];
        if dist < u64::MAX && i != start {
            match tile_bias_at(map, goal, x, y) {
                Some(bias) => {
                    let score: i64 = dist as i64 * 10 + bias;
                    let better = match best {
                        Some((s, _)) => score < s,
                        None => true,
                    };
                    if better {
                        best = Some((score, i));
                    }
                },
                None => {},
            }
        }
        i += 1;
    }
    let target = match best {
        Some((_, b)) => b,
        None => {
            return None;
        },
    };
    proof {
        lemma_best_is_candidate(*map, goal, n as int);
    }
    first_step_along(map, goal, &d, target)
}

/// The first step along a cheapest path from the party to grid position
/// `target` (see `first_step_to`).
fn first_step_along(map: &TowerMapState, goal: TowerRunGoal, d: &Vec<u64>, target: usize) -> (r: Option<(i32, i32)>)
    requires
        map.wf(),
        explore_ready(*map),
        d@ == party_costs(*map, goal),
        d@.len() == map.tiles@.len(),
        forall|j: int| 0 <= j < d@.len() ==> d@[j] == u64::MAX || d@[j] <= 18 * map.tiles@.len(),
        target < d@.len(),
        d@[target as int] < u64::MAX,
    ensures
        r == first_step_to(*map, goal, target as int),
{
    proof {
        lemma_cell_index(*map, target as int);
        assert(map.tiles@.len() <= 1024 * 1024) by (nonlinear_arith)
            requires map.tiles@.len() == map.width * map.height, map.width <= 1024, map.height <= 1024;
    }
    let w = map.width as usize;
    let mut cx = (target % w) as u32;
    let mut cy = (target / w) as u32;
    assert((cx, cy) == cell_of(*map, target as int));
    let mut fuel: u64 = d[target] + 1;
    let ghost result = walk_back(*map, goal, d@, cx, cy, fuel as nat);
    loop
        invariant
            map.wf(),
            explore_ready(*map),
            d@ == party_costs(*map, goal),
            d@.len() == map.tiles@.len(),
            forall|j: int| 0 <= j < d@.len() ==> d@[j] == u64::MAX || d@[j] <= 18 * map.tiles@.len(),
            map.tiles@.len() <= 1024 * 1024,
            cx < map.width,
            cy < map.height,
            walk_back(*map, goal, d@, cx, cy, fuel as nat) == result,
            first_step_to(*map, goal, target as int) == match result {
                Some((ex, ey)) => Some::<(i32, i32)>(((ex - map.player_x) as i32, (ey - map.player_y) as i32)),
                None => None,
            },
        decreases fuel,
    {
        if fuel == 0 {
            return None;
        }
        let prev = back_neighbor(map, goal, d, cx, cy);
        match prev {
            None => {
                return None;
            },
            Some((px, py)) => {
                proof {
                    lemma_back_from_neighbor(*map, goal, d@, cx, cy, 0);
                }
                if px == map.player_x && py == map.player_y {
                    let dx: i64 = cx as i64 - px as i64;
                    let dy: i64 = cy as i64 - py as i64;
                    return Some((dx as i32, dy as i32));
                }
                cx = px;
                cy = py;
                fuel = fuel - 1;
            },
        }
    }
}

/// Where heading for tile `(tx, ty)` leads: the first step along a cheapest
/// path to it, when it is a walkable tile other than the party's and some
/// path reaches it.
pub open spec fn route_step(map: TowerMapState, goal: TowerRunGoal, tx: u32, ty: u32) -> Option<(i32, i32)> {
    if !explore_ready(map) || !map.spec_passable(tx, ty) || (tx, ty) == (map.player_x, map.player_y) {
        None
    } else if party_costs(map, goal)[map.index_of(tx, ty)] == u64::MAX {
        None
    } else {
        first_step_to(map, goal, map.index_of(tx, ty))
    }
}

/// The direction that takes the party one step toward tile `(tx, ty)` (see
/// `route_step`): a step onto a walkable tile whenever a path reaches it.
pub fn route_direction(map: &TowerMapState, goal: TowerRunGoal, tx: u32, ty: u32) -> (r: Option<(i32, i32)>)
    requires
        map.wf(),
    ensures
        r == route_step(*map, goal, tx, ty),
        r matches Some(step) ==> is_step(step)
            && map.spec_passable((map.player_x + step.0) as u32, (map.player_y + step.1) as u32),
        explore_ready(*map) && map.spec_passable(tx, ty) && (tx, ty) != (map.player_x, map.player_y)
            && party_costs(*map, goal)[map.index_of(tx, ty)] < u64::MAX ==> r is Some,
{
    if map.tiles.len() == 0 || !map.is_passable(tx, ty) {
        return None;
    }
    if map.player_x >= map.width || map.player_y >= map.height {
        return None;
    }
    if tx == map.player_x && ty == map.player_y {
        return None;
    }
    let target = index_at(map, tx, ty);
    let d = path_costs(map, goal);
    if d[target] == u64::MAX {
        return None;
    }
    proof {
        let start = map.index_of(map.player_x, map.player_y);
        if target as int == start {
            lemma_index_injective(*map, (tx, ty), (map.player_x, map.player_y));
        }
        lemma_first_step_ok(*map, goal, target as int);
    }
    first_step_along(map, goal, &d, target)
}

/// Entering a tile costs between one and eighteen.
proof fn lemma_step_cost_bounds(map: TowerMapState, goal: TowerRunGoal, x: u32, y: u32)
    ensures
        1 <= step_cost(map, goal, x, y) <= 18,
{
}

/// A neighbour on the map has a grid position on the map.
proof fn lemma_neighbor_index(map: TowerMapState, x: u32, y: u32, k: int)
    requires
        map.wf(),
    ensures
        neighbor(map, x, y, k) matches Some(n) ==> n.0 < map.width && n.1 < map.height
            && 0 <= map.index_of(n.0, n.1) < map.tiles@.len(),
{
    match neighbor(map, x, y, k) {
        Some(n) => {
            assert(n.1 * map.width + n.0 < map.width * map.height) by (nonlinear_arith)
                requires n.1 < map.height, n.0 < map.width;
            assert(0 <= n.1 * map.width) by (nonlinear_arith);
        },
        None => {},
    }
}

/// A cost through a neighbour is unreached or at most eighteen more than the
/// neighbour's cost.
proof fn lemma_cost_via_bound(map: TowerMapState, goal: TowerRunGoal, d: Seq<u64>, x: u32, y: u32, k: int, bound: int)
    requires
        map.wf(),
        d.len() == map.tiles@.len(),
        forall|j: int| 0 <= j < d.len() ==> d[j] == u64::MAX || d[j] <= bound,
    ensures
        cost_via(map, goal, d, x, y, k) == u64::MAX || (1 <= cost_via(map, goal, d, x, y, k) <= bound + 18),
{
    lemma_neighbor_index(map, x, y, k);
    lemma_step_cost_bounds(map, goal, x, y);
}

/// The best target found among the first `m` tiles is a target among them.
proof fn lemma_best_is_candidate(map: TowerMapState, goal: TowerRunGoal, m: int)
    ensures
        best_target_upto(map, goal, m) matches Some(t) ==> target_candidate(map, goal, t) && 0 <= t < m,
    decreases m,
{
    if m > 0 {
        lemma_best_is_candidate(map, goal, m - 1);
    }
}


/// Neighbour `kk` of `(x, y)` is on the map and on a cheapest way back.
pub open spec fn back_ok(map: TowerMapState, goal: TowerRunGoal, d: Seq<u64>, x: u32, y: u32, kk: int) -> bool {
    match neighbor(map, x, y, kk) {
        Some(nb) => leads_back(map, goal, d, x, y, nb),
        None => false,
    }
}

/// Tile `i` has a neighbour on a cheapest way back toward the party.
pub open spec fn way_back(map: TowerMapState, goal: TowerRunGoal, d: Seq<u64>, i: int) -> bool {
    exists|kk: int| 0 <= kk < 4 && #[trigger] back_ok(map, goal, d, cell_of(map, i).0, cell_of(map, i).1, kk)
}

/// Costs in which the party's tile costs nothing and every other reached tile
/// is walkable, costs at least one, and has a way back.
pub open spec fn costs_sound(map: TowerMapState, goal: TowerRunGoal, d: Seq<u64>) -> bool {
    &&& d.len() == map.tiles@.len()
    &&& d[map.index_of(map.player_x, map.player_y)] == 0
    &&& forall|i: int| 0 <= i < d.len() && i != map.index_of(map.player_x, map.player_y) && #[trigger] d[i] < u64::MAX
        ==> d[i] >= 1 && map.spec_passable(cell_of(map, i).0, cell_of(map, i).1) && way_back(map, goal, d, i)
}

/// Two tiles on the map share a grid position only when they are the same tile.
proof fn lemma_index_injective(map: TowerMapState, a: (u32, u32), b: (u32, u32))
    requires
        a.0 < map.width,
        b.0 < map.width,
        map.index_of(a.0, a.1) == map.index_of(b.0, b.1),
    ensures
        a == b,
{
    if a.1 != b.1 {
        if a.1 < b.1 {
            assert(a.1 * map.width + a.0 < b.1 * map.width + b.0) by (nonlinear_arith)
                requires a.1 < b.1, a.0 < map.width;
        } else {
            assert(b.1 * map.width + b.0 < a.1 * map.width + a.0) by (nonlinear_arith)
                requires b.1 < a.1, b.0 < map.width;
        }
    }
}

/// Every round of shortening keeps the costs sound.
proof fn lemma_costs_sound(map: TowerMapState, goal: TowerRunGoal, k: nat)
    requires
        map.wf(),
        explore_ready(map),
    ensures
        costs_sound(map, goal, costs_within(map, goal, k)),
    decreases k,
{
    let start = map.index_of(map.player_x, map.player_y);
    let player = (map.player_x, map.player_y);
    assert(0 <= start < map.tiles@.len()) by {
        assert(map.player_y * map.width + map.player_x < map.width * map.height) by (nonlinear_arith)
            requires map.player_y < map.height, map.player_x < map.width;
        assert(0 <= map.player_y * map.width) by (nonlinear_arith);
    }
    lemma_cell_index(map, start);
    lemma_index_injective(map, cell_of(map, start), player);
    if k == 0 {
        let d = costs_within(map, goal, 0);
        assert forall|i: int| 0 <= i < d.len() && i != start && #[trigger] d[i] < u64::MAX
            implies d[i] >= 1 && map.spec_passable(cell_of(map, i).0, cell_of(map, i).1) && way_back(map, goal, d, i) by {
            lemma_cell_index(map, i);
            assert(cell_of(map, i) == player);
        }
    } else {
        lemma_costs_sound(map, goal, (k - 1) as nat);
        let old = costs_within(map, goal, (k - 1) as nat);
        let d = costs_within(map, goal, k);
        assert(d == cost_relax(map, goal, old));
        assert forall|j: int| 0 <= j < d.len() implies #[trigger] d[j] <= old[j] by {
            assert(d[j] == cost_relax_tile(map, goal, old, j));
        }
        assert(d[start] == 0) by {
            assert(d[start] <= old[start]);
        }
        assert forall|i: int| 0 <= i < d.len() && i != start && #[trigger] d[i] < u64::MAX
            implies d[i] >= 1 && map.spec_passable(cell_of(map, i).0, cell_of(map, i).1) && way_back(map, goal, d, i) by {
            lemma_cell_index(map, i);
            let (x, y) = cell_of(map, i);
            assert(map.index_of(x, y) == i);
            assert(d[i] == cost_relax_tile(map, goal, old, i));
            lemma_step_cost_bounds(map, goal, x, y);
            if d[i] == old[i] {
                assert(old[i] < u64::MAX);
                assert(way_back(map, goal, old, i));
                let kk = choose|kk: int| 0 <= kk < 4 && #[trigger] back_ok(map, goal, old, x, y, kk);
                let nb = neighbor(map, x, y, kk).unwrap();
                lemma_neighbor_index(map, x, y, kk);
                let jn = map.index_of(nb.0, nb.1);
                assert(d[jn] <= old[jn]);
                assert(leads_back(map, goal, d, x, y, nb));
                assert(back_ok(map, goal, d, x, y, kk));
                assert(way_back(map, goal, d, i));
            } else {
                assert(map.spec_passable(x, y));
                let v0 = cost_via(map, goal, old, x, y, 0);
                let v1 = cost_via(map, goal, old, x, y, 1);
                let v2 = cost_via(map, goal, old, x, y, 2);
                let v3 = cost_via(map, goal, old, x, y, 3);
                let best = min4(v0, v1, v2, v3);
                assert(d[i] == best);
                let kk: int = if best == v0 { 0 } else if best == v1 { 1 } else if best == v2 { 2 } else { 3 };
                assert(best == cost_via(map, goal, old, x, y, kk));
                lemma_neighbor_index(map, x, y, kk);
                let nb = neighbor(map, x, y, kk).unwrap();
                let jn = map.index_of(nb.0, nb.1);
                assert(old[jn] < u64::MAX);
                assert(d[jn] <= old[jn]);
                assert(leads_back(map, goal, d, x, y, nb));
                assert(back_ok(map, goal, d, x, y, kk));
                assert(way_back(map, goal, d, i));
            }
        }
    }
}

/// When some neighbour from `k` on lies on a way back, `back_from` finds one.
proof fn lemma_back_from_some(map: TowerMapState, goal: TowerRunGoal, d: Seq<u64>, x: u32, y: u32, k: int, kk: int)
    requires
        0 <= k <= kk < 4,
        back_ok(map, goal, d, x, y, kk),
    ensures
        back_from(map, goal, d, x, y, k) is Some,
    decreases kk - k,
{
    if k < kk {
        match neighbor(map, x, y, k) {
            Some(n) => {
                if !leads_back(map, goal, d, x, y, n) {
                    lemma_back_from_some(map, goal, d, x, y, k + 1, kk);
                }
            },
            None => lemma_back_from_some(map, goal, d, x, y, k + 1, kk),
        }
    }
}

/// From a reached tile other than the party's, the way back always arrives
/// next to the party, on a walkable tile one step from it.
proof fn lemma_walk_back_arrives(map: TowerMapState, goal: TowerRunGoal, d: Seq<u64>, x: u32, y: u32, fuel: nat)
    requires
        map.wf(),
        explore_ready(map),
        costs_sound(map, goal, d),
        x < map.width,
        y < map.height,
        (x, y) != (map.player_x, map.player_y),
        d[map.index_of(x, y)] < u64::MAX,
        fuel > d[map.index_of(x, y)],
    ensures
        walk_back(map, goal, d, x, y, fuel) matches Some(c) && c.0 < map.width && c.1 < map.height
            && map.spec_passable(c.0, c.1)
            && (exists|kk: int| 0 <= kk < 4 && neighbor(map, c.0, c.1, kk) == Some((map.player_x, map.player_y))),
    decreases fuel,
{
    let i = map.index_of(x, y);
    assert(0 <= i < map.tiles@.len()) by {
        assert(y * map.width + x < map.width * map.height) by (nonlinear_arith)
            requires y < map.height, x < map.width;
        assert(0 <= y * map.width) by (nonlinear_arith);
    }
    lemma_cell_index(map, i);
    lemma_index_injective(map, cell_of(map, i), (x, y));
    let start = map.index_of(map.player_x, map.player_y);
    if i == start {
        lemma_index_injective(map, (x, y), (map.player_x, map.player_y));
    }
    assert(i != start);
    assert(d[i] < u64::MAX);
    assert(way_back(map, goal, d, i));
    let kk = choose|kk: int| 0 <= kk < 4 && #[trigger] back_ok(map, goal, d, x, y, kk);
    lemma_back_from_some(map, goal, d, x, y, 0, kk);
    lemma_back_from_neighbor(map, goal, d, x, y, 0);
    let p = back_from(map, goal, d, x, y, 0).unwrap();
    lemma_step_cost_bounds(map, goal, x, y);
    if p != (map.player_x, map.player_y) {
        lemma_walk_back_arrives(map, goal, d, p.0, p.1, (fuel - 1) as nat);
    }
}

/// A best target exists whenever some target does.
proof fn lemma_best_exists(map: TowerMapState, goal: TowerRunGoal, m: int, t: int)
    requires
        0 <= t < m,
        target_candidate(map, goal, t),
    ensures
        best_target_upto(map, goal, m) is Some,
    decreases m,
{
    if t < m - 1 {
        lemma_best_exists(map, goal, m - 1, t);
    }
}

/// The first step toward a target is one step onto a walkable tile.
proof fn lemma_first_step_ok(map: TowerMapState, goal: TowerRunGoal, t: int)
    requires
        map.wf(),
        explore_ready(map),
        0 <= t < map.tiles@.len(),
        t != map.index_of(map.player_x, map.player_y),
        party_costs(map, goal)[t] < u64::MAX,
    ensures
        first_step_to(map, goal, t) matches Some(step) && is_step(step)
            && map.spec_passable((map.player_x + step.0) as u32, (map.player_y + step.1) as u32),
{
    let d = party_costs(map, goal);
    lemma_costs_sound(map, goal, map.tiles@.len());
    lemma_cell_index(map, t);
    let (tx, ty) = cell_of(map, t);
    if (tx, ty) == (map.player_x, map.player_y) {
        assert(map.index_of(tx, ty) == map.index_of(map.player_x, map.player_y));
    }
    lemma_walk_back_arrives(map, goal, d, tx, ty, (d[t] + 1) as nat);
    let c = walk_back(map, goal, d, tx, ty, (d[t] + 1) as nat).unwrap();
    let kk = choose|kk: int| 0 <= kk < 4 && neighbor(map, c.0, c.1, kk) == Some((map.player_x, map.player_y));
    assert(is_step(((c.0 - map.player_x) as i32, (c.1 - map.player_y) as i32)));
}

/// Exploring moves one step onto a walkable tile, and does so whenever some
/// target is reachable.
pub proof fn lemma_explore_step(map: TowerMapState, goal: TowerRunGoal)
    requires
        map.wf(),
    ensures
        (exists|t: int| target_candidate(map, goal, t)) ==> explore_step(map, goal) is Some,
        explore_step(map, goal) matches Some(step) ==> is_step(step)
            && map.spec_passable((map.player_x + step.0) as u32, (map.player_y + step.1) as u32),
{
    if explore_ready(map) {
        let n = map.tiles@.len() as int;
        lemma_best_is_candidate(map, goal, n);
        if exists|t: int| target_candidate(map, goal, t) {
            let t = choose|t: int| target_candidate(map, goal, t);
            lemma_best_exists(map, goal, n, t);
        }
        match best_target(map, goal) {
            Some(t) => lemma_first_step_ok(map, goal, t),
            None => {},
        }
    }
}

/// What `back_from` finds is a neighbour on the map.
proof fn lemma_back_from_neighbor(map: TowerMapState, goal: TowerRunGoal, d: Seq<u64>, x: u32, y: u32, k: int)
    ensures
        back_from(map, goal, d, x, y, k) matches Some(p) ==> (exists|kk: int| 0 <= kk < 4 && neighbor(map, x, y, kk) == Some(p))
            && p.0 < map.width && p.1 < map.height && leads_back(map, goal, d, x, y, p),
    decreases 4 - k,
{
    if 0 <= k < 4 {
        lemma_back_from_neighbor(map, goal, d, x, y, k + 1);
    }
}

} // verus!
