//! What a floor holds: stairs and exits, caches, nests, landmarks, hazards and
//! enemies, each placed on a free floor tile.

use vstd::prelude::*;
use crate::state::records::holds_name;
use crate::arith::clamp_i32;
use crate::data::game_data::GameData;
use crate::data::schema::{
    EnemyDefinition, MonsterRole, PassiveSkill, TowerFloorDefinition, TowerHazardDefinition, TowerSpecialLocationDefinition,
};
use crate::engine::combat_support::{max_floor, spec_max_floor, enemy_fits, eligible_upto, lemma_eligible_bounds};
use crate::state::game::GameState;
use crate::state::tower_map::{
    TowerMapObject, TowerMapObjectKind, TowerMapRng, TowerMapState, TowerRoom, first_object_at, rng_draw, rng_step, rooms_fit, spec_range,
};
use crate::state::tower_run::TowerRunGoal;

verus! {

/// Only the objects of `a` may differ in `b`.
pub open spec fn objects_only(a: TowerMapState, b: TowerMapState) -> bool {
    b == TowerMapState { objects: b.objects, ..a }
}

/// `b` is `a` with at most the objects added at the end.
pub open spec fn objects_added(a: TowerMapState, b: TowerMapState) -> bool {
    &&& objects_only(a, b)
    &&& b.objects@.len() >= a.objects@.len()
    &&& forall|i: int| 0 <= i < a.objects@.len() ==> #[trigger] b.objects@[i] == a.objects@[i]
}

/// Where `object` may go: a walkable tile away from the party that holds nothing yet.
pub open spec fn free_spot(map: TowerMapState, x: u32, y: u32) -> bool {
    spot_free(map, map.objects@, x, y)
}

/// A walkable tile of `map` away from the party on which none of `objects` stands.
pub open spec fn spot_free(map: TowerMapState, objects: Seq<TowerMapObject>, x: u32, y: u32) -> bool {
    &&& map.spec_passable(x, y)
    &&& !(x == map.player_x && y == map.player_y)
    &&& first_object_at(objects, x, y) is None
}

/// The number of rooms, as the 32-bit count the room draws use.
pub open spec fn room_count32(map: TowerMapState) -> u32 {
    if map.rooms@.len() > u32::MAX { u32::MAX } else { map.rooms@.len() as u32 }
}

/// Where `place_object` puts an object on `map` holding `objects`, drawing
/// from generator state `state` with `tries` draws left, and the state after the draws: each
/// draw picks a room other than the first (the only room when there is one)
/// and a tile inside its walls, and the first free tile drawn is taken.
pub open spec fn placement(map: TowerMapState, objects: Seq<TowerMapObject>, state: u64, tries: nat) -> (Option<(u32, u32)>, u64)
    decreases tries,
{
    if tries == 0 || map.rooms@.len() == 0 {
        (None, state)
    } else {
        let count = room_count32(map);
        let pick = if count > 1 { spec_range(1, count, state) } else { (0u32, state) };
        let drawn = map.rooms@[pick.0 as int].spec_random_inner(pick.1);
        if spot_free(map, objects, drawn.0.0, drawn.0.1) {
            (Some(drawn.0), drawn.1)
        } else {
            placement(map, objects, drawn.1, (tries - 1) as nat)
        }
    }
}

/// `object` moved to the tile `spot`.
pub open spec fn moved_to(object: TowerMapObject, spot: (u32, u32)) -> TowerMapObject {
    TowerMapObject { x: spot.0, y: spot.1, ..object }
}

/// The objects of a map after `object` is put at `spot`, when there is one.
pub open spec fn with_placed(objects: Seq<TowerMapObject>, object: TowerMapObject, spot: Option<(u32, u32)>) -> Seq<TowerMapObject> {
    match spot {
        Some(p) => objects.push(moved_to(object, p)),
        None => objects,
    }
}

/// Places `object` on a free tile of a random room other than the first (the
/// only room when there is one); gives up after 80 draws.
pub fn place_object(map: &mut TowerMapState, object: TowerMapObject, rng: &mut TowerMapRng)
    requires
        old(map).wf(),
    ensures
        final(map).wf(),
        objects_only(*old(map), *final(map)),
        final(map).objects@ == with_placed(old(map).objects@, object, placement(*old(map), old(map).objects@, old(rng).state, 80).0),
        final(rng).state == placement(*old(map), old(map).objects@, old(rng).state, 80).1,
        final(map).objects@ == old(map).objects@ || {
            let placed = final(map).objects@.last();
            &&& final(map).objects@ == old(map).objects@.push(placed)
            &&& placed == (TowerMapObject { x: placed.x, y: placed.y, ..object })
            &&& free_spot(*old(map), placed.x, placed.y)
        },
{
    if map.rooms.len() == 0 {
        return;
    }
    let count: u32 = if map.rooms.len() > u32::MAX as usize { u32::MAX } else { map.rooms.len() as u32 };
    let mut tries: u32 = 0;
    while tries < 80
        invariant
            map.wf(),
            *map == *old(map),
            map.rooms@.len() > 0,
            count as int <= map.rooms@.len(),
            count >= 1,
            count == room_count32(*old(map)),
            tries <= 80,
            placement(*old(map), old(map).objects@, old(rng).state, 80) == placement(*old(map), old(map).objects@, rng.state, (80 - tries) as nat),
        decreases 80 - tries,
    {
        let ghost prev = rng.state;
        tries += 1;
        let room_index: usize = if count > 1 { rng.range(1, count) as usize } else { 0 };
        let room = map.rooms[room_index];
        let (x, y) = room.random_inner(rng);
        proof {
            assert(room.start_x + room.width <= 1024 && room.start_y + room.height <= 1024);
            let n = (80 - (tries - 1)) as nat;
            assert(placement(*old(map), old(map).objects@, prev, n) == if free_spot(*old(map), x, y) {
                (Some((x, y)), rng.state)
            } else {
                placement(*old(map), old(map).objects@, rng.state, (n - 1) as nat)
            });
        }
        if x == map.player_x && y == map.player_y {
            continue;
        }
        if !map.is_passable(x, y) || map.object_index_at(x, y).is_some() {
            continue;
        }
        let mut placed = object;
        placed.x = x;
        placed.y = y;
        map.objects.push(placed);
        return;
    }
}

/// Some object stands inside `room`.
pub open spec fn room_taken(objects: Seq<TowerMapObject>, room: TowerRoom) -> bool {
    exists|j: int| 0 <= j < objects.len() && room.spec_contains((#[trigger] objects[j]).x, objects[j].y)
}

/// Where `place_room_landmark` puts a landmark on `map` holding `objects`,
/// drawing from generator state `state` with `tries` draws left, and the state after the
/// draws: each draw picks a room other than the first, and the centre of the
/// first one drawn that holds no object is taken.
pub open spec fn landmark_placement(map: TowerMapState, objects: Seq<TowerMapObject>, state: u64, tries: nat) -> (Option<(u32, u32)>, u64)
    decreases tries,
{
    if tries == 0 || map.rooms@.len() <= 1 {
        (None, state)
    } else {
        let pick = spec_range(1, room_count32(map), state);
        let room = map.rooms@[pick.0 as int];
        if room_taken(objects, room) {
            landmark_placement(map, objects, pick.1, (tries - 1) as nat)
        } else {
            (Some(room.spec_center()), pick.1)
        }
    }
}

/// Places a landmark at the centre of a random room (not the first) that holds
/// no object yet; gives up after 80 draws, or when there is only one room.
pub fn place_room_landmark(map: &mut TowerMapState, object: TowerMapObject, rng: &mut TowerMapRng)
    requires
        old(map).wf(),
    ensures
        final(map).wf(),
        objects_only(*old(map), *final(map)),
        final(map).objects@ == with_placed(old(map).objects@, object, landmark_placement(*old(map), old(map).objects@, old(rng).state, 80).0),
        final(rng).state == landmark_placement(*old(map), old(map).objects@, old(rng).state, 80).1,
        final(map).objects@ == old(map).objects@ || {
            let placed = final(map).objects@.last();
            &&& final(map).objects@ == old(map).objects@.push(placed)
            &&& placed == (TowerMapObject { x: placed.x, y: placed.y, ..object })
            &&& exists|i: int| 1 <= i < old(map).rooms@.len() && (#[trigger] old(map).rooms@[i]).spec_center() == (placed.x, placed.y)
        },
{
    if map.rooms.len() <= 1 {
        return;
    }
    let count: u32 = if map.rooms.len() > u32::MAX as usize { u32::MAX } else { map.rooms.len() as u32 };
    let mut tries: u32 = 0;
    while tries < 80
        invariant
            map.wf(),
            *map == *old(map),
            map.rooms@.len() > 1,
            count as int <= map.rooms@.len(),
            count >= 2,
            count == room_count32(*old(map)),
            tries <= 80,
            landmark_placement(*old(map), old(map).objects@, old(rng).state, 80) == landmark_placement(*old(map), old(map).objects@, rng.state, (80 - tries) as nat),
        decreases 80 - tries,
    {
        let ghost prev = rng.state;
        tries += 1;
        let k = rng.range(1, count) as usize;
        let room = map.rooms[k];
        let mut taken = false;
        let mut j: usize = 0;
        while j < map.objects.len()
            invariant
                j <= map.objects@.len(),
                taken == exists|q: int| 0 <= q < j && room.spec_contains((#[trigger] map.objects@[q]).x, map.objects@[q].y),
            decreases map.objects.len() - j,
        {
            if room.contains(map.objects[j].x, map.objects[j].y) {
                taken = true;
            }
            j += 1;
        }
        proof {
            let n = (80 - (tries - 1)) as nat;
            assert(room == old(map).rooms@[k as int]);
            assert(taken == room_taken(old(map).objects@, room));
            assert(landmark_placement(*old(map), old(map).objects@, prev, n) == if taken {
                landmark_placement(*old(map), old(map).objects@, rng.state, (n - 1) as nat)
            } else {
                (Some(room.spec_center()), rng.state)
            });
        }
        if taken {
            continue;
        }
        let (x, y) = room.center();
        let mut placed = object;
        placed.x = x;
        placed.y = y;
        map.objects.push(placed);
        return;
    }
}

fn blank_object(kind: TowerMapObjectKind) -> (o: TowerMapObject)
    ensures
        o.spec_blank(kind),
{
    TowerMapObject::empty(kind)
}

/// The floor's caches: three plus one per three floors (up to three more),
/// three more when salvaging and one fewer when egg hunting or playing safe;
/// each holds a random loot entry with 0 to 2 extra (2 more when salvaging).
/// How many caches a floor holds: three, one more per three floors up to
/// three more, three more when salvaging and one fewer when hunting eggs or
/// playing safe.
pub open spec fn spec_loot_count(floor: u32, goal: TowerRunGoal) -> int {
    let base = 3 + (if floor / 3 <= 3 { floor / 3 } else { 3 });
    match goal {
        TowerRunGoal::Salvage => base + 3,
        TowerRunGoal::EggHunt | TowerRunGoal::SafeRun => base - 1,
        _ => base,
    }
}

/// A cache of the floor: one of its loot resources with that entry's amount,
/// two more when salvaging, and up to two more by chance.
pub open spec fn cache_from(floor: TowerFloorDefinition, goal: TowerRunGoal, o: TowerMapObject) -> bool {
    &&& o.kind == TowerMapObjectKind::Loot
    &&& exists|j: int| 0 <= j < floor.loot@.len() && #[trigger] floor.loot@[j].resource_id@ == o.resource_id@ && {
        let base = clamp_i32(floor.loot@[j].amount + if goal == TowerRunGoal::Salvage { 2int } else { 0int });
        base <= o.amount <= clamp_i32(base + 2)
    }
}

/// The number of loot entries the draws choose among, as the generator sees it.
pub open spec fn loot_span(floor: TowerFloorDefinition) -> u32 {
    if floor.loot@.len() > u32::MAX { u32::MAX } else { floor.loot@.len() as u32 }
}

/// The first `count` cache draws from generator state `state`: for each, the
/// loot entry picked and the 0 to 2 extra drawn after it. Also the state
/// after the draws.
#[verifier::opaque]
pub open spec fn cache_draws(floor: TowerFloorDefinition, state: u64, count: nat) -> (Seq<(int, int)>, u64)
    decreases count,
{
    if count == 0 {
        (Seq::empty(), state)
    } else {
        let prev = cache_draws(floor, state, (count - 1) as nat);
        let pick = spec_range(0, loot_span(floor), prev.1);
        let extra = spec_range(0, 3, pick.1);
        (prev.0.push((pick.0 as int, extra.0 as int)), extra.1)
    }
}

/// The cache that `draw` makes: the picked entry's resource with its amount,
/// two more when salvaging, plus the extra; nothing else set.
#[verifier::opaque]
pub open spec fn cache_made(floor: TowerFloorDefinition, goal: TowerRunGoal, draw: (int, int), o: TowerMapObject) -> bool {
    let base = floor.loot@[draw.0];
    &&& o.resource_id@ == base.resource_id@
    &&& o.amount == clamp_i32(clamp_i32(base.amount + if goal == TowerRunGoal::Salvage { 2int } else { 0int }) + draw.1)
    &&& o.kind == TowerMapObjectKind::Loot
    &&& o.x == 0 && o.y == 0
    &&& o.egg_type_id@.len() == 0 && o.hatch_days == 0 && o.palette_seed == 0
    &&& o.enemy_id@.len() == 0 && o.special_location_id@.len() == 0 && o.event_id@.len() == 0 && o.hazard_id@.len() == 0
    &&& !o.wandering && !o.revealed
}

proof fn lemma_cache_draws_len(floor: TowerFloorDefinition, state: u64, k: nat)
    ensures
        cache_draws(floor, state, k).0.len() == k,
    decreases k,
{
    reveal_with_fuel(cache_draws, 1);
    if k > 0 {
        lemma_cache_draws_len(floor, state, (k - 1) as nat);
    }
}

proof fn lemma_cache_draws_step(floor: TowerFloorDefinition, state: u64, k: nat)
    ensures
        cache_draws(floor, state, k).0.len() == k,
        ({
            let prev = cache_draws(floor, state, k);
            let one = cache_draws(floor, prev.1, 1);
            cache_draws(floor, state, k + 1) == (prev.0.push(one.0[0]), one.1)
        }),
{
    lemma_cache_draws_len(floor, state, k);
    reveal_with_fuel(cache_draws, 2);
    let prev = cache_draws(floor, state, k);
    assert(cache_draws(floor, prev.1, 0) == (Seq::<(int, int)>::empty(), prev.1));
    assert(cache_draws(floor, prev.1, 1).0 =~= seq![cache_draws(floor, prev.1, 1).0[0]]);
}

/// One cache drawn from the floor's loot.
fn draw_cache(floor: &TowerFloorDefinition, goal: TowerRunGoal, len: u32, bonus: i32, rng: &mut TowerMapRng) -> (o: TowerMapObject)
    requires
        len == loot_span(*floor),
        len >= 1,
        bonus == (if goal == TowerRunGoal::Salvage { 2i32 } else { 0i32 }),
    ensures
        cache_from(*floor, goal, o),
        cache_made(*floor, goal, cache_draws(*floor, old(rng).state, 1).0[0], o),
        final(rng).state == cache_draws(*floor, old(rng).state, 1).1,
{
    let ghost s0 = rng.state;
    let j32 = rng.range(0, len);
    let ghost s1 = rng.state;
    let j = j32 as usize;
    let base = &floor.loot[j];
    let e32 = rng.range(0, 3);
    let extra = e32 as i32;
    proof {
        assert((j32, s1) == spec_range(0, loot_span(*floor), s0));
        assert((e32, rng.state) == spec_range(0, 3, s1));
        reveal_with_fuel(cache_draws, 2);
        assert(cache_draws(*floor, s0, 1).0 =~= seq![(j as int, extra as int)]);
    }
    let mut o = blank_object(TowerMapObjectKind::Loot);
    o.resource_id = base.resource_id.clone();
    o.amount = crate::arith::sat_add_i32(crate::arith::sat_add_i32(base.amount, bonus), extra);
    proof {
        assert(floor.loot@[j as int].resource_id@ == o.resource_id@);
        assert(cache_from(*floor, goal, o));
        assert(cache_made(*floor, goal, (j as int, extra as int), o)) by {
            reveal(cache_made);
        }
    }
    o
}

pub fn loot_objects(floor: &TowerFloorDefinition, goal: TowerRunGoal, rng: &mut TowerMapRng) -> (r: Vec<TowerMapObject>)
    ensures
        floor.loot@.len() == 0 ==> r@.len() == 0,
        floor.loot@.len() > 0 ==> r@.len() == spec_loot_count(floor.floor, goal),
        forall|i: int| 0 <= i < r@.len() ==> #[trigger] cache_from(*floor, goal, r@[i]),
        floor.loot@.len() == 0 ==> final(rng).state == old(rng).state,
        floor.loot@.len() > 0 ==> {
            let d = cache_draws(*floor, old(rng).state, spec_loot_count(floor.floor, goal) as nat);
            &&& final(rng).state == d.1
            &&& forall|i: int| 0 <= i < r@.len() ==> cache_made(*floor, goal, d.0[i], #[trigger] r@[i])
        },
{
    let mut out: Vec<TowerMapObject> = Vec::new();
    if floor.loot.len() == 0 {
        return out;
    }
    let third = floor.floor / 3;
    let mut count: u32 = 3 + if third <= 3 { third } else { 3 };
    match goal {
        TowerRunGoal::Salvage => {
            count = count + 3;
        },
        TowerRunGoal::EggHunt | TowerRunGoal::SafeRun => {
            count = count - 1;
        },
        _ => {},
    }
    let len: u32 = if floor.loot.len() > u32::MAX as usize { u32::MAX } else { floor.loot.len() as u32 };
    let bonus: i32 = if goal == TowerRunGoal::Salvage { 2 } else { 0 };
    let mut k: u32 = 0;
    let ghost n = count;
    proof {
        assert(count == spec_loot_count(floor.floor, goal));
        reveal_with_fuel(cache_draws, 1);
    }
    while k < count
        invariant
            len as int <= floor.loot@.len(),
            len >= 1,
            count == n,
            out@.len() == k,
            k <= count,
            bonus == (if goal == TowerRunGoal::Salvage { 2i32 } else { 0i32 }),
            forall|i: int| 0 <= i < out@.len() ==> #[trigger] cache_from(*floor, goal, out@[i]),
            len == loot_span(*floor),
            cache_draws(*floor, old(rng).state, k as nat).1 == rng.state,
            k == 0 ==> rng.state == old(rng).state,
            forall|i: int| 0 <= i < out@.len() ==> cache_made(*floor, goal, cache_draws(*floor, old(rng).state, k as nat).0[i], #[trigger] out@[i]),
        decreases count - k,
    {
        let ghost prev = cache_draws(*floor, old(rng).state, k as nat);
        let ghost next = cache_draws(*floor, old(rng).state, k as nat + 1);
        let o = draw_cache(floor, goal, len, bonus, rng);
        proof {
            lemma_cache_draws_step(*floor, old(rng).state, k as nat);
        }
        let ghost before = out@;
        out.push(o);
        proof {
            assert forall|i: int| 0 <= i < out@.len() implies cache_made(*floor, goal, next.0[i], #[trigger] out@[i])
                && cache_from(*floor, goal, out@[i]) by {
                if i < before.len() {
                    assert(out@[i] == before[i]);
                    assert(next.0[i] == prev.0[i]);
                }
            }
        }
        k += 1;
    }
    out
}

/// A nest holding a known egg type with that type's incubation.
pub open spec fn egg_object_ok(data: GameData, o: TowerMapObject) -> bool {
    &&& o.kind == TowerMapObjectKind::Egg
    &&& match data.spec_egg_type(o.egg_type_id@) {
        Some(t) => t.hatch_days == o.hatch_days,
        None => false,
    }
}

/// How many nests a floor is given, drawn from generator state `state`: two
/// or three when egg hunting, none or one when salvaging, otherwise one two
/// times in three.
pub open spec fn nest_count(goal: TowerRunGoal, state: u64) -> int {
    match goal {
        TowerRunGoal::EggHunt => 2 + spec_range(0, 2, state).0,
        TowerRunGoal::Salvage => spec_range(0, 2, state).0 as int,
        _ => if rng_draw(rng_step(state)) % 3 < 2 { 1 } else { 0 },
    }
}

/// The nests filled in the first `count` draws with the generator at
/// `state`: each draw picks one of the floor's egg types and, when the data
/// knows it, yields its id, its incubation and a palette seed made from the
/// floor and 32 more random bits. Also the state after the draws.
#[verifier::opaque]
pub open spec fn nest_draws(floor: TowerFloorDefinition, data: GameData, state: u64, count: nat) -> (Seq<(Seq<char>, u32, u64)>, u64)
    decreases count,
{
    if count == 0 {
        (Seq::empty(), state)
    } else {
        let prev = nest_draws(floor, data, state, (count - 1) as nat);
        let pick = spec_range(0, bound32(floor.egg_types@.len() as int), prev.1);
        match data.spec_egg_type(floor.egg_types@[pick.0 as int]@) {
            Some(t) => {
                let s2 = rng_step(pick.1);
                (
                    prev.0.push((t.id@, t.hatch_days, 0xE66_0000u64 ^ ((floor.floor as u64) << 24u64) ^ (rng_draw(s2) as u64))),
                    s2,
                )
            },
            None => (prev.0, pick.1),
        }
    }
}

/// One more nest draw after `k` of them.
proof fn lemma_nest_draw_step(floor: TowerFloorDefinition, data: GameData, state: u64, k: nat)
    ensures
        ({
            let prev = nest_draws(floor, data, state, k);
            let pick = spec_range(0, bound32(floor.egg_types@.len() as int), prev.1);
            nest_draws(floor, data, state, k + 1) == match data.spec_egg_type(floor.egg_types@[pick.0 as int]@) {
                Some(t) => {
                    let s2 = rng_step(pick.1);
                    (
                        prev.0.push((t.id@, t.hatch_days, 0xE66_0000u64 ^ ((floor.floor as u64) << 24u64) ^ (rng_draw(s2) as u64))),
                        s2,
                    )
                },
                None => (prev.0, pick.1),
            }
        }),
{
    reveal(nest_draws);
    assert((k + 1 - 1) as nat == k);
}

/// Every egg type the floor lists is known to the data.
pub open spec fn egg_types_known(floor: TowerFloorDefinition, data: GameData) -> bool {
    forall|i: int| 0 <= i < floor.egg_types@.len() ==> (#[trigger] data.spec_egg_type(floor.egg_types@[i]@)) is Some
}

/// The floor's nests: two or three when egg hunting, none or one when
/// salvaging, otherwise one two times in three; each holds a random egg type
/// of the floor that the data knows.
pub fn egg_objects(floor: &TowerFloorDefinition, data: &GameData, goal: TowerRunGoal, rng: &mut TowerMapRng) -> (r: Vec<TowerMapObject>)
    ensures
        floor.egg_types@.len() > 0 ==> r@.len() <= nest_count(goal, old(rng).state),
        floor.egg_types@.len() > 0 && egg_types_known(*floor, *data) ==> r@.len() == nest_count(goal, old(rng).state),
        forall|i: int| 0 <= i < r@.len() ==> egg_object_ok(*data, #[trigger] r@[i])
            && holds_name(floor.egg_types@, r@[i].egg_type_id@),
        floor.egg_types@.len() == 0 ==> r@.len() == 0 && final(rng).state == old(rng).state,
        r@.len() <= if goal == TowerRunGoal::EggHunt { 3int } else { 1int },
        floor.egg_types@.len() > 0 ==> {
            let nests = nest_draws(*floor, *data, rng_step(old(rng).state), nest_count(goal, old(rng).state) as nat);
            &&& r@.len() == nests.0.len()
            &&& forall|i: int| 0 <= i < r@.len()
                ==> ((#[trigger] r@[i]).egg_type_id@, r@[i].hatch_days, r@[i].palette_seed) == nests.0[i]
            &&& final(rng).state == nests.1
        },
{
    let mut out: Vec<TowerMapObject> = Vec::new();
    if floor.egg_types.len() == 0 {
        return out;
    }
    let count: u32 = match goal {
        TowerRunGoal::EggHunt => 2 + rng.range(0, 2),
        TowerRunGoal::Salvage => rng.range(0, 2),
        _ => if rng.chance(2, 3) { 1 } else { 0 },
    };
    let len: u32 = if floor.egg_types.len() > u32::MAX as usize { u32::MAX } else { floor.egg_types.len() as u32 };
    let ghost s1 = rng.state;
    proof {
        assert(s1 == rng_step(old(rng).state));
        reveal(nest_draws);
    }
    let mut k: u32 = 0;
    while k < count
        invariant
            len as int <= floor.egg_types@.len(),
            len == bound32(floor.egg_types@.len() as int),
            s1 == rng_step(old(rng).state),
            out@.len() == nest_draws(*floor, *data, s1, k as nat).0.len(),
            forall|i: int| 0 <= i < out@.len()
                ==> ((#[trigger] out@[i]).egg_type_id@, out@[i].hatch_days, out@[i].palette_seed) == nest_draws(*floor, *data, s1, k as nat).0[i],
            rng.state == nest_draws(*floor, *data, s1, k as nat).1,
            len >= 1,
            out@.len() <= k,
            egg_types_known(*floor, *data) ==> out@.len() == k,
            count == nest_count(goal, old(rng).state),
            k <= count,
            count <= if goal == TowerRunGoal::EggHunt { 3u32 } else { 1u32 },
            forall|i: int| 0 <= i < out@.len() ==> egg_object_ok(*data, #[trigger] out@[i])
                && holds_name(floor.egg_types@, out@[i].egg_type_id@),
        decreases count - k,
    {
        let ghost nests = nest_draws(*floor, *data, s1, (k + 1) as nat);
        proof {
            lemma_nest_draw_step(*floor, *data, s1, k as nat);
        }
        let ghost prev_out = out@;
        let pick = rng.range(0, len) as usize;
        let egg_id = &floor.egg_types[pick];
        proof {
            if egg_types_known(*floor, *data) {
                assert(data.spec_egg_type(floor.egg_types@[pick as int]@) is Some);
            }
        }
        match data.egg_type(egg_id.as_str()) {
            Some(t) => {
                let bits = rng.next_u32();
                let mut o = blank_object(TowerMapObjectKind::Egg);
                o.egg_type_id = t.id.clone();
                o.hatch_days = t.hatch_days;
                o.palette_seed = 0xE66_0000u64 ^ ((floor.floor as u64) << 24u64) ^ (bits as u64);
                proof {
                    crate::data::game_data::lemma_first_keyed(data.egg_types@, egg_id@);
                    assert(floor.egg_types@[pick as int]@ == o.egg_type_id@);
                    assert(data.spec_egg_type(floor.egg_types@[pick as int]@) == Some(*t));
                    assert(rng.state == nests.1);
                }
                out.push(o);
                proof {
                    assert(nests.0 == nest_draws(*floor, *data, s1, k as nat).0.push((t.id@, t.hatch_days, o.palette_seed)));
                    assert forall|i: int| 0 <= i < out@.len()
                        implies ((#[trigger] out@[i]).egg_type_id@, out@[i].hatch_days, out@[i].palette_seed) == nests.0[i] by {
                        if i < prev_out.len() {
                            assert(out@[i] == prev_out[i]);
                        }
                    }
                }
            },
            None => {
                proof {
                    assert(data.spec_egg_type(floor.egg_types@[pick as int]@) is None);
                    assert(nests == (nest_draws(*floor, *data, s1, k as nat).0, rng.state));
                }
            },
        }
        k += 1;
    }
    out
}

/// A landmark that may appear on `floor`.
pub open spec fn location_fits(l: TowerSpecialLocationDefinition, floor: u32) -> bool {
    l.min_floor <= floor && floor <= l.max_floor
}

/// Some landmark of the data may appear on `floor`.
pub open spec fn some_location_fits(data: GameData, floor: u32) -> bool {
    exists|j: int| 0 <= j < data.tower_special_locations@.len() && location_fits(#[trigger] data.tower_special_locations@[j], floor)
}

/// Two different landmarks of the data may appear on `floor`.
pub open spec fn two_locations_fit(data: GameData, floor: u32) -> bool {
    exists|j1: int, j2: int| 0 <= j1 < j2 < data.tower_special_locations@.len()
        && location_fits(#[trigger] data.tower_special_locations@[j1], floor)
        && location_fits(#[trigger] data.tower_special_locations@[j2], floor)
}

/// Every landmark that may appear on `floor` has at least one approach.
pub open spec fn fitting_locations_have_events(data: GameData, floor: u32) -> bool {
    forall|j: int| 0 <= j < data.tower_special_locations@.len() && location_fits(#[trigger] data.tower_special_locations@[j], floor)
        ==> data.tower_special_locations@[j].event_ids@.len() > 0
}

/// The positions, in order, of the landmarks that may appear on `floor`.
pub open spec fn fitting_locations(locations: Seq<TowerSpecialLocationDefinition>, floor: u32) -> Seq<int>
    decreases locations.len(),
{
    if locations.len() == 0 {
        Seq::empty()
    } else {
        let before = fitting_locations(locations.drop_last(), floor);
        if location_fits(locations.last(), floor) { before.push(locations.len() - 1) } else { before }
    }
}

/// The landmarks met in the first `count` visits, going round the fitting
/// landmarks from position `start` with the generator at `state`: each visit
/// draws one of the landmark's approaches (none when it has none) and yields
/// the landmark's id and that approach. Also the state after the visits.
#[verifier::opaque]
pub open spec fn landmark_visits(data: GameData, floor: u32, start: int, state: u64, count: nat) -> (Seq<(Seq<char>, Seq<char>)>, u64)
    decreases count,
{
    if count == 0 {
        (Seq::empty(), state)
    } else {
        let prev = landmark_visits(data, floor, start, state, (count - 1) as nat);
        let fitting = fitting_locations(data.tower_special_locations@, floor);
        let loc = data.tower_special_locations@[fitting[(start + count - 1) % (fitting.len() as int)]];
        let e = spec_range(0, bound32(loc.event_ids@.len() as int), prev.1);
        (
            if (e.0 as int) < loc.event_ids@.len() { prev.0.push((loc.id@, loc.event_ids@[e.0 as int]@)) } else { prev.0 },
            e.1,
        )
    }
}

/// One more landmark visit after `offset` of them.
proof fn lemma_landmark_visit_step(data: GameData, floor: u32, start: int, state: u64, offset: nat)
    ensures
        ({
            let prev = landmark_visits(data, floor, start, state, offset);
            let fitting = fitting_locations(data.tower_special_locations@, floor);
            let loc = data.tower_special_locations@[fitting[(start + offset) % (fitting.len() as int)]];
            let e = spec_range(0, bound32(loc.event_ids@.len() as int), prev.1);
            landmark_visits(data, floor, start, state, offset + 1) == (
                if (e.0 as int) < loc.event_ids@.len() { prev.0.push((loc.id@, loc.event_ids@[e.0 as int]@)) } else { prev.0 },
                e.1,
            )
        }),
{
    reveal(landmark_visits);
    assert((offset + 1 - 1) as nat == offset);
}

/// Where the round of landmark visits starts, drawn from `state` (after the
/// coin for a second landmark, when one is tossed), and the state after it.
pub open spec fn landmark_start(data: GameData, floor: u32, goal: TowerRunGoal, state: u64) -> (u32, u64) {
    let n = fitting_locations(data.tower_special_locations@, floor).len() as int;
    let tossed = if goal == TowerRunGoal::Scout || n <= 1 { state } else { rng_step(state) };
    spec_range(0, bound32(n), tossed)
}

/// How many landmarks a floor is given, drawn from generator state `state`:
/// none when none fits, one when only one fits, otherwise two when scouting
/// or one time in three.
pub open spec fn landmark_count(data: GameData, floor: u32, goal: TowerRunGoal, state: u64) -> int {
    if !some_location_fits(data, floor) {
        0
    } else if !two_locations_fit(data, floor) {
        1
    } else if goal == TowerRunGoal::Scout || rng_draw(rng_step(state)) % 3 < 1 {
        2
    } else {
        1
    }
}

/// One or two landmarks (two when scouting, or one time in three when more
/// than one can appear), drawn in turn from a random starting point among the
/// floor's eligible landmarks, each with one of its approaches.
#[verifier::rlimit(30)]
pub fn special_location_objects(data: &GameData, floor: u32, goal: TowerRunGoal, rng: &mut TowerMapRng) -> (r: Vec<TowerMapObject>)
    ensures
        r@.len() <= 2,
        r@.len() <= landmark_count(*data, floor, goal, old(rng).state),
        fitting_locations_have_events(*data, floor) ==> r@.len() == landmark_count(*data, floor, goal, old(rng).state),
        !some_location_fits(*data, floor) ==> r@.len() == 0 && final(rng).state == old(rng).state,
        some_location_fits(*data, floor) ==> {
            let st = landmark_start(*data, floor, goal, old(rng).state);
            let visits = landmark_visits(*data, floor, st.0 as int, st.1, landmark_count(*data, floor, goal, old(rng).state) as nat);
            &&& r@.len() == visits.0.len()
            &&& forall|i: int| 0 <= i < r@.len() ==> ((#[trigger] r@[i]).special_location_id@, r@[i].event_id@) == visits.0[i]
            &&& final(rng).state == visits.1
        },
        forall|i: int| 0 <= i < r@.len() ==> (#[trigger] r@[i]).kind == TowerMapObjectKind::SpecialLocation
            && (exists|j: int| 0 <= j < data.tower_special_locations@.len()
                && (#[trigger] data.tower_special_locations@[j]).id@ == r@[i].special_location_id@),
        forall|i: int| 0 <= i < r@.len() ==> exists|j: int| 0 <= j < data.tower_special_locations@.len()
            && location_fits(#[trigger] data.tower_special_locations@[j], floor)
            && data.tower_special_locations@[j].id@ == (#[trigger] r@[i]).special_location_id@
            && exists|e: int| 0 <= e < data.tower_special_locations@[j].event_ids@.len()
                && (#[trigger] data.tower_special_locations@[j].event_ids@[e])@ == r@[i].event_id@,
{
    let mut eligible: Vec<usize> = Vec::new();
    let mut i: usize = 0;
    while i < data.tower_special_locations.len()
        invariant
            i <= data.tower_special_locations@.len(),
            forall|k: int| 0 <= k < eligible@.len() ==> #[trigger] eligible@[k] < i
                && location_fits(data.tower_special_locations@[eligible@[k] as int], floor),
            forall|a: int, b: int| 0 <= a < b < eligible@.len() ==> #[trigger] eligible@[a] < #[trigger] eligible@[b],
            (exists|j: int| 0 <= j < i && location_fits(#[trigger] data.tower_special_locations@[j], floor)) ==> eligible@.len() > 0,
            (exists|j1: int, j2: int| 0 <= j1 < j2 < i && location_fits(#[trigger] data.tower_special_locations@[j1], floor)
                && location_fits(#[trigger] data.tower_special_locations@[j2], floor)) ==> eligible@.len() > 1,
            eligible@.len() == fitting_locations(data.tower_special_locations@.take(i as int), floor).len(),
            forall|q: int| 0 <= q < eligible@.len() ==> eligible@[q] as int
                == #[trigger] fitting_locations(data.tower_special_locations@.take(i as int), floor)[q],
        decreases data.tower_special_locations.len() - i,
    {
        let l = &data.tower_special_locations[i];
        let ghost before = eligible@;
        proof {
            assert(data.tower_special_locations@.take(i as int + 1).drop_last() =~= data.tower_special_locations@.take(i as int));
            assert(data.tower_special_locations@.take(i as int + 1).last() == data.tower_special_locations@[i as int]);
        }
        if l.min_floor <= floor && floor <= l.max_floor {
            eligible.push(i);
            proof {
                assert forall|q: int| 0 <= q < eligible@.len() implies eligible@[q] as int
                    == #[trigger] fitting_locations(data.tower_special_locations@.take(i as int + 1), floor)[q] by {
                    if q < before.len() {
                        assert(eligible@[q] == before[q]);
                    }
                }
                assert forall|k: int| 0 <= k < eligible@.len() implies #[trigger] eligible@[k] < i + 1
                    && location_fits(data.tower_special_locations@[eligible@[k] as int], floor) by {
                    if k < before.len() {
                        assert(eligible@[k] == before[k]);
                    }
                }
                assert forall|a: int, b: int| 0 <= a < b < eligible@.len() implies #[trigger] eligible@[a] < #[trigger] eligible@[b] by {
                    if b < before.len() {
                        assert(eligible@[a] == before[a] && eligible@[b] == before[b]);
                    } else {
                        assert(eligible@[a] == before[a]);
                    }
                }
                if exists|j1: int, j2: int| 0 <= j1 < j2 < i + 1 && location_fits(#[trigger] data.tower_special_locations@[j1], floor)
                    && location_fits(#[trigger] data.tower_special_locations@[j2], floor) {
                    let (j1, j2) = choose|j1: int, j2: int| 0 <= j1 < j2 < i + 1 && location_fits(#[trigger] data.tower_special_locations@[j1], floor)
                        && location_fits(#[trigger] data.tower_special_locations@[j2], floor);
                    if j2 < i {
                    } else {
                        assert(location_fits(data.tower_special_locations@[j1], floor));
                    }
                }
            }
        }
        i += 1;
    }
    proof {
        assert(data.tower_special_locations@.take(i as int) =~= data.tower_special_locations@);
    }
    let mut out: Vec<TowerMapObject> = Vec::new();
    let len = eligible.len();
    if len == 0 {
        return out;
    }
    proof {
        assert(location_fits(data.tower_special_locations@[eligible@[0] as int], floor));
        if len > 1 {
            assert(eligible@[0] < eligible@[1]);
            assert(location_fits(data.tower_special_locations@[eligible@[1] as int], floor));
        }
    }
    let two = goal == TowerRunGoal::Scout || (len > 1 && rng.chance(1, 3));
    let count: usize = if two { 2 } else { 1 };
    let count = if count < len { count } else { len };
    proof {
        assert(count == landmark_count(*data, floor, goal, old(rng).state));
    }
    let len32: u32 = if len > u32::MAX as usize { u32::MAX } else { len as u32 };
    let start = rng.range(0, len32) as usize;
    let ghost st = landmark_start(*data, floor, goal, old(rng).state);
    proof {
        assert(start as int == st.0 && rng.state == st.1);
        reveal(landmark_visits);
    }
    let mut offset: usize = 0;
    while offset < count
        invariant
            count <= 2,
            count <= len,
            len == eligible@.len(),
            start < len,
            offset <= count,
            out@.len() <= offset,
            count == landmark_count(*data, floor, goal, old(rng).state),
            start as int == st.0,
            fitting_locations(data.tower_special_locations@, floor).len() == len,
            forall|q: int| 0 <= q < eligible@.len() ==> eligible@[q] as int
                == #[trigger] fitting_locations(data.tower_special_locations@, floor)[q],
            out@.len() == landmark_visits(*data, floor, st.0 as int, st.1, offset as nat).0.len(),
            forall|q: int| 0 <= q < out@.len() ==> ((#[trigger] out@[q]).special_location_id@, out@[q].event_id@)
                == landmark_visits(*data, floor, st.0 as int, st.1, offset as nat).0[q],
            rng.state == landmark_visits(*data, floor, st.0 as int, st.1, offset as nat).1,
            fitting_locations_have_events(*data, floor) ==> out@.len() == offset,
            forall|k: int| 0 <= k < eligible@.len() ==> #[trigger] eligible@[k] < data.tower_special_locations@.len()
                && location_fits(data.tower_special_locations@[eligible@[k] as int], floor),
            forall|i: int| 0 <= i < out@.len() ==> (#[trigger] out@[i]).kind == TowerMapObjectKind::SpecialLocation
                && (exists|j: int| 0 <= j < data.tower_special_locations@.len()
                    && (#[trigger] data.tower_special_locations@[j]).id@ == out@[i].special_location_id@),
            forall|i: int| 0 <= i < out@.len() ==> exists|j: int| 0 <= j < data.tower_special_locations@.len()
                && location_fits(#[trigger] data.tower_special_locations@[j], floor)
                && data.tower_special_locations@[j].id@ == (#[trigger] out@[i]).special_location_id@
                && exists|e: int| 0 <= e < data.tower_special_locations@[j].event_ids@.len()
                    && (#[trigger] data.tower_special_locations@[j].event_ids@[e])@ == out@[i].event_id@,
        decreases count - offset,
    {
        let pos = ((start as u64 + offset as u64) % (len as u64)) as usize;
        let j = eligible[pos];
        let location = &data.tower_special_locations[j];
        let n = location.event_ids.len();
        let n32: u32 = if n > u32::MAX as usize { u32::MAX } else { n as u32 };
        let ghost prev_out = out@;
        let ghost visits = landmark_visits(*data, floor, st.0 as int, st.1, (offset + 1) as nat);
        proof {
            lemma_landmark_visit_step(*data, floor, st.0 as int, st.1, offset as nat);
        }
        let e = rng.range(0, n32) as usize;
        proof {
            assert(location_fits(data.tower_special_locations@[j as int], floor));
            assert(pos as int == (st.0 + offset) % (len as int));
            assert(j as int == fitting_locations(data.tower_special_locations@, floor)[pos as int]);
            assert(rng.state == visits.1);
        }
        if e < n {
            let o = TowerMapObject::special_location(location.id.as_str(), location.event_ids[e].as_str());
            proof {
                assert(data.tower_special_locations@[j as int].id@ == o.special_location_id@);
                assert(data.tower_special_locations@[j as int].event_ids@[e as int]@ == o.event_id@);
            }
            let ghost before = out@;
            out.push(o);
            proof {
                assert(visits.0 == landmark_visits(*data, floor, st.0 as int, st.1, offset as nat).0.push(
                    (data.tower_special_locations@[j as int].id@, data.tower_special_locations@[j as int].event_ids@[e as int]@)));
                assert forall|q: int| 0 <= q < out@.len() implies ((#[trigger] out@[q]).special_location_id@, out@[q].event_id@)
                    == visits.0[q] by {
                    if q < before.len() {
                        assert(out@[q] == before[q]);
                    }
                }
                assert forall|i: int| 0 <= i < out@.len() implies exists|j2: int| 0 <= j2 < data.tower_special_locations@.len()
                    && location_fits(#[trigger] data.tower_special_locations@[j2], floor)
                    && data.tower_special_locations@[j2].id@ == (#[trigger] out@[i]).special_location_id@
                    && exists|e2: int| 0 <= e2 < data.tower_special_locations@[j2].event_ids@.len()
                        && (#[trigger] data.tower_special_locations@[j2].event_ids@[e2])@ == out@[i].event_id@ by {
                    if i < before.len() {
                        assert(out@[i] == before[i]);
                    } else {
                        assert(out@[i] == o);
                        assert(data.tower_special_locations@[j as int].event_ids@[e as int]@ == out@[i].event_id@);
                    }
                }
            }
        } else {
            proof {
                if fitting_locations_have_events(*data, floor) {
                    assert(data.tower_special_locations@[j as int].event_ids@.len() > 0);
                }
                assert(visits.0 == landmark_visits(*data, floor, st.0 as int, st.1, offset as nat).0);
            }
        }
        offset += 1;
    }
    out
}

/// A hazard that may appear on `floor`.
pub open spec fn hazard_fits(h: TowerHazardDefinition, floor: u32) -> bool {
    h.min_floor <= floor && floor <= h.max_floor
}

/// Some hazard of the data may appear on `floor`.
pub open spec fn some_hazard_fits(data: GameData, floor: u32) -> bool {
    exists|j: int| 0 <= j < data.tower_hazards@.len() && hazard_fits(#[trigger] data.tower_hazards@[j], floor)
}

/// The positions, in order, of the hazards that may appear on `floor`.
pub open spec fn fitting_hazards(hazards: Seq<TowerHazardDefinition>, floor: u32) -> Seq<int>
    decreases hazards.len(),
{
    if hazards.len() == 0 {
        Seq::empty()
    } else {
        let before = fitting_hazards(hazards.drop_last(), floor);
        if hazard_fits(hazards.last(), floor) { before.push(hazards.len() - 1) } else { before }
    }
}

/// The generator state `k` draws on from `state`.
pub open spec fn draws_on(state: u64, k: nat) -> u64
    decreases k,
{
    if k == 0 { state } else { rng_step(draws_on(state, (k - 1) as nat)) }
}

/// A count as the 32-bit bound the draws use.
pub open spec fn bound32(n: int) -> u32 {
    if n > u32::MAX { u32::MAX } else { n as u32 }
}

/// The hazard the `k`-th draw from generator state `state` picks among those
/// that may appear on `floor`.
pub open spec fn hazard_pick(data: GameData, floor: u32, state: u64, k: int) -> TowerHazardDefinition {
    let fitting = fitting_hazards(data.tower_hazards@, floor);
    data.tower_hazards@[fitting[(rng_draw(draws_on(state, (k + 1) as nat)) % bound32(fitting.len() as int)) as int]]
}

/// How many hazards a floor gets.
pub open spec fn hazard_count(data: GameData, floor: u32, goal: TowerRunGoal) -> int {
    if goal == TowerRunGoal::SafeRun || !some_hazard_fits(data, floor) {
        0
    } else if goal == TowerRunGoal::PushDeeper || floor >= 8 {
        2
    } else {
        1
    }
}

/// Hazards for the floor: none when playing safe, otherwise one (two when
/// pushing deeper or from floor 8 on), each drawn from the eligible hazards.
pub fn hazard_objects(data: &GameData, floor: u32, goal: TowerRunGoal, rng: &mut TowerMapRng) -> (r: Vec<TowerMapObject>)
    ensures
        goal == TowerRunGoal::SafeRun ==> r@.len() == 0,
        r@.len() == hazard_count(*data, floor, goal),
        forall|i: int| 0 <= i < r@.len() ==> (#[trigger] r@[i]).kind == TowerMapObjectKind::Hazard
            && data.spec_tower_hazard(r@[i].hazard_id@) is Some,
        forall|i: int| 0 <= i < r@.len() ==> exists|j: int| 0 <= j < data.tower_hazards@.len()
            && hazard_fits(#[trigger] data.tower_hazards@[j], floor) && data.tower_hazards@[j].id@ == (#[trigger] r@[i]).hazard_id@,
        forall|i: int| 0 <= i < r@.len() ==> (#[trigger] r@[i]).hazard_id@ == hazard_pick(*data, floor, old(rng).state, i).id@,
        final(rng).state == draws_on(old(rng).state, hazard_count(*data, floor, goal) as nat),
{
    let mut out: Vec<TowerMapObject> = Vec::new();
    if goal == TowerRunGoal::SafeRun {
        return out;
    }
    let mut eligible: Vec<usize> = Vec::new();
    let mut i: usize = 0;
    while i < data.tower_hazards.len()
        invariant
            i <= data.tower_hazards@.len(),
            forall|k: int| 0 <= k < eligible@.len() ==> #[trigger] eligible@[k] < data.tower_hazards@.len()
                && hazard_fits(data.tower_hazards@[eligible@[k] as int], floor),
            (exists|j: int| 0 <= j < i && hazard_fits(#[trigger] data.tower_hazards@[j], floor)) ==> eligible@.len() > 0,
            eligible@.len() == fitting_hazards(data.tower_hazards@.take(i as int), floor).len(),
            forall|q: int| 0 <= q < eligible@.len() ==> eligible@[q] as int == #[trigger] fitting_hazards(data.tower_hazards@.take(i as int), floor)[q],
        decreases data.tower_hazards.len() - i,
    {
        let h = &data.tower_hazards[i];
        proof {
            assert(data.tower_hazards@.take(i as int + 1).drop_last() =~= data.tower_hazards@.take(i as int));
            assert(data.tower_hazards@.take(i as int + 1).last() == data.tower_hazards@[i as int]);
        }
        let ghost before = eligible@;
        if h.min_floor <= floor && floor <= h.max_floor {
            eligible.push(i);
            proof {
                assert forall|q: int| 0 <= q < eligible@.len() implies eligible@[q] as int
                    == #[trigger] fitting_hazards(data.tower_hazards@.take(i as int + 1), floor)[q] by {
                    if q < before.len() {
                        assert(eligible@[q] == before[q]);
                    }
                }
            }
        }
        i += 1;
    }
    proof {
        assert(data.tower_hazards@.take(i as int) =~= data.tower_hazards@);
    }
    let len = eligible.len();
    if len == 0 {
        return out;
    }
    proof {
        assert(hazard_fits(data.tower_hazards@[eligible@[0] as int], floor));
    }
    let count: u32 = if goal == TowerRunGoal::PushDeeper || floor >= 8 { 2 } else { 1 };
    let len32: u32 = if len > u32::MAX as usize { u32::MAX } else { len as u32 };
    let mut k: u32 = 0;
    while k < count
        invariant
            len == eligible@.len(),
            len >= 1,
            len32 as int <= len,
            len32 >= 1,
            k <= count,
            out@.len() == k,
            count == hazard_count(*data, floor, goal),
            rng.state == draws_on(old(rng).state, k as nat),
            len32 == bound32(fitting_hazards(data.tower_hazards@, floor).len() as int),
            forall|q: int| 0 <= q < eligible@.len() ==> eligible@[q] as int == #[trigger] fitting_hazards(data.tower_hazards@, floor)[q],
            forall|q: int| 0 <= q < out@.len() ==> (#[trigger] out@[q]).hazard_id@ == hazard_pick(*data, floor, old(rng).state, q).id@,
            forall|q: int| 0 <= q < eligible@.len() ==> #[trigger] eligible@[q] < data.tower_hazards@.len()
                && hazard_fits(data.tower_hazards@[eligible@[q] as int], floor),
            forall|i: int| 0 <= i < out@.len() ==> (#[trigger] out@[i]).kind == TowerMapObjectKind::Hazard
                && data.spec_tower_hazard(out@[i].hazard_id@) is Some,
            forall|i: int| 0 <= i < out@.len() ==> exists|j: int| 0 <= j < data.tower_hazards@.len()
                && hazard_fits(#[trigger] data.tower_hazards@[j], floor) && data.tower_hazards@[j].id@ == (#[trigger] out@[i]).hazard_id@,
        decreases count - k,
    {
        let q = rng.range(0, len32) as usize;
        let j = eligible[q];
        let id = &data.tower_hazards[j].id;
        let o = TowerMapObject::hazard(id.as_str());
        proof {
            assert(rng.state == draws_on(old(rng).state, (k + 1) as nat));
            assert(j as int == fitting_hazards(data.tower_hazards@, floor)[q as int]);
            assert(o.hazard_id@ == hazard_pick(*data, floor, old(rng).state, k as int).id@);
            crate::data::game_data::lemma_first_keyed(data.tower_hazards@, id@);
            crate::data::game_data::lemma_lookup_present(data.tower_hazards@, j as int);
            assert(hazard_fits(data.tower_hazards@[j as int], floor));
        }
        let ghost before = out@;
        out.push(o);
        proof {
            assert forall|i: int| 0 <= i < out@.len() implies exists|j2: int| 0 <= j2 < data.tower_hazards@.len()
                && hazard_fits(#[trigger] data.tower_hazards@[j2], floor) && data.tower_hazards@[j2].id@ == (#[trigger] out@[i]).hazard_id@ by {
                if i < before.len() {
                    assert(out@[i] == before[i]);
                } else {
                    assert(data.tower_hazards@[j as int].id@ == out@[i].hazard_id@);
                }
            }
            assert forall|q2: int| 0 <= q2 < out@.len() implies (#[trigger] out@[q2]).hazard_id@
                == hazard_pick(*data, floor, old(rng).state, q2).id@ by {
                if q2 < before.len() {
                    assert(out@[q2] == before[q2]);
                }
            }
        }
        k += 1;
    }
    out
}

/// How safe the party is: one per tank or support, two per monster that
/// resists poison or soothes injuries.
pub open spec fn safety_of(state: GameState, slots: Seq<Option<u64>>) -> int
    decreases slots.len(),
{
    if slots.len() == 0 {
        0
    } else {
        safety_of(state, slots.drop_last()) + match slots.last() {
            Some(id) => match state.monster_roster.spec_monster(id) {
                Some(m) => (if m.role == MonsterRole::Tank || m.role == MonsterRole::Support { 1int } else { 0 })
                    + (if m.passive == PassiveSkill::ResistsPoison || m.passive == PassiveSkill::SoothesInjuries { 2int } else { 0 }),
                None => 0,
            },
            None => 0,
        }
    }
}

pub proof fn lemma_safety_nonneg(state: GameState, slots: Seq<Option<u64>>)
    ensures
        safety_of(state, slots) >= 0,
    decreases slots.len(),
{
    if slots.len() > 0 {
        lemma_safety_nonneg(state, slots.drop_last());
    }
}

pub fn party_safety(state: &GameState) -> (n: u64)
    ensures
        n == crate::arith::min_int(safety_of(*state, state.monster_roster.party_slots@), u64::MAX as int),
{
    let slots = &state.monster_roster.party_slots;
    let mut n: u64 = 0;
    let mut i: usize = 0;
    while i < slots.len()
        invariant
            i <= slots@.len(),
            slots@ == state.monster_roster.party_slots@,
            n == crate::arith::min_int(safety_of(*state, slots@.take(i as int)), u64::MAX as int),
        decreases slots.len() - i,
    {
        assert(slots@.take(i as int + 1).drop_last() =~= slots@.take(i as int));
        proof { lemma_safety_nonneg(*state, slots@.take(i as int)); }
        match slots[i] {
            Some(id) => match state.monster_roster.monster(id) {
                Some(m) => {
                    if m.role == MonsterRole::Tank || m.role == MonsterRole::Support {
                        n = if n < u64::MAX { n + 1 } else { u64::MAX };
                    }
                    if m.passive == PassiveSkill::ResistsPoison || m.passive == PassiveSkill::SoothesInjuries {
                        n = if n <= u64::MAX - 2 { n + 2 } else { u64::MAX };
                    }
                },
                None => {},
            },
            None => {},
        }
        i += 1;
    }
    assert(slots@.take(slots@.len() as int) =~= slots@);
    n
}

/// How many enemies a floor holds: half the rooms plus a third of the floor,
/// between 2 and 9; two more when pushing deeper, two fewer (at least one)
/// when playing safe or scouting, and one fewer (at least one) for a safe party.
pub open spec fn spec_enemy_total(rooms: int, floor: u32, goal: TowerRunGoal, safety: int) -> int {
    let raw = rooms / 2 + floor / 3;
    let base = if raw < 2 { 2 } else if raw > 9 { 9 } else { raw };
    let adjusted = match goal {
        TowerRunGoal::PushDeeper => base + 2,
        TowerRunGoal::SafeRun | TowerRunGoal::Scout => if base - 2 >= 1 { base - 2 } else { 1 },
        _ => base,
    };
    if safety >= 3 { if adjusted - 1 >= 1 { adjusted - 1 } else { 1 } } else { adjusted }
}

pub fn enemy_count(map: &TowerMapState, state: &GameState, floor: u32, goal: TowerRunGoal) -> (n: u32)
    ensures
        n == spec_enemy_total(map.rooms@.len() as int, floor, goal, safety_of(*state, state.monster_roster.party_slots@)),
{
    proof { lemma_safety_nonneg(*state, state.monster_roster.party_slots@); }
    enemy_total(map, state, floor, goal)
}

fn enemy_total(map: &TowerMapState, state: &GameState, floor: u32, goal: TowerRunGoal) -> (n: u32)
    requires
        safety_of(*state, state.monster_roster.party_slots@) >= 0,
    ensures
        n == spec_enemy_total(map.rooms@.len() as int, floor, goal, safety_of(*state, state.monster_roster.party_slots@)),
{
    let safety = party_safety(state);
    let rooms = map.rooms.len() as u64;
    let raw: u64 = rooms / 2 + (floor / 3) as u64;
    let base: u64 = if raw < 2 { 2 } else if raw > 9 { 9 } else { raw };
    let adjusted: u64 = match goal {
        TowerRunGoal::PushDeeper => base + 2,
        TowerRunGoal::SafeRun | TowerRunGoal::Scout => if base >= 3 { base - 2 } else { 1 },
        _ => base,
    };
    let total = if safety >= 3 { if adjusted >= 2 { adjusted - 1 } else { 1 } } else { adjusted };
    total as u32
}

/// An enemy of the data that may stand on floor `floor_number`, a boss when `boss` is set.
pub open spec fn enemy_fits_floor(e: EnemyDefinition, boss: bool, floor_number: u32) -> bool {
    e.is_boss == boss && e.min_floor <= floor_number && floor_number <= e.max_floor
}

/// What may be added to floor `f` (numbered `floor_number`, of a tower whose
/// top is `top`): stairs below the top but not on a boss floor, an exit on
/// every fifth floor and on boss floors, one of the floor's caches or nests,
/// a landmark or hazard that fits the floor, and the floor's boss on a boss
/// floor or one of its enemies otherwise.
#[verifier::opaque]
pub open spec fn floor_object_allowed(data: GameData, f: TowerFloorDefinition, goal: TowerRunGoal, floor_number: u32, top: u32, o: TowerMapObject) -> bool {
    ||| o.kind == TowerMapObjectKind::Stairs && f.floor < top && !f.is_boss_floor
    ||| o.kind == TowerMapObjectKind::Exit && (f.floor % 5 == 0 || f.is_boss_floor)
    ||| cache_from(f, goal, o)
    ||| egg_object_ok(data, o) && holds_name(f.egg_types@, o.egg_type_id@)
    ||| o.kind == TowerMapObjectKind::SpecialLocation && exists|j: int| 0 <= j < data.tower_special_locations@.len()
        && location_fits(#[trigger] data.tower_special_locations@[j], floor_number)
        && data.tower_special_locations@[j].id@ == o.special_location_id@
    ||| o.kind == TowerMapObjectKind::Hazard && exists|j: int| 0 <= j < data.tower_hazards@.len()
        && hazard_fits(#[trigger] data.tower_hazards@[j], floor_number) && data.tower_hazards@[j].id@ == o.hazard_id@
    ||| o.kind == (if f.is_boss_floor { TowerMapObjectKind::Boss } else { TowerMapObjectKind::Enemy })
        && exists|k: int| 0 <= k < data.enemies@.len() && enemy_fits_floor(#[trigger] data.enemies@[k], f.is_boss_floor, floor_number)
        && data.enemies@[k].id@ == o.enemy_id@
}

/// Moving an object does not change what it is.
proof fn lemma_allowed_moved(data: GameData, f: TowerFloorDefinition, goal: TowerRunGoal, floor_number: u32, top: u32, o: TowerMapObject, p: (u32, u32))
    requires
        floor_object_allowed(data, f, goal, floor_number, top, o),
    ensures
        floor_object_allowed(data, f, goal, floor_number, top, moved_to(o, p)),
{
    reveal(floor_object_allowed);
    let m = moved_to(o, p);
    assert(m.kind == o.kind && m.resource_id == o.resource_id && m.amount == o.amount && m.egg_type_id == o.egg_type_id
        && m.hatch_days == o.hatch_days && m.special_location_id == o.special_location_id && m.hazard_id == o.hazard_id
        && m.enemy_id == o.enemy_id);
}

/// Placing objects that may be added to a floor adds only such objects, after
/// the ones already there.
proof fn lemma_placed_allowed(
    map: TowerMapState,
    objects: Seq<TowerMapObject>,
    items: Seq<TowerMapObject>,
    state: u64,
    landmark: bool,
    data: GameData,
    f: TowerFloorDefinition,
    goal: TowerRunGoal,
    floor_number: u32,
    top: u32,
)
    requires
        forall|i: int| 0 <= i < items.len() ==> floor_object_allowed(data, f, goal, floor_number, top, #[trigger] items[i]),
    ensures
        placed_all(map, objects, items, state, landmark).0.len() >= objects.len(),
        forall|i: int| 0 <= i < objects.len() ==> #[trigger] placed_all(map, objects, items, state, landmark).0[i] == objects[i],
        forall|k: int| objects.len() <= k < placed_all(map, objects, items, state, landmark).0.len()
            ==> floor_object_allowed(data, f, goal, floor_number, top, #[trigger] placed_all(map, objects, items, state, landmark).0[k]),
    decreases items.len(),
{
    if items.len() > 0 {
        let spot = if landmark { landmark_placement(map, objects, state, 80) } else { placement(map, objects, state, 80) };
        let next = with_placed(objects, items[0], spot.0);
        let rest = items.drop_first();
        assert(floor_object_allowed(data, f, goal, floor_number, top, items[0]));
        assert forall|i: int| 0 <= i < rest.len() implies floor_object_allowed(data, f, goal, floor_number, top, #[trigger] rest[i]) by {
            assert(rest[i] == items[i + 1]);
        }
        lemma_placed_allowed(map, next, rest, spot.1, landmark, data, f, goal, floor_number, top);
        let r = placed_all(map, objects, items, state, landmark).0;
        assert(r == placed_all(map, next, rest, spot.1, landmark).0);
        match spot.0 {
            Some(p) => {
                lemma_allowed_moved(data, f, goal, floor_number, top, items[0], p);
                assert(next[objects.len() as int] == moved_to(items[0], p));
                assert(r[objects.len() as int] == next[objects.len() as int]);
            },
            None => {},
        }
        assert forall|i: int| 0 <= i < objects.len() implies #[trigger] r[i] == objects[i] by {
            assert(r[i] == next[i]);
        }
    }
}

/// What filling a new floor does to its map, the generator starting at `s0` (see `add_map_objects`).
pub open spec fn floor_stocked(m0: TowerMapState, m1: TowerMapState, state: GameState, data: GameData, floor_number: u32, goal: TowerRunGoal, s0: u64, s1: u64) -> bool {
    &&& (m1.wf())
    &&& (objects_added(m0, m1))
    &&& (data.spec_tower_floor(floor_number) is None ==> m1 == m0 && s1 == s0)
    &&& (data.spec_tower_floor(floor_number) matches Some(f) ==> {
        let top = spec_max_floor(data);
        let n0 = m0.objects@.len() as int;
        let stairs = if f.floor < top && !f.is_boss_floor {
            placement(m0, m0.objects@, s0, 80)
        } else {
            (None, s0)
        };
        let n1 = n0 + if stairs.0 is Some { 1int } else { 0int };
        let exit = if f.floor % 5 == 0 || f.is_boss_floor {
            placement(m0, m1.objects@.take(n1), stairs.1, 80).0
        } else {
            None
        };
        &&& (stairs.0 matches Some(p) ==> m1.objects@[n0].kind == TowerMapObjectKind::Stairs
            && (m1.objects@[n0].x, m1.objects@[n0].y) == p)
        &&& (exit matches Some(p) ==> m1.objects@[n1].kind == TowerMapObjectKind::Exit
            && (m1.objects@[n1].x, m1.objects@[n1].y) == p)
        &&& forall|k: int| n0 <= k < m1.objects@.len()
            ==> floor_object_allowed(data, f, goal, floor_number, top, #[trigger] m1.objects@[k])
        &&& ({
            let s2 = if f.floor % 5 == 0 || f.is_boss_floor {
                placement(m0, m1.objects@.take(n1), stairs.1, 80).1
            } else {
                stairs.1
            };
            let n2 = n1 + if exit is Some { 1int } else { 0int };
            stock_placed(m0, m1.objects@, data, f, floor_number, goal, n2, s2)
        })
    })
}

/// The generator's state after the floor's caches are drawn from `state`.
#[verifier::opaque]
pub open spec fn loot_state(f: TowerFloorDefinition, goal: TowerRunGoal, state: u64) -> u64 {
    if f.loot@.len() > 0 { cache_draws(f, state, spec_loot_count(f.floor, goal) as nat).1 } else { state }
}

/// `loot` holds the caches drawn from `state`: none on a floor without loot.
#[verifier::opaque]
pub open spec fn loot_drawn(f: TowerFloorDefinition, goal: TowerRunGoal, state: u64, loot: Seq<TowerMapObject>) -> bool {
    if f.loot@.len() > 0 {
        let d = cache_draws(f, state, spec_loot_count(f.floor, goal) as nat);
        &&& loot.len() == spec_loot_count(f.floor, goal)
        &&& forall|i: int| 0 <= i < loot.len() ==> cache_made(f, goal, d.0[i], #[trigger] loot[i])
    } else {
        loot.len() == 0
    }
}

/// The generator's state after the floor's nests are drawn from `state`.
#[verifier::opaque]
pub open spec fn nest_state(f: TowerFloorDefinition, data: GameData, goal: TowerRunGoal, state: u64) -> u64 {
    if f.egg_types@.len() > 0 { nest_draws(f, data, rng_step(state), nest_count(goal, state) as nat).1 } else { state }
}

/// `eggs` holds the nests drawn from `state`, each a known egg type of the
/// floor with its incubation and palette seed: none on a floor without eggs.
#[verifier::opaque]
pub open spec fn nests_drawn(f: TowerFloorDefinition, data: GameData, goal: TowerRunGoal, state: u64, eggs: Seq<TowerMapObject>) -> bool {
    if f.egg_types@.len() > 0 {
        let nests = nest_draws(f, data, rng_step(state), nest_count(goal, state) as nat);
        &&& eggs.len() == nests.0.len()
        &&& forall|i: int| 0 <= i < eggs.len()
            ==> ((#[trigger] eggs[i]).egg_type_id@, eggs[i].hatch_days, eggs[i].palette_seed) == nests.0[i]
                && egg_object_ok(data, eggs[i])
    } else {
        eggs.len() == 0
    }
}

/// The generator's state after the floor's landmarks are drawn from `state`.
#[verifier::opaque]
pub open spec fn mark_state(data: GameData, floor: u32, goal: TowerRunGoal, state: u64) -> u64 {
    if some_location_fits(data, floor) {
        let st = landmark_start(data, floor, goal, state);
        landmark_visits(data, floor, st.0 as int, st.1, landmark_count(data, floor, goal, state) as nat).1
    } else {
        state
    }
}

/// `marks` holds the landmarks drawn from `state`, each with its approach:
/// none when no landmark may appear on the floor.
#[verifier::opaque]
pub open spec fn marks_drawn(data: GameData, floor: u32, goal: TowerRunGoal, state: u64, marks: Seq<TowerMapObject>) -> bool {
    if some_location_fits(data, floor) {
        let st = landmark_start(data, floor, goal, state);
        let visits = landmark_visits(data, floor, st.0 as int, st.1, landmark_count(data, floor, goal, state) as nat);
        &&& marks.len() == visits.0.len()
        &&& forall|i: int| 0 <= i < marks.len()
            ==> ((#[trigger] marks[i]).special_location_id@, marks[i].event_id@) == visits.0[i]
                && marks[i].kind == TowerMapObjectKind::SpecialLocation
    } else {
        marks.len() == 0
    }
}

/// `hazards` holds the hazards drawn from `state`.
#[verifier::opaque]
pub open spec fn hazards_drawn(data: GameData, floor: u32, goal: TowerRunGoal, state: u64, hazards: Seq<TowerMapObject>) -> bool {
    &&& hazards.len() == hazard_count(data, floor, goal)
    &&& forall|i: int| 0 <= i < hazards.len() ==> (#[trigger] hazards[i]).kind == TowerMapObjectKind::Hazard
        && hazards[i].hazard_id@ == hazard_pick(data, floor, state, i).id@
}

/// The objects and generator state once the caches are placed behind the
/// first `n` objects.
pub open spec fn loot_placed(m0: TowerMapState, objects: Seq<TowerMapObject>, f: TowerFloorDefinition, goal: TowerRunGoal, n: int, state: u64, loot: Seq<TowerMapObject>) -> (Seq<TowerMapObject>, u64) {
    placed_all(m0, objects.take(n), loot, loot_state(f, goal, state), false)
}

/// The objects and generator state once the nests are placed behind the caches.
pub open spec fn nests_placed(m0: TowerMapState, data: GameData, f: TowerFloorDefinition, goal: TowerRunGoal, after: (Seq<TowerMapObject>, u64), eggs: Seq<TowerMapObject>) -> (Seq<TowerMapObject>, u64) {
    placed_all(m0, after.0, eggs, nest_state(f, data, goal, after.1), false)
}

/// The objects and generator state once the landmarks are placed behind the nests.
pub open spec fn marks_placed(m0: TowerMapState, data: GameData, floor: u32, goal: TowerRunGoal, after: (Seq<TowerMapObject>, u64), marks: Seq<TowerMapObject>) -> (Seq<TowerMapObject>, u64) {
    placed_all(m0, after.0, marks, mark_state(data, floor, goal, after.1), true)
}

/// The objects and generator state once the hazards are placed behind the landmarks.
pub open spec fn hazards_placed(m0: TowerMapState, data: GameData, floor: u32, goal: TowerRunGoal, after: (Seq<TowerMapObject>, u64), hazards: Seq<TowerMapObject>) -> (Seq<TowerMapObject>, u64) {
    placed_all(m0, after.0, hazards, draws_on(after.1, hazard_count(data, floor, goal) as nat), false)
}

/// The floor's caches, nests, landmarks and hazards, each drawn in turn from
/// the generator state the placing before left, were placed one after the
/// other right behind the first `n` objects of `objects`.
#[verifier::opaque]
pub open spec fn stock_placed(
    m0: TowerMapState,
    objects: Seq<TowerMapObject>,
    data: GameData,
    f: TowerFloorDefinition,
    floor: u32,
    goal: TowerRunGoal,
    n: int,
    state: u64,
) -> bool {
    exists|loot: Seq<TowerMapObject>, eggs: Seq<TowerMapObject>, marks: Seq<TowerMapObject>, hazards: Seq<TowerMapObject>|
        #![trigger loot_drawn(f, goal, state, loot), nests_drawn(f, data, goal, loot_placed(m0, objects, f, goal, n, state, loot).1, eggs), marks_drawn(data, floor, goal, nests_placed(m0, data, f, goal, loot_placed(m0, objects, f, goal, n, state, loot), eggs).1, marks), hazards_drawn(data, floor, goal, marks_placed(m0, data, floor, goal, nests_placed(m0, data, f, goal, loot_placed(m0, objects, f, goal, n, state, loot), eggs), marks).1, hazards)]
    {
        let pl = loot_placed(m0, objects, f, goal, n, state, loot);
        let pe = nests_placed(m0, data, f, goal, pl, eggs);
        let pm = marks_placed(m0, data, floor, goal, pe, marks);
        let ph = hazards_placed(m0, data, floor, goal, pm, hazards);
        &&& loot_drawn(f, goal, state, loot)
        &&& nests_drawn(f, data, goal, pl.1, eggs)
        &&& marks_drawn(data, floor, goal, pe.1, marks)
        &&& hazards_drawn(data, floor, goal, pm.1, hazards)
        &&& ph.0.len() <= objects.len()
        &&& objects.take(ph.0.len() as int) == ph.0
    }
}

/// The caches, nests, landmarks and hazards placed one after the other
/// behind the stairs and the exit make up the floor's objects right after them.
proof fn lemma_stock_chain(
    m0: TowerMapState,
    after_exit: TowerMapState,
    after_loot: TowerMapState,
    after_eggs: TowerMapState,
    after_marks: TowerMapState,
    after_hazards: TowerMapState,
    m1: TowerMapState,
    data: GameData,
    f: TowerFloorDefinition,
    floor: u32,
    goal: TowerRunGoal,
    s2: u64,
    s3: u64,
    s4: u64,
    s5: u64,
    s6: u64,
    s7: u64,
    s8: u64,
    s9: u64,
    loot: Seq<TowerMapObject>,
    eggs: Seq<TowerMapObject>,
    marks: Seq<TowerMapObject>,
    hazards: Seq<TowerMapObject>,
)
    requires
        objects_only(m0, after_exit),
        objects_only(m0, after_loot),
        objects_only(m0, after_eggs),
        objects_only(m0, after_marks),
        objects_added(after_exit, m1),
        objects_added(after_hazards, m1),
        s3 == loot_state(f, goal, s2),
        loot_drawn(f, goal, s2, loot),
        (after_loot.objects@, s4) == placed_all(after_exit, after_exit.objects@, loot, s3, false),
        s5 == nest_state(f, data, goal, s4),
        nests_drawn(f, data, goal, s4, eggs),
        (after_eggs.objects@, s6) == placed_all(after_loot, after_loot.objects@, eggs, s5, false),
        s7 == mark_state(data, floor, goal, s6),
        marks_drawn(data, floor, goal, s6, marks),
        (after_marks.objects@, s8) == placed_all(after_eggs, after_eggs.objects@, marks, s7, true),
        s9 == draws_on(s8, hazard_count(data, floor, goal) as nat),
        hazards_drawn(data, floor, goal, s8, hazards),
        after_hazards.objects@ == placed_all(after_marks, after_marks.objects@, hazards, s9, false).0,
    ensures
        stock_placed(m0, m1.objects@, data, f, floor, goal, after_exit.objects@.len() as int, s2),
{
    reveal(stock_placed);
    let n2 = after_exit.objects@.len() as int;
    let objects = m1.objects@;
    assert(objects.take(n2) =~= after_exit.objects@) by {
        assert forall|q: int| 0 <= q < n2 implies objects[q] == after_exit.objects@[q] by {}
    }
    lemma_placed_all_ignores_objects(m0, after_exit, after_exit.objects@, loot, s3, false);
    lemma_placed_all_ignores_objects(m0, after_loot, after_loot.objects@, eggs, s5, false);
    lemma_placed_all_ignores_objects(m0, after_eggs, after_eggs.objects@, marks, s7, true);
    lemma_placed_all_ignores_objects(m0, after_marks, after_marks.objects@, hazards, s9, false);
    let pl = loot_placed(m0, objects, f, goal, n2, s2, loot);
    assert(pl == (after_loot.objects@, s4));
    let pe = nests_placed(m0, data, f, goal, pl, eggs);
    assert(pe == (after_eggs.objects@, s6));
    let pm = marks_placed(m0, data, floor, goal, pe, marks);
    assert(pm == (after_marks.objects@, s8));
    let ph = hazards_placed(m0, data, floor, goal, pm, hazards);
    assert(ph.0 == after_hazards.objects@);
    assert(objects.take(ph.0.len() as int) =~= ph.0) by {
        assert forall|q: int| 0 <= q < ph.0.len() implies objects[q] == after_hazards.objects@[q] by {}
    }
    assert(nests_drawn(f, data, goal, pl.1, eggs));
    assert(marks_drawn(data, floor, goal, pe.1, marks));
    assert(hazards_drawn(data, floor, goal, pm.1, hazards));
}

/// Placing objects in turn depends on the map's grid, rooms and party, not
/// on the objects it holds.
proof fn lemma_placed_all_ignores_objects(a: TowerMapState, b: TowerMapState, objects: Seq<TowerMapObject>, items: Seq<TowerMapObject>, state: u64, landmark: bool)
    requires
        objects_only(a, b),
    ensures
        placed_all(a, objects, items, state, landmark) == placed_all(b, objects, items, state, landmark),
    decreases items.len(),
{
    if items.len() > 0 {
        lemma_placement_ignores_objects(a, b, objects, state, 80);
        let spot = if landmark { landmark_placement(a, objects, state, 80) } else { placement(a, objects, state, 80) };
        lemma_placed_all_ignores_objects(a, b, with_placed(objects, items[0], spot.0), items.drop_first(), spot.1, landmark);
    }
}

proof fn lemma_objects_added_trans(a: TowerMapState, b: TowerMapState, c: TowerMapState)
    requires
        objects_added(a, b),
        objects_added(b, c),
    ensures
        objects_added(a, c),
{
    assert forall|i: int| 0 <= i < a.objects@.len() implies #[trigger] c.objects@[i] == a.objects@[i] by {
        assert(c.objects@[i] == b.objects@[i]);
    }
}

/// Fills a new floor: stairs below the top (except on a boss floor), an exit
/// every fifth floor and on boss floors, caches, nests, landmarks, hazards,
/// and either the floor's boss or its enemies.
#[verifier::rlimit(100)]
pub fn add_map_objects(map: &mut TowerMapState, state: &GameState, data: &GameData, floor_number: u32, goal: TowerRunGoal, rng: &mut TowerMapRng)
    requires
        old(map).wf(),
    ensures
        floor_stocked(*old(map), *final(map), *state, *data, floor_number, goal, old(rng).state, final(rng).state),
{
    let floor = match data.tower_floor(floor_number) {
        Some(f) => f,
        None => {
            return;
        },
    };
    let top = max_floor(data);
    let ghost f = *floor;
    let ghost n0 = old(map).objects@.len();
    let ghost s0 = rng.state;
    proof {
        assert(data.spec_tower_floor(floor_number) == Some(f));
    }
    if floor.floor < top && !floor.is_boss_floor {
        let o = TowerMapObject::stairs(0, 0);
        proof {
            assert(floor_object_allowed(*data, f, goal, floor_number, top, o)) by { reveal(floor_object_allowed); }
            match placement(*old(map), old(map).objects@, s0, 80).0 {
                Some(p) => lemma_allowed_moved(*data, f, goal, floor_number, top, o, p),
                None => {},
            }
        }
        place_object_tracked(map, o, rng);
    }
    let ghost after_stairs = *map;
    let ghost s1 = rng.state;
    if floor.floor % 5 == 0 || floor.is_boss_floor {
        let o = TowerMapObject::exit(0, 0);
        proof {
            assert(floor_object_allowed(*data, f, goal, floor_number, top, o)) by { reveal(floor_object_allowed); }
            lemma_placement_ignores_objects(*old(map), after_stairs, after_stairs.objects@, s1, 80);
            match placement(after_stairs, after_stairs.objects@, s1, 80).0 {
                Some(p) => lemma_allowed_moved(*data, f, goal, floor_number, top, o, p),
                None => {},
            }
        }
        place_object_tracked(map, o, rng);
    }
    let ghost after_exit = *map;
    proof {
        assert forall|k: int| n0 <= k < map.objects@.len()
            implies floor_object_allowed(*data, f, goal, floor_number, top, #[trigger] map.objects@[k]) by {
            if k < after_stairs.objects@.len() {
                assert(map.objects@[k] == after_stairs.objects@[k]);
            }
        }
    }
    let ghost s2 = rng.state;
    let loot = loot_objects(floor, goal, rng);
    let ghost loot_items = loot@;
    let ghost s3 = rng.state;
    proof {
        assert(loot_drawn(f, goal, s2, loot_items)) by {
            reveal(loot_drawn);
        }
        assert(s3 == loot_state(f, goal, s2)) by {
            reveal(loot_state);
        }
    }
    proof {
        assert forall|i: int| 0 <= i < loot@.len() implies floor_object_allowed(*data, f, goal, floor_number, top, #[trigger] loot@[i]) by {
            assert(cache_from(f, goal, loot@[i]));
            reveal(floor_object_allowed);
        }
    }
    place_all_allowed(map, loot, rng, false, data, floor, goal, floor_number, top);
    let ghost after_loot = *map;
    let ghost s4 = rng.state;
    let eggs = egg_objects(floor, data, goal, rng);
    let ghost egg_items = eggs@;
    let ghost s5 = rng.state;
    proof {
        assert(nests_drawn(f, *data, goal, s4, egg_items)) by {
            reveal(nests_drawn);
        }
        assert(s5 == nest_state(f, *data, goal, s4)) by {
            reveal(nest_state);
        }
    }
    proof {
        assert forall|i: int| 0 <= i < eggs@.len() implies floor_object_allowed(*data, f, goal, floor_number, top, #[trigger] eggs@[i]) by {
            assert(egg_object_ok(*data, eggs@[i]) && holds_name(f.egg_types@, eggs@[i].egg_type_id@));
            reveal(floor_object_allowed);
        }
    }
    place_all_allowed(map, eggs, rng, false, data, floor, goal, floor_number, top);
    let ghost after_eggs = *map;
    let ghost s6 = rng.state;
    let landmarks = special_location_objects(data, floor_number, goal, rng);
    let ghost mark_items = landmarks@;
    let ghost s7 = rng.state;
    proof {
        assert(marks_drawn(*data, floor_number, goal, s6, mark_items)) by {
            reveal(marks_drawn);
        }
        assert(s7 == mark_state(*data, floor_number, goal, s6)) by {
            reveal(mark_state);
        }
    }
    proof {
        assert forall|i: int| 0 <= i < landmarks@.len() implies floor_object_allowed(*data, f, goal, floor_number, top, #[trigger] landmarks@[i]) by {
            let o = landmarks@[i];
            assert(o.kind == TowerMapObjectKind::SpecialLocation);
            let j = choose|j: int| 0 <= j < data.tower_special_locations@.len()
                && location_fits(#[trigger] data.tower_special_locations@[j], floor_number)
                && data.tower_special_locations@[j].id@ == o.special_location_id@
                && exists|e: int| 0 <= e < data.tower_special_locations@[j].event_ids@.len()
                    && (#[trigger] data.tower_special_locations@[j].event_ids@[e])@ == o.event_id@;
            assert(location_fits(data.tower_special_locations@[j], floor_number));
            reveal(floor_object_allowed);
        }
    }
    place_all_allowed(map, landmarks, rng, true, data, floor, goal, floor_number, top);
    let ghost after_marks = *map;
    let ghost s8 = rng.state;
    let hazards = hazard_objects(data, floor_number, goal, rng);
    let ghost hazard_items = hazards@;
    let ghost s9 = rng.state;
    proof {
        assert(hazards_drawn(*data, floor_number, goal, s8, hazard_items)) by {
            reveal(hazards_drawn);
        }
    }
    proof {
        assert forall|i: int| 0 <= i < hazards@.len() implies floor_object_allowed(*data, f, goal, floor_number, top, #[trigger] hazards@[i]) by {
            let o = hazards@[i];
            assert(o.kind == TowerMapObjectKind::Hazard);
            let j = choose|j: int| 0 <= j < data.tower_hazards@.len()
                && hazard_fits(#[trigger] data.tower_hazards@[j], floor_number) && data.tower_hazards@[j].id@ == o.hazard_id@;
            assert(hazard_fits(data.tower_hazards@[j], floor_number));
            reveal(floor_object_allowed);
        }
    }
    place_all_allowed(map, hazards, rng, false, data, floor, goal, floor_number, top);
    let ghost after_hazards = *map;
    let mut candidates: Vec<usize> = Vec::new();
    let mut i: usize = 0;
    let boss = floor.is_boss_floor;
    while i < data.enemies.len()
        invariant
            i <= data.enemies@.len(),
            boss == f.is_boss_floor,
            forall|k: int| 0 <= k < candidates@.len() ==> #[trigger] candidates@[k] < data.enemies@.len()
                && enemy_fits_floor(data.enemies@[candidates@[k] as int], boss, floor_number),
        decreases data.enemies.len() - i,
    {
        let e = &data.enemies[i];
        if e.is_boss == boss && e.min_floor <= floor_number && floor_number <= e.max_floor {
            candidates.push(i);
        }
        i += 1;
    }
    if boss {
        if candidates.len() > 0 {
            let c = candidates[0];
            let o = TowerMapObject::boss(data.enemies[c].id.as_str());
            proof {
                assert(enemy_fits_floor(data.enemies@[c as int], boss, floor_number));
                assert(floor_object_allowed(*data, f, goal, floor_number, top, o)) by { reveal(floor_object_allowed); }
            }
            let ghost pre = *map;
            proof {
                match placement(pre, pre.objects@, rng.state, 80).0 {
                    Some(p) => lemma_allowed_moved(*data, f, goal, floor_number, top, o, p),
                    None => {},
                }
            }
            place_object_tracked(map, o, rng);
            proof {
                lemma_objects_added_trans(after_hazards, pre, *map);
            }
            proof {
                assert forall|k: int| n0 <= k < map.objects@.len()
                    implies floor_object_allowed(*data, f, goal, floor_number, top, #[trigger] map.objects@[k]) by {
                    if k < pre.objects@.len() {
                        assert(map.objects@[k] == pre.objects@[k]);
                    }
                }
            }
        }
    } else {
        let count = enemy_count(map, state, floor_number, goal);
        let len32: u32 = if candidates.len() > u32::MAX as usize { u32::MAX } else { candidates.len() as u32 };
        let mut k: u32 = 0;
        while k < count
            invariant
                map.wf(),
                objects_added(*old(map), *map),
                objects_added(after_exit, *map),
                objects_added(after_hazards, *map),
                len32 as int <= candidates@.len(),
                boss == f.is_boss_floor,
                !boss,
                forall|q: int| 0 <= q < candidates@.len() ==> #[trigger] candidates@[q] < data.enemies@.len()
                    && enemy_fits_floor(data.enemies@[candidates@[q] as int], boss, floor_number),
                forall|q: int| n0 <= q < map.objects@.len()
                    ==> floor_object_allowed(*data, f, goal, floor_number, top, #[trigger] map.objects@[q]),
            decreases count - k,
        {
            let pick = rng.range(0, len32) as usize;
            if pick < candidates.len() {
                let c = candidates[pick];
                let o = TowerMapObject::enemy(data.enemies[c].id.as_str());
                proof {
                    assert(enemy_fits_floor(data.enemies@[c as int], boss, floor_number));
                    assert(floor_object_allowed(*data, f, goal, floor_number, top, o)) by { reveal(floor_object_allowed); }
                }
                let ghost pre = *map;
                proof {
                    match placement(pre, pre.objects@, rng.state, 80).0 {
                        Some(p) => lemma_allowed_moved(*data, f, goal, floor_number, top, o, p),
                        None => {},
                    }
                }
                place_object_tracked(map, o, rng);
                proof {
                    lemma_objects_added_trans(after_hazards, pre, *map);
                }
            proof {
                lemma_objects_added_trans(after_hazards, pre, *map);
            }
                proof {
                    assert forall|q: int| n0 <= q < map.objects@.len()
                        implies floor_object_allowed(*data, f, goal, floor_number, top, #[trigger] map.objects@[q]) by {
                        if q < pre.objects@.len() {
                            assert(map.objects@[q] == pre.objects@[q]);
                        }
                    }
                }
            }
            k += 1;
        }
    }
    proof {
        let n1 = after_stairs.objects@.len();
        assert(map.objects@.take(n1 as int) =~= after_stairs.objects@) by {
            assert forall|q: int| 0 <= q < n1 implies map.objects@[q] == after_stairs.objects@[q] by {
                assert(map.objects@[q] == after_exit.objects@[q]);
            }
        }
        lemma_placement_ignores_objects(*old(map), after_stairs, after_stairs.objects@, s1, 80);
        if n1 > n0 {
            assert(map.objects@[n0 as int] == after_exit.objects@[n0 as int]);
            assert(after_exit.objects@[n0 as int] == after_stairs.objects@[n0 as int]);
        }
        if after_exit.objects@.len() > n1 {
            assert(map.objects@[n1 as int] == after_exit.objects@[n1 as int]);
        }
        lemma_stock_chain(*old(map), after_exit, after_loot, after_eggs, after_marks, after_hazards, *map, *data, f, floor_number, goal,
            s2, s3, s4, s5, s6, s7, s8, s9, loot_items, egg_items, mark_items, hazard_items);
    }
}

/// Places each of `objects` in turn and keeps every object added since the
/// floor was laid out one that may be added to it.
fn place_all_allowed(
    map: &mut TowerMapState,
    objects: Vec<TowerMapObject>,
    rng: &mut TowerMapRng,
    landmark: bool,
    data: &GameData,
    floor: &TowerFloorDefinition,
    goal: TowerRunGoal,
    floor_number: u32,
    top: u32,
)
    requires
        old(map).wf(),
        forall|i: int| 0 <= i < objects@.len() ==> floor_object_allowed(*data, *floor, goal, floor_number, top, #[trigger] objects@[i]),
    ensures
        final(map).wf(),
        objects_added(*old(map), *final(map)),
        (final(map).objects@, final(rng).state) == placed_all(*old(map), old(map).objects@, objects@, old(rng).state, landmark),
        forall|k: int| old(map).objects@.len() <= k < final(map).objects@.len()
            ==> floor_object_allowed(*data, *floor, goal, floor_number, top, #[trigger] final(map).objects@[k]),
{
    let ghost items = objects@;
    proof {
        lemma_placed_allowed(*old(map), old(map).objects@, items, old(rng).state, landmark, *data, *floor, goal, floor_number, top);
    }
    place_all(map, objects, rng, landmark);
}

fn place_object_tracked(map: &mut TowerMapState, object: TowerMapObject, rng: &mut TowerMapRng)
    requires
        old(map).wf(),
    ensures
        final(map).wf(),
        objects_added(*old(map), *final(map)),
        final(map).objects@ == with_placed(old(map).objects@, object, placement(*old(map), old(map).objects@, old(rng).state, 80).0),
        final(rng).state == placement(*old(map), old(map).objects@, old(rng).state, 80).1,
{
    place_object(map, object, rng);
}

/// The draws that place objects depend on the map's grid, rooms and party,
/// not on the objects the map holds.
proof fn lemma_placement_ignores_objects(a: TowerMapState, b: TowerMapState, objects: Seq<TowerMapObject>, state: u64, tries: nat)
    requires
        objects_only(a, b),
    ensures
        placement(a, objects, state, tries) == placement(b, objects, state, tries),
        landmark_placement(a, objects, state, tries) == landmark_placement(b, objects, state, tries),
    decreases tries,
{
    if tries > 0 && a.rooms@.len() > 0 {
        let count = room_count32(a);
        let pick = if count > 1 { spec_range(1, count, state) } else { (0u32, state) };
        let drawn = a.rooms@[pick.0 as int].spec_random_inner(pick.1);
        lemma_placement_ignores_objects(a, b, objects, drawn.1, (tries - 1) as nat);
        let lpick = spec_range(1, count, state);
        lemma_placement_ignores_objects(a, b, objects, lpick.1, (tries - 1) as nat);
    }
}

/// The objects of `map` (which holds `objects`) and the generator state
/// after each of `items` is placed in turn from state `state`, at room
/// centres when `landmark` is set.
pub open spec fn placed_all(map: TowerMapState, objects: Seq<TowerMapObject>, items: Seq<TowerMapObject>, state: u64, landmark: bool) -> (Seq<TowerMapObject>, u64)
    decreases items.len(),
{
    if items.len() == 0 {
        (objects, state)
    } else {
        let spot = if landmark { landmark_placement(map, objects, state, 80) } else { placement(map, objects, state, 80) };
        placed_all(map, with_placed(objects, items[0], spot.0), items.drop_first(), spot.1, landmark)
    }
}

fn place_all(map: &mut TowerMapState, objects: Vec<TowerMapObject>, rng: &mut TowerMapRng, landmark: bool)
    requires
        old(map).wf(),
    ensures
        final(map).wf(),
        objects_added(*old(map), *final(map)),
        (final(map).objects@, final(rng).state) == placed_all(*old(map), old(map).objects@, objects@, old(rng).state, landmark),
{
    let mut objects = objects;
    let ghost items = objects@;
    let mut rest: Vec<TowerMapObject> = Vec::new();
    while objects.len() > 0
        invariant
            map.wf(),
            objects_added(*old(map), *map),
            placed_all(*old(map), old(map).objects@, items, old(rng).state, landmark)
                == placed_all(*old(map), map.objects@, objects@, rng.state, landmark),
        decreases objects.len(),
    {
        let ghost pre = *map;
        let ghost pre_items = objects@;
        let ghost s = rng.state;
        let o = objects.remove(0);
        proof {
            lemma_placement_ignores_objects(*old(map), pre, pre.objects@, s, 80);
            assert(objects@ =~= pre_items.drop_first());
        }
        if landmark {
            place_room_landmark(map, o, rng);
        } else {
            place_object(map, o, rng);
        }
    }
}

/// An ordinary enemy that may roam `floor`.
pub open spec fn roams(e: EnemyDefinition, floor: u32) -> bool {
    !e.is_boss && e.min_floor <= floor && floor <= e.max_floor
}

/// Whether some object on the map carries the enemy id `id`.
pub open spec fn on_map(objects: Seq<TowerMapObject>, id: Seq<char>) -> bool {
    exists|j: int| 0 <= j < objects.len() && #[trigger] objects[j].enemy_id@ == id
}

/// The positions, in order, of the enemies that may roam `floor` and, when
/// `only_new` is set, are not on the map yet.
pub open spec fn roaming_enemies(enemies: Seq<EnemyDefinition>, floor: u32, objects: Seq<TowerMapObject>, only_new: bool) -> Seq<int>
    decreases enemies.len(),
{
    if enemies.len() == 0 {
        Seq::empty()
    } else {
        let before = roaming_enemies(enemies.drop_last(), floor, objects, only_new);
        if roams(enemies.last(), floor) && (!only_new || !on_map(objects, enemies.last().id@)) {
            before.push(enemies.len() - 1)
        } else {
            before
        }
    }
}

/// The species a wandering enemy is drawn from with seed `seed`: one not on
/// the map yet when there is one, otherwise any that may roam the floor.
pub open spec fn hunter_species(data: GameData, map: TowerMapState, seed: u64) -> EnemyDefinition {
    let fresh = roaming_enemies(data.enemies@, map.floor, map.objects@, true);
    let pool = if fresh.len() > 0 { fresh } else { roaming_enemies(data.enemies@, map.floor, map.objects@, false) };
    data.enemies@[pool[(rng_draw(hunter_draws(seed)) % bound32(pool.len() as int)) as int]]
}

/// The generator state from which a wandering enemy's tile is drawn: the
/// seeded generator after the draw of the species.
pub open spec fn hunter_draws(seed: u64) -> u64 {
    rng_step(seed ^ 0x9E37_79B9_7F4A_7C15u64)
}

/// Adds a wandering enemy for high pressure: a species eligible for the floor
/// that is not on the map yet when there is one, otherwise any eligible one.
/// Returns its id when it could be placed.
pub fn spawn_pressure_enemy(map: &mut TowerMapState, data: &GameData, seed: u64) -> (r: Option<String>)
    requires
        old(map).wf(),
    ensures
        final(map).wf(),
        objects_only(*old(map), *final(map)),
        match r {
            None => final(map).objects@ == old(map).objects@,
            Some(id) => {
                let placed = final(map).objects@.last();
                &&& final(map).objects@ == old(map).objects@.push(placed)
                &&& placed.kind == TowerMapObjectKind::Enemy
                &&& placed.wandering
                &&& placed.enemy_id@ == id@
                &&& data.spec_enemy(id@) is Some
                &&& free_spot(*old(map), placed.x, placed.y)
                &&& exists|k: int| 0 <= k < data.enemies@.len() && #[trigger] data.enemies@[k].id@ == id@
                    && roams(data.enemies@[k], old(map).floor)
                &&& (exists|k: int| 0 <= k < data.enemies@.len() && roams(#[trigger] data.enemies@[k], old(map).floor)
                    && !on_map(old(map).objects@, data.enemies@[k].id@)) ==> !on_map(old(map).objects@, id@)
                &&& placement(*old(map), old(map).objects@, hunter_draws(seed), 80).0 == Some((placed.x, placed.y))
                &&& id@ == hunter_species(*data, *old(map), seed).id@
            },
        },
        r is Some <==> (exists|k: int| 0 <= k < data.enemies@.len() && roams(#[trigger] data.enemies@[k], old(map).floor))
            && placement(*old(map), old(map).objects@, hunter_draws(seed), 80).0 is Some,
{
    let mut eligible: Vec<usize> = Vec::new();
    let mut fresh: Vec<usize> = Vec::new();
    let mut i: usize = 0;
    while i < data.enemies.len()
        invariant
            i <= data.enemies@.len(),
            *map == *old(map),
            forall|k: int| 0 <= k < eligible@.len() ==> #[trigger] eligible@[k] < data.enemies@.len()
                && roams(data.enemies@[eligible@[k] as int], map.floor),
            forall|k: int| 0 <= k < fresh@.len() ==> #[trigger] fresh@[k] < data.enemies@.len()
                && roams(data.enemies@[fresh@[k] as int], map.floor)
                && !on_map(map.objects@, data.enemies@[fresh@[k] as int].id@),
            (exists|k: int| 0 <= k < i && roams(#[trigger] data.enemies@[k], map.floor)
                && !on_map(map.objects@, data.enemies@[k].id@)) ==> fresh@.len() > 0,
            (exists|k: int| 0 <= k < i && roams(#[trigger] data.enemies@[k], map.floor)) ==> eligible@.len() > 0,
            eligible@.len() == roaming_enemies(data.enemies@.take(i as int), map.floor, map.objects@, false).len(),
            forall|q: int| 0 <= q < eligible@.len() ==> eligible@[q] as int
                == #[trigger] roaming_enemies(data.enemies@.take(i as int), map.floor, map.objects@, false)[q],
            fresh@.len() == roaming_enemies(data.enemies@.take(i as int), map.floor, map.objects@, true).len(),
            forall|q: int| 0 <= q < fresh@.len() ==> fresh@[q] as int
                == #[trigger] roaming_enemies(data.enemies@.take(i as int), map.floor, map.objects@, true)[q],
        decreases data.enemies.len() - i,
    {
        proof {
            assert(data.enemies@.take(i as int + 1).drop_last() =~= data.enemies@.take(i as int));
            assert(data.enemies@.take(i as int + 1).last() == data.enemies@[i as int]);
        }
        let ghost eligible_before = eligible@;
        let ghost fresh_before = fresh@;
        let e = &data.enemies[i];
        if !e.is_boss && e.min_floor <= map.floor && map.floor <= e.max_floor {
            eligible.push(i);
            let mut seen = false;
            let mut j: usize = 0;
            while j < map.objects.len()
                invariant
                    j <= map.objects@.len(),
                    i < data.enemies@.len(),
                    *e == data.enemies@[i as int],
                    seen == exists|x: int| 0 <= x < j && #[trigger] map.objects@[x].enemy_id@ == e.id@,
                decreases map.objects.len() - j,
            {
                if crate::text::same_text(map.objects[j].enemy_id.as_str(), e.id.as_str()) {
                    seen = true;
                }
                j += 1;
            }
            if !seen {
                fresh.push(i);
            }
            proof {
                assert(seen == on_map(map.objects@, e.id@));
                assert forall|q: int| 0 <= q < eligible@.len() implies eligible@[q] as int
                    == #[trigger] roaming_enemies(data.enemies@.take(i as int + 1), map.floor, map.objects@, false)[q] by {
                    if q < eligible_before.len() {
                        assert(eligible@[q] == eligible_before[q]);
                    }
                }
                assert forall|q: int| 0 <= q < fresh@.len() implies fresh@[q] as int
                    == #[trigger] roaming_enemies(data.enemies@.take(i as int + 1), map.floor, map.objects@, true)[q] by {
                    if q < fresh_before.len() {
                        assert(fresh@[q] == fresh_before[q]);
                    }
                }
            }
        }
        i += 1;
    }
    proof {
        assert(data.enemies@.take(i as int) =~= data.enemies@);
    }
    if eligible.len() == 0 {
        return None;
    }
    proof {
        assert(roams(data.enemies@[eligible@[0] as int], old(map).floor));
    }
    let pool = if fresh.len() > 0 { fresh } else { eligible };
    let mut rng = TowerMapRng::new(seed);
    let len32: u32 = if pool.len() > u32::MAX as usize { u32::MAX } else { pool.len() as u32 };
    let pick = rng.range(0, len32) as usize;
    let enemy = &data.enemies[pool[pick]];
    proof {
        let fresh_s = roaming_enemies(data.enemies@, old(map).floor, old(map).objects@, true);
        let all_s = roaming_enemies(data.enemies@, old(map).floor, old(map).objects@, false);
        let pool_s = if fresh_s.len() > 0 { fresh_s } else { all_s };
        assert(pool@.len() == pool_s.len());
        assert(pool@[pick as int] as int == pool_s[pick as int]);
        assert(len32 == bound32(pool_s.len() as int));
        assert(*enemy == hunter_species(*data, *old(map), seed));
    }
    let mut hunter = TowerMapObject::enemy(enemy.id.as_str());
    hunter.wandering = true;
    let before = map.objects.len();
    place_object(map, hunter, &mut rng);
    if map.objects.len() > before {
        proof {
            crate::data::game_data::lemma_first_keyed(data.enemies@, enemy.id@);
            crate::data::game_data::lemma_lookup_present(data.enemies@, pool@[pick as int] as int);
            assert(data.enemies@[pool@[pick as int] as int].id@ == enemy.id@);
        }
        Some(enemy.id.clone())
    } else {
        None
    }
}

} // verus!
