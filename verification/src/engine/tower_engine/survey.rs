//! Survey flares: charting the hidden room the run's goal cares most about.

use vstd::prelude::*;
use crate::arith::{clamp_u32, min_int, sat_add_u32};
use crate::data::game_data::GameData;
use crate::engine::tower_engine::{plain, result, result_str, TowerResult};
use crate::engine::tower_engine::discovery::record_visible_discoveries;
use crate::engine::tower_engine::camp::{room_index, room_index_at};
use crate::engine::tower_engine::map_gen::{fog_grid, in_room_area};
use crate::engine::tower_engine::movement::with_contract_refresh;
use crate::engine::tower_engine::runs::{ensure_map, map_ensured, run_wf};
use crate::state::game::GameState;
use crate::state::tower_run::TowerRunState;
use crate::text::{decimal, decimal_text};
use crate::state::tower_map::{
    TowerMapObject, TowerMapObjectKind, TowerMapState, TowerRoom, TowerRoomKind, TowerTileVisibility,
};
use crate::state::tower_run::TowerRunGoal;

verus! {

/// What a flare found: the room it charted, that room's centre, how many
/// objects lie in it and how many of those are concealed caches.
pub struct SurveyReveal {
    pub room: usize,
    pub center: (u32, u32),
    pub signatures: usize,
    pub secrets: usize,
}

/// How eagerly a goal charts a kind of room: lower goes first. Egg hunts look
/// for nests, salvage for caches, deeper pushes for traversal rooms; safe runs
/// favour shelters, caches, nests and landmarks and shun encounters and hazards.
pub open spec fn spec_survey_priority(goal: TowerRunGoal, kind: TowerRoomKind) -> int {
    match goal {
        TowerRunGoal::EggHunt => if kind == TowerRoomKind::Nest { 0 } else { 1 },
        TowerRunGoal::Salvage => if kind == TowerRoomKind::Cache { 0 } else { 1 },
        TowerRunGoal::PushDeeper => if kind == TowerRoomKind::Traversal { 0 } else { 1 },
        TowerRunGoal::SafeRun => if kind == TowerRoomKind::Camp || kind == TowerRoomKind::Cache || kind == TowerRoomKind::Nest
            || kind == TowerRoomKind::Landmark {
            0
        } else if kind == TowerRoomKind::Encounter || kind == TowerRoomKind::Hazard {
            2
        } else {
            1
        },
        _ => 1,
    }
}

fn survey_priority(goal: TowerRunGoal, kind: TowerRoomKind) -> (p: u8)
    ensures
        p as int == spec_survey_priority(goal, kind),
{
    match goal {
        TowerRunGoal::EggHunt => if kind == TowerRoomKind::Nest { 0 } else { 1 },
        TowerRunGoal::Salvage => if kind == TowerRoomKind::Cache { 0 } else { 1 },
        TowerRunGoal::PushDeeper => if kind == TowerRoomKind::Traversal { 0 } else { 1 },
        TowerRunGoal::SafeRun => if kind == TowerRoomKind::Camp || kind == TowerRoomKind::Cache || kind == TowerRoomKind::Nest
            || kind == TowerRoomKind::Landmark {
            0
        } else if kind == TowerRoomKind::Encounter || kind == TowerRoomKind::Hazard {
            2
        } else {
            1
        },
        _ => 1,
    }
}

/// The fog of tile `(x, y)`, counting a fog grid that does not match the
/// tiles as hidden everywhere.
pub open spec fn fog_at(map: TowerMapState, x: u32, y: u32) -> TowerTileVisibility {
    if map.in_bounds(x, y) { fog_grid(map)[map.index_of(x, y)] } else { TowerTileVisibility::Hidden }
}

/// Whether the centre of room `i` has never been seen.
pub open spec fn room_hidden(map: TowerMapState, i: int) -> bool {
    let c = map.rooms@[i].spec_center();
    fog_at(map, c.0, c.1) == TowerTileVisibility::Hidden
}

/// Steps from the party to the centre of room `i`, along the grid.
pub open spec fn room_distance(map: TowerMapState, i: int) -> int {
    let c = map.rooms@[i].spec_center();
    (if map.player_x >= c.0 { map.player_x - c.0 } else { c.0 - map.player_x })
        + (if map.player_y >= c.1 { map.player_y - c.1 } else { c.1 - map.player_y })
}

/// Whether room `i` ranks before room `j`: by goal priority, then by distance.
pub open spec fn ranks_before(map: TowerMapState, goal: TowerRunGoal, i: int, j: int) -> bool {
    let pi = spec_survey_priority(goal, map.spec_room_kind(i));
    let pj = spec_survey_priority(goal, map.spec_room_kind(j));
    pi < pj || (pi == pj && room_distance(map, i) < room_distance(map, j))
}

/// Room `i` is the one a flare charts: the first hidden room that no hidden
/// room ranks before.
pub open spec fn survey_choice(map: TowerMapState, goal: TowerRunGoal, i: int) -> bool {
    &&& 0 <= i < map.rooms@.len()
    &&& room_hidden(map, i)
    &&& forall|j: int| 0 <= j < map.rooms@.len() && room_hidden(map, j) ==> !#[trigger] ranks_before(map, goal, j, i)
    &&& forall|j: int| 0 <= j < i && room_hidden(map, j) ==> #[trigger] ranks_before(map, goal, i, j)
}

/// The room a flare charts, when some room is hidden.
pub open spec fn chosen_room(map: TowerMapState, goal: TowerRunGoal) -> int {
    choose|i: int| survey_choice(map, goal, i)
}

/// At most one room is the flare's choice.
pub proof fn lemma_choice_unique(map: TowerMapState, goal: TowerRunGoal, i: int, j: int)
    requires
        survey_choice(map, goal, i),
    ensures
        j == chosen_room(map, goal) ==> j == i,
        survey_choice(map, goal, chosen_room(map, goal)),
{
    assert(survey_choice(map, goal, chosen_room(map, goal)));
    let k = chosen_room(map, goal);
    if k < i {
        assert(ranks_before(map, goal, i, k));
        assert(!ranks_before(map, goal, i, k));
    } else if i < k {
        assert(ranks_before(map, goal, k, i));
        assert(!ranks_before(map, goal, k, i));
    }
}

/// Whether any room's centre is still hidden.
pub open spec fn any_hidden(map: TowerMapState) -> bool {
    exists|j: int| 0 <= j < map.rooms@.len() && #[trigger] room_hidden(map, j)
}

proof fn lemma_fog_at(map: TowerMapState, x: u32, y: u32)
    requires
        map.wf(),
        map.visibility@.len() == map.tiles@.len(),
    ensures
        map.spec_visibility(x, y) == fog_at(map, x, y),
{
    if map.in_bounds(x, y) {
        assert(y * map.width + x < map.width * map.height) by (nonlinear_arith)
            requires y < map.height, x < map.width;
    }
}

fn pick_room(map: &TowerMapState, goal: TowerRunGoal) -> (r: Option<usize>)
    requires
        map.wf(),
        map.visibility@.len() == map.tiles@.len(),
    ensures
        match r {
            Some(i) => survey_choice(*map, goal, i as int),
            None => !any_hidden(*map),
        },
{
    let mut best: Option<usize> = None;
    let mut best_priority: u8 = 0;
    let mut best_distance: u64 = 0;
    let mut i: usize = 0;
    while i < map.rooms.len()
        invariant
            map.wf(),
            map.visibility@.len() == map.tiles@.len(),
            i <= map.rooms@.len(),
            match best {
                Some(b) => b < i && room_hidden(*map, b as int)
                    && best_priority as int == spec_survey_priority(goal, map.spec_room_kind(b as int))
                    && best_distance as int == room_distance(*map, b as int)
                    && (forall|j: int| 0 <= j < i && room_hidden(*map, j) ==> !#[trigger] ranks_before(*map, goal, j, b as int))
                    && (forall|j: int| 0 <= j < b && room_hidden(*map, j) ==> #[trigger] ranks_before(*map, goal, b as int, j)),
                None => forall|j: int| 0 <= j < i ==> !#[trigger] room_hidden(*map, j),
            },
        decreases map.rooms.len() - i,
    {
        let room = map.rooms[i];
        proof {
            assert(crate::state::tower_map::rooms_fit(map.rooms@));
            assert(map.rooms@[i as int].start_x + map.rooms@[i as int].width <= crate::state::tower_map::MAX_MAP_SIDE);
        }
        let c = room.center();
        proof {
            lemma_fog_at(*map, c.0, c.1);
        }
        if map.visibility_at(c.0, c.1) == TowerTileVisibility::Hidden {
            let p = survey_priority(goal, map.room_kind(i));
            let dx: u64 = if map.player_x >= c.0 { (map.player_x - c.0) as u64 } else { (c.0 - map.player_x) as u64 };
            let dy: u64 = if map.player_y >= c.1 { (map.player_y - c.1) as u64 } else { (c.1 - map.player_y) as u64 };
            let d = dx + dy;
            let better = match best {
                None => true,
                Some(_) => p < best_priority || (p == best_priority && d < best_distance),
            };
            if better {
                proof {
                    if best is Some {
                        let b = best.unwrap() as int;
                        assert forall|j: int| 0 <= j < i + 1 && room_hidden(*map, j) implies !#[trigger] ranks_before(*map, goal, j, i as int) by {
                            if j < i {
                                if ranks_before(*map, goal, j, i as int) {
                                    assert(!ranks_before(*map, goal, j, b));
                                }
                            }
                        }
                        assert forall|j: int| 0 <= j < i && room_hidden(*map, j) implies #[trigger] ranks_before(*map, goal, i as int, j) by {
                            assert(!ranks_before(*map, goal, j, b));
                        }
                    }
                }
                best = Some(i);
                best_priority = p;
                best_distance = d;
            }
        }
        i += 1;
    }
    best
}

/// The fog after a flare lights a room: every passable tile of the room that
/// lies on the map becomes visible.
pub open spec fn surveyed_fog(map: TowerMapState, room: TowerRoom) -> Seq<TowerTileVisibility> {
    let fog = fog_grid(map);
    Seq::new(fog.len(), |k: int| {
        let x = (k % (map.width as int)) as u32;
        let y = (k / (map.width as int)) as u32;
        if in_room_area(map, room, x, y) && map.spec_passable(x, y) { TowerTileVisibility::Visible } else { fog[k] }
    })
}

/// One object after a flare: a concealed cache in the room is exposed.
pub open spec fn surveyed(map: TowerMapState, room: TowerRoom, o: TowerMapObject) -> TowerMapObject {
    if o.kind == TowerMapObjectKind::SecretCache && in_room_area(map, room, o.x, o.y) {
        TowerMapObject { revealed: true, ..o }
    } else {
        o
    }
}

/// The objects after a flare.
pub open spec fn surveyed_objects(map: TowerMapState, room: TowerRoom) -> Seq<TowerMapObject> {
    map.objects@.map_values(|o: TowerMapObject| surveyed(map, room, o))
}

/// How many objects satisfy `p`.
pub open spec fn count_objects(objects: Seq<TowerMapObject>, p: spec_fn(TowerMapObject) -> bool) -> nat
    decreases objects.len(),
{
    if objects.len() == 0 {
        0
    } else {
        count_objects(objects.drop_last(), p) + if p(objects.last()) { 1nat } else { 0nat }
    }
}

fn in_area(map: &TowerMapState, room: TowerRoom, x: u32, y: u32) -> (r: bool)
    ensures
        r == in_room_area(*map, room, x, y),
{
    room.contains(x, y) && x < map.width && y < map.height
}

fn light_room(map: &mut TowerMapState, room: TowerRoom)
    requires
        old(map).wf(),
        old(map).visibility@.len() == old(map).tiles@.len(),
    ensures
        *final(map) == (TowerMapState { visibility: final(map).visibility, ..*old(map) }),
        final(map).visibility@ == surveyed_fog(*old(map), room),
{
    let ghost m0 = *map;
    let ghost target = surveyed_fog(m0, room);
    let w = map.width;
    let h = map.height;
    let mut y: u32 = 0;
    let mut idx: usize = 0;
    while y < h
        invariant
            m0.wf(),
            m0.visibility@.len() == m0.tiles@.len(),
            *map == (TowerMapState { visibility: map.visibility, ..m0 }),
            map.visibility@.len() == m0.visibility@.len(),
            w == m0.width,
            h == m0.height,
            y <= h,
            idx == y * w,
            target == surveyed_fog(m0, room),
            target.len() == m0.tiles@.len(),
            forall|j: int| 0 <= j < idx ==> map.visibility@[j] == target[j],
            forall|j: int| idx <= j < m0.visibility@.len() ==> map.visibility@[j] == m0.visibility@[j],
        decreases h - y,
    {
        let mut x: u32 = 0;
        while x < w
            invariant
                m0.wf(),
                m0.visibility@.len() == m0.tiles@.len(),
                *map == (TowerMapState { visibility: map.visibility, ..m0 }),
                map.visibility@.len() == m0.visibility@.len(),
                w == m0.width,
                h == m0.height,
                y < h,
                x <= w,
                idx == y * w + x,
                target == surveyed_fog(m0, room),
                target.len() == m0.tiles@.len(),
                forall|j: int| 0 <= j < idx ==> map.visibility@[j] == target[j],
                forall|j: int| idx <= j < m0.visibility@.len() ==> map.visibility@[j] == m0.visibility@[j],
            decreases w - x,
        {
            proof {
                assert(y * w + x < w * h) by (nonlinear_arith)
                    requires y < h, x < w;
                assert(w * h <= 1024 * 1024) by (nonlinear_arith)
                    requires w <= 1024, h <= 1024;
                vstd::arithmetic::div_mod::lemma_fundamental_div_mod_converse(idx as int, w as int, y as int, x as int);
            }
            if in_area(map, room, x, y) && map.is_passable(x, y) {
                map.visibility.set(idx, TowerTileVisibility::Visible);
            }
            x += 1;
            idx += 1;
        }
        proof {
            assert(idx == (y + 1) * w) by (nonlinear_arith)
                requires idx == y * w + w;
        }
        y += 1;
    }
    proof {
        assert(idx == m0.tiles@.len()) by (nonlinear_arith)
            requires idx == y * w, y == h, m0.tiles@.len() == w * h;
        assert(map.visibility@ =~= target);
    }
}

pub open spec fn in_area_of(map: TowerMapState, room: TowerRoom) -> spec_fn(TowerMapObject) -> bool {
    |o: TowerMapObject| in_room_area(map, room, o.x, o.y)
}

pub open spec fn cache_in_area_of(map: TowerMapState, room: TowerRoom) -> spec_fn(TowerMapObject) -> bool {
    |o: TowerMapObject| o.kind == TowerMapObjectKind::SecretCache && in_room_area(map, room, o.x, o.y)
}

fn expose_caches(map: &mut TowerMapState, room: TowerRoom) -> (counts: (usize, usize))
    ensures
        *final(map) == (TowerMapState { objects: final(map).objects, ..*old(map) }),
        final(map).objects@ == surveyed_objects(*old(map), room),
        counts.0 == count_objects(old(map).objects@, in_area_of(*old(map), room)),
        counts.1 == count_objects(old(map).objects@, cache_in_area_of(*old(map), room)),
{
    let ghost m0 = *map;
    let ghost objs = m0.objects@;
    let mut signatures: usize = 0;
    let mut secrets: usize = 0;
    let mut i: usize = 0;
    while i < map.objects.len()
        invariant
            objs == m0.objects@,
            i <= objs.len(),
            map.objects@.len() == objs.len(),
            *map == (TowerMapState { objects: map.objects, ..m0 }),
            forall|j: int| 0 <= j < i ==> #[trigger] map.objects@[j] == surveyed_objects(m0, room)[j],
            forall|j: int| i <= j < objs.len() ==> #[trigger] map.objects@[j] == objs[j],
            signatures == count_objects(objs.take(i as int), in_area_of(m0, room)),
            secrets == count_objects(objs.take(i as int), cache_in_area_of(m0, room)),
            signatures <= i,
            secrets <= i,
        decreases objs.len() - i,
    {
        assert(objs.take(i as int + 1).drop_last() =~= objs.take(i as int));
        assert(objs.take(i as int + 1).last() == objs[i as int]);
        let o = &map.objects[i];
        assert(*o == objs[i as int]);
        let inside = in_area(map, room, o.x, o.y);
        if inside {
            signatures += 1;
        }
        let ghost before = map.objects@;
        if o.kind == TowerMapObjectKind::SecretCache && inside {
            secrets += 1;
            let mut cache = map.objects.remove(i);
            cache.revealed = true;
            map.objects.insert(i, cache);
            proof {
                assert(map.objects@ =~= before.update(i as int, cache));
            }
        }
        proof {
            assert((i as int) < objs.len());
            assert(objs == m0.objects@);
            assert(before[i as int] == objs[i as int]);
            assert(surveyed_objects(m0, room)[i as int] == surveyed(m0, room, objs[i as int]));
            assert(surveyed_objects(m0, room)[i as int] == map.objects@[i as int]);
        }
        i += 1;
    }
    proof {
        assert(objs.take(objs.len() as int) =~= objs);
        assert(map.objects@ =~= surveyed_objects(m0, room));
    }
    (signatures, secrets)
}

/// Lights the hidden room the run's goal ranks first and exposes the
/// concealed caches in it; none when every room has been seen.
pub fn reveal_hidden_room_for_goal(map: &mut TowerMapState, goal: TowerRunGoal) -> (r: Option<SurveyReveal>)
    requires
        old(map).wf(),
    ensures
        final(map).wf(),
        *final(map) == (TowerMapState { visibility: final(map).visibility, objects: final(map).objects, ..*old(map) }),
        match r {
            None => !any_hidden(*old(map)) && final(map).visibility@ == fog_grid(*old(map)) && final(map).objects == old(map).objects,
            Some(rv) => {
                let room = old(map).rooms@[rv.room as int];
                &&& survey_choice(*old(map), goal, rv.room as int)
                &&& rv.center == room.spec_center()
                &&& final(map).visibility@ == surveyed_fog(*old(map), room)
                &&& final(map).objects@ == surveyed_objects(*old(map), room)
                &&& rv.signatures == count_objects(old(map).objects@, in_area_of(*old(map), room))
                &&& rv.secrets == count_objects(old(map).objects@, cache_in_area_of(*old(map), room))
            },
        },
{
    map.ensure_visibility();
    let ghost m0 = *map;
    proof {
        assert(fog_grid(*old(map)) =~= m0.visibility@);
        assert(fog_grid(m0) == fog_grid(*old(map)));
        assert forall|j: int| 0 <= j < m0.rooms@.len() implies room_hidden(m0, j) == room_hidden(*old(map), j) by {}
        assert forall|i: int, j: int| ranks_before(m0, goal, i, j) == ranks_before(*old(map), goal, i, j) by {}
    }
    let k = match pick_room(map, goal) {
        Some(k) => k,
        None => {
            proof {
                if any_hidden(*old(map)) {
                    let j = choose|j: int| 0 <= j < old(map).rooms@.len() && #[trigger] room_hidden(*old(map), j);
                    assert(room_hidden(m0, j));
                }
            }
            return None;
        },
    };
    let room = map.rooms[k];
    proof {
        assert forall|j: int| 0 <= j < old(map).rooms@.len() && room_hidden(*old(map), j)
            implies !#[trigger] ranks_before(*old(map), goal, j, k as int) by {
            assert(room_hidden(m0, j));
            assert(ranks_before(m0, goal, j, k as int) == ranks_before(*old(map), goal, j, k as int));
        }
        assert forall|j: int| 0 <= j < k && room_hidden(*old(map), j)
            implies #[trigger] ranks_before(*old(map), goal, k as int, j) by {
            assert(room_hidden(m0, j));
            assert(ranks_before(m0, goal, k as int, j) == ranks_before(*old(map), goal, k as int, j));
        }
        assert(map.rooms@[k as int].start_x + map.rooms@[k as int].width <= crate::state::tower_map::MAX_MAP_SIDE);
    }
    let center = room.center();
    light_room(map, room);
    let ghost m1 = *map;
    let counts = expose_caches(map, room);
    proof {
        assert(surveyed_fog(m0, room) =~= surveyed_fog(*old(map), room)) by {
            assert forall|x: u32, y: u32| in_room_area(m0, room, x, y) == in_room_area(*old(map), room, x, y)
                && m0.spec_passable(x, y) == old(map).spec_passable(x, y) by {}
        }
        assert(surveyed_objects(m1, room) =~= surveyed_objects(*old(map), room));
        assert(in_area_of(m1, room) == in_area_of(*old(map), room));
        assert(cache_in_area_of(m1, room) == cache_in_area_of(*old(map), room));
    }
    Some(SurveyReveal { room: k, center, signatures: counts.0, secrets: counts.1 })
}

pub open spec fn signature_label(n: nat) -> Seq<char> {
    if n == 0 {
        "no visible signatures"@
    } else if n == 1 {
        "1 visible signature"@
    } else {
        decimal(n) + " visible signatures"@
    }
}

pub open spec fn secret_label(n: nat) -> Seq<char> {
    if n == 0 {
        ""@
    } else if n == 1 {
        " The flare exposes 1 concealed cache."@
    } else {
        " The flare exposes "@ + decimal(n) + " concealed caches."@
    }
}

/// The report of a flare: the charted room's grid position (counted from
/// one), what it holds and what it exposed.
pub open spec fn survey_line(rv: SurveyReveal) -> Seq<char> {
    "A survey flare charts a hidden room near grid "@ + decimal(rv.center.0 as nat + 1) + ", "@
        + decimal(rv.center.1 as nat + 1) + " with "@ + signature_label(rv.signatures as nat)
        + ". Pressure rises by 1; tap the revealed room to route toward it."@ + secret_label(rv.secrets as nat)
}

fn survey_text(rv: &SurveyReveal) -> (s: String)
    ensures
        s@ == survey_line(*rv),
{
    let mut s = String::from_str("A survey flare charts a hidden room near grid ");
    let a = decimal_text(rv.center.0 as u64 + 1);
    s.append(a.as_str());
    s.append(", ");
    let b = decimal_text(rv.center.1 as u64 + 1);
    s.append(b.as_str());
    s.append(" with ");
    if rv.signatures == 0 {
        s.append("no visible signatures");
    } else if rv.signatures == 1 {
        s.append("1 visible signature");
    } else {
        let n = decimal_text(rv.signatures as u64);
        s.append(n.as_str());
        s.append(" visible signatures");
    }
    s.append(". Pressure rises by 1; tap the revealed room to route toward it.");
    let ghost head = s@;
    if rv.secrets == 1 {
        s.append(" The flare exposes 1 concealed cache.");
    } else if rv.secrets > 1 {
        s.append(" The flare exposes ");
        let n = decimal_text(rv.secrets as u64);
        s.append(n.as_str());
        s.append(" concealed caches.");
    }
    proof {
        reveal_strlit("");
        if rv.secrets == 0 {
            assert(head + ""@ =~= head);
        }
    }
    s
}

/// Fires one flare on a run whose map is in place: charts the chosen room,
/// spends the flare and raises pressure by one (not past the limit). None
/// when every room is already charted, with the map otherwise untouched.
pub fn launch_flare(run: &mut TowerRunState) -> (r: Option<String>)
    requires
        old(run).map.wf(),
        old(run).survey_charges > 0,
    ensures
        final(run).map.wf(),
        match r {
            None => !any_hidden(old(run).map) && final(run).map.visibility@ == fog_grid(old(run).map)
                && *final(run) == (TowerRunState { map: TowerMapState { visibility: final(run).map.visibility, ..old(run).map }, ..*old(run) }),
            Some(text) => any_hidden(old(run).map) && {
                let k = chosen_room(old(run).map, old(run).goal);
                let room = old(run).map.rooms@[k];
                &&& survey_choice(old(run).map, old(run).goal, k)
                &&& final(run).map.visibility@ == surveyed_fog(old(run).map, room)
                &&& final(run).map.objects@ == surveyed_objects(old(run).map, room)
                &&& text@ == survey_line(SurveyReveal {
                    room: k as usize,
                    center: room.spec_center(),
                    signatures: count_objects(old(run).map.objects@, in_area_of(old(run).map, room)) as usize,
                    secrets: count_objects(old(run).map.objects@, cache_in_area_of(old(run).map, room)) as usize,
                })
            } && *final(run) == (TowerRunState {
                map: TowerMapState { visibility: final(run).map.visibility, objects: final(run).map.objects, ..old(run).map },
                survey_charges: (old(run).survey_charges - 1) as u32,
                pressure: min_int(clamp_u32(old(run).pressure + 1), old(run).pressure_limit as int) as u32,
                ..*old(run)
            }),
        },
{
    match reveal_hidden_room_for_goal(&mut run.map, run.goal) {
        None => None,
        Some(rv) => {
            proof {
                lemma_choice_unique(old(run).map, old(run).goal, rv.room as int, chosen_room(old(run).map, old(run).goal));
                let room = old(run).map.rooms@[rv.room as int];
                assert(room.start_x + room.width <= 1024);
                assert(room.start_y + room.height <= 1024);
            }
            run.survey_charges = run.survey_charges - 1;
            let raised = sat_add_u32(run.pressure, 1);
            run.pressure = if raised < run.pressure_limit { raised } else { run.pressure_limit };
            let text = survey_text(&rv);
            Some(text)
        },
    }
}

/// Fires a survey flare on the current floor: refused with no run, at full
/// pressure, or with no flares left; otherwise the chosen hidden room is
/// charted, what is visible enters the guide, the report enters the run's
/// log and the run's contract is checked.
/// What a survey does once the run's map is ready: a fully awake tower, an
/// empty flare kit or a floor with nothing hidden left refuses it and changes
/// nothing (but the fog, rebuilt when it no longer matched the grid);
/// otherwise a flare lights the room the goal favours among those still
/// hidden, at the cost of one flare and one point of pressure.
pub open spec fn survey_outcome(s1: GameState, s2: GameState, data: GameData, r: TowerResult) -> bool {
    s1.tower_run matches Some(run) && s2.tower_run matches Some(r2) && {
        if run.pressure >= run.pressure_limit {
            s2 == s1 && plain(r, "The tower is fully awake. Tap CAMP or RETREAT before surveying."@)
        } else if run.survey_charges == 0 {
            s2 == s1 && plain(r, "No survey flares remain on this floor. Tap EXPLORE or descend for a fresh kit."@)
        } else if !any_hidden(run.map) {
            &&& s2 == (GameState { tower_run: s2.tower_run, ..s1 })
            &&& r2 == (TowerRunState { map: TowerMapState { visibility: r2.map.visibility, ..run.map }, ..run })
            &&& r2.map.visibility@ == fog_grid(run.map)
            &&& plain(r, "Every room on this floor is already charted. Tap EXPLORE or RETREAT."@)
        } else {
            let room = run.map.rooms@[chosen_room(run.map, run.goal)];
            &&& survey_choice(run.map, run.goal, chosen_room(run.map, run.goal))
            &&& r2.map == (TowerMapState { visibility: r2.map.visibility, objects: r2.map.objects, ..run.map })
            &&& r2.map.visibility@ == surveyed_fog(run.map, room)
            &&& r2.map.objects@ == surveyed_objects(run.map, room)
            &&& r2.survey_charges == run.survey_charges - 1
            &&& r2.pressure == min_int(clamp_u32(run.pressure + 1), run.pressure_limit as int)
            &&& r2.current_floor == run.current_floor
            &&& r.encounter is None && !r.returned_to_town
            &&& s2.monster_roster == s1.monster_roster
            &&& s2.resources == s1.resources
        }
    }
}

/// The survey once the run's map is ready.
fn survey_ready_floor(state: &mut GameState, data: &GameData) -> (r: TowerResult)
    requires
        run_wf(*old(state)),
        old(state).tower_run is Some,
    ensures
        run_wf(*final(state)),
        survey_outcome(*old(state), *final(state), *data, r),
        final(state).monster_roster == old(state).monster_roster,
        final(state).resources == old(state).resources,
        final(state).egg_inventory == old(state).egg_inventory,
        final(state).combat == old(state).combat,
        final(state).day == old(state).day,
{
    let (pressure, limit, charges) = match &state.tower_run {
        None => {
            return result_str("No tower run is active. Tap Town to choose a run.");
        },
        Some(run) => (run.pressure, run.pressure_limit, run.survey_charges),
    };
    if pressure >= limit {
        return result_str("The tower is fully awake. Tap CAMP or RETREAT before surveying.");
    }
    if charges == 0 {
        return result_str("No survey flares remain on this floor. Tap EXPLORE or descend for a fresh kit.");
    }
    let mut run = state.tower_run.take().unwrap();
    let flare = launch_flare(&mut run);
    state.tower_run = Some(run);
    let summary = match flare {
        None => {
            return result_str("Every room on this floor is already charted. Tap EXPLORE or RETREAT.");
        },
        Some(s) => s,
    };
    record_visible_discoveries(state, data, None);
    let logged = summary.clone();
    let mut run = state.tower_run.take().unwrap();
    run.add_event(logged);
    state.tower_run = Some(run);
    with_contract_refresh(result(summary), state, data)
}

pub fn survey_floor(state: &mut GameState, data: &GameData) -> (r: TowerResult)
    requires
        run_wf(*old(state)),
    ensures
        run_wf(*final(state)),
        old(state).tower_run is None ==> *final(state) == *old(state) && plain(r, "No tower run is active. Tap Town to choose a run."@),
        old(state).tower_run matches Some(run) ==> final(state).tower_run matches Some(r2) && {
            if run.pressure >= run.pressure_limit {
                plain(r, "The tower is fully awake. Tap CAMP or RETREAT before surveying."@)
                    && r2.pressure == run.pressure && r2.survey_charges == run.survey_charges
            } else if run.survey_charges == 0 {
                plain(r, "No survey flares remain on this floor. Tap EXPLORE or descend for a fresh kit."@)
                    && r2.pressure == run.pressure && r2.survey_charges == run.survey_charges
            } else if r2.survey_charges == run.survey_charges {
                plain(r, "Every room on this floor is already charted. Tap EXPLORE or RETREAT."@)
                    && r2.pressure == run.pressure
            } else {
                &&& r2.survey_charges == run.survey_charges - 1
                &&& r2.pressure == min_int(clamp_u32(run.pressure + 1), run.pressure_limit as int)
                &&& r.encounter is None && !r.returned_to_town
            }
        },
        final(state).monster_roster == old(state).monster_roster,
        final(state).resources == old(state).resources,
        final(state).egg_inventory == old(state).egg_inventory,
        final(state).combat == old(state).combat,
        final(state).day == old(state).day,
        old(state).tower_run is Some ==> exists|mid: GameState| #[trigger] map_ensured(*old(state), mid, *data)
            && survey_outcome(mid, *final(state), *data, r),
{
    ensure_map(state, data);
    if state.tower_run.is_none() {
        return result_str("No tower run is active. Tap Town to choose a run.");
    }
    let ghost mid = *state;
    let r = survey_ready_floor(state, data);
    proof {
        assert(map_ensured(*old(state), mid, *data) && survey_outcome(mid, *state, *data, r));
    }
    r
}

/// Whether an object is a concealed cache still hidden in `room`.
pub open spec fn hidden_cache_in(room: TowerRoom) -> spec_fn(TowerMapObject) -> bool {
    |o: TowerMapObject| o.kind == TowerMapObjectKind::SecretCache && !o.revealed && room.spec_contains(o.x, o.y)
}

/// Exposes every concealed cache in the room the party stands in and says
/// how many were exposed; nothing happens outside any room.
pub fn reveal_secret_in_current_room(map: &mut TowerMapState) -> (n: usize)
    ensures
        *final(map) == (TowerMapState { objects: final(map).objects, ..*old(map) }),
        match room_index_at(*old(map), old(map).player_x, old(map).player_y) {
            None => n == 0 && final(map).objects == old(map).objects,
            Some(k) => {
                let room = old(map).rooms@[k];
                &&& final(map).objects@ == old(map).objects@.map_values(|o: TowerMapObject|
                    if hidden_cache_in(room)(o) { TowerMapObject { revealed: true, ..o } } else { o })
                &&& n == count_objects(old(map).objects@, hidden_cache_in(room))
            },
        },
{
    let k = match room_index(map, map.player_x, map.player_y) {
        Some(k) => k,
        None => {
            return 0;
        },
    };
    let room = map.rooms[k];
    let ghost m0 = *map;
    let ghost objs = m0.objects@;
    let ghost target = objs.map_values(|o: TowerMapObject|
        if hidden_cache_in(room)(o) { TowerMapObject { revealed: true, ..o } } else { o });
    let mut n: usize = 0;
    let mut i: usize = 0;
    while i < map.objects.len()
        invariant
            objs == m0.objects@,
            target == objs.map_values(|o: TowerMapObject|
                if hidden_cache_in(room)(o) { TowerMapObject { revealed: true, ..o } } else { o }),
            i <= objs.len(),
            map.objects@.len() == objs.len(),
            *map == (TowerMapState { objects: map.objects, ..m0 }),
            forall|j: int| 0 <= j < i ==> #[trigger] map.objects@[j] == target[j],
            forall|j: int| i <= j < objs.len() ==> #[trigger] map.objects@[j] == objs[j],
            n == count_objects(objs.take(i as int), hidden_cache_in(room)),
            n <= i,
        decreases objs.len() - i,
    {
        assert(objs.take(i as int + 1).drop_last() =~= objs.take(i as int));
        assert(objs.take(i as int + 1).last() == objs[i as int]);
        let o = &map.objects[i];
        assert(*o == objs[i as int]);
        let ghost before = map.objects@;
        if o.kind == TowerMapObjectKind::SecretCache && !o.revealed && room.contains(o.x, o.y) {
            n += 1;
            let mut cache = map.objects.remove(i);
            cache.revealed = true;
            map.objects.insert(i, cache);
            proof {
                assert(map.objects@ =~= before.update(i as int, cache));
            }
        }
        proof {
            assert(target[i as int] == map.objects@[i as int]);
        }
        i += 1;
    }
    proof {
        assert(objs.take(objs.len() as int) =~= objs);
        assert(map.objects@ =~= target);
    }
    n
}

} // verus!
