//! Entering the tower, and keeping the run's map in order.

use vstd::prelude::*;
use crate::arith::{max_int, min_int};
use crate::state::tower_map::{TowerMapState, TowerTileVisibility};
use crate::data::game_data::GameData;
use crate::engine::combat_support::{spec_max_floor, max_floor};
use crate::engine::monster_engine::{spec_daily_action_refusal, can_take_daily_action, mark_commitment};
use crate::engine::tower_engine::{TowerResult, plain, result, result_str};
use crate::engine::tower_engine::anomalies::{spec_select_anomaly, select_anomaly_id};
use crate::engine::tower_engine::discovery::{
    discover_all, guide_view, discovery_candidates, guide_line, record_visible_discoveries,
};
use crate::engine::tower_engine::map_gen::{fog_after, fog_grid, generate_map, lit, near, reveal_current_area, spec_revealed};
use crate::state::game::GameState;
use crate::state::keyed::first_numbered;
use crate::state::records::ActivityEntry;
use crate::state::roster::{DailyCommitment, MonsterCondition, MonsterInstance, MonsterRoster};
use crate::state::tower_run::{SURVEY_CHARGES_PER_FLOOR, TowerRunGoal, TowerRunState, TowerRunStats};
use crate::text::{decimal, decimal_text};

verus! {

/// The state's run, if any, stands on a well-formed map.
pub open spec fn run_wf(state: GameState) -> bool {
    state.tower_run matches Some(run) ==> run.map.wf()
}

/// The monsters of the formation, in slot order, that may take on a daily action.
pub open spec fn ready_ids(state: GameState, slots: Seq<Option<u64>>) -> Seq<u64>
    decreases slots.len(),
{
    if slots.len() == 0 {
        Seq::empty()
    } else {
        let rest = ready_ids(state, slots.drop_last());
        match slots.last() {
            Some(id) => match state.monster_roster.spec_monster(id) {
                Some(m) => if spec_daily_action_refusal(state, m) is None { rest.push(m.id) } else { rest },
                None => rest,
            },
            None => rest,
        }
    }
}

pub fn available_party_ids(state: &GameState) -> (r: Vec<u64>)
    ensures
        r@ == ready_ids(*state, state.monster_roster.party_slots@),
{
    let slots = &state.monster_roster.party_slots;
    let mut out: Vec<u64> = Vec::new();
    let mut i: usize = 0;
    while i < slots.len()
        invariant
            i <= slots@.len(),
            slots@ == state.monster_roster.party_slots@,
            out@ == ready_ids(*state, slots@.take(i as int)),
        decreases slots.len() - i,
    {
        assert(slots@.take(i as int + 1).drop_last() =~= slots@.take(i as int));
        match slots[i] {
            Some(id) => match state.monster_roster.monster(id) {
                Some(m) => {
                    if can_take_daily_action(state, m).is_ok() {
                        out.push(m.id);
                    }
                },
                None => {},
            },
            None => {},
        }
        i += 1;
    }
    assert(slots@.take(slots@.len() as int) =~= slots@);
    out
}

/// Every listed monster still in the roster committed to the tower, in turn.
pub open spec fn commit_all(ms: Seq<MonsterInstance>, ids: Seq<u64>) -> Seq<MonsterInstance>
    decreases ids.len(),
{
    if ids.len() == 0 {
        ms
    } else {
        let prev = commit_all(ms, ids.drop_last());
        match first_numbered(prev, ids.last()) {
            Some(i) => prev.update(i, MonsterInstance {
                condition: MonsterCondition { commitment: DailyCommitment::Tower, ..prev[i].condition },
                ..prev[i]
            }),
            None => prev,
        }
    }
}

/// The seed of a floor's map: the day, the floor, a salt, the next egg id and the goal.
pub open spec fn spec_tower_seed(state: GameState, floor: u32, goal: TowerRunGoal, salt: u32) -> u64 {
    0x544F_5745_524D_4150u64
        ^ (state.day as u64).wrapping_mul(97)
        ^ (floor as u64).wrapping_mul(193)
        ^ (salt as u64).wrapping_mul(389)
        ^ state.egg_inventory.next_id.wrapping_mul(53)
        ^ goal.spec_ordinal().wrapping_mul(577)
}

pub fn tower_seed(state: &GameState, floor: u32, goal: TowerRunGoal, salt: u32) -> (s: u64)
    ensures
        s == spec_tower_seed(*state, floor, goal, salt),
{
    0x544F_5745_524D_4150u64
        ^ (state.day as u64).wrapping_mul(97)
        ^ (floor as u64).wrapping_mul(193)
        ^ (salt as u64).wrapping_mul(389)
        ^ state.egg_inventory.next_id.wrapping_mul(53)
        ^ goal.ordinal().wrapping_mul(577)
}

/// The floor a run starts on: the highest unlocked one (at least the first),
/// never past the top floor.
pub open spec fn spec_start_floor(state: GameState, data: GameData) -> u32 {
    let f = if state.tower_progress.unlocked_floor >= 1 { state.tower_progress.unlocked_floor } else { 1 };
    let top = spec_max_floor(data);
    if f <= top { f } else { top }
}

/// A run starts on the highest unlocked floor (at least the first, at most
/// the top); the monsters that enter are exactly the formation's monsters
/// free for the day, in slot order.
pub proof fn law_run_entry(state: GameState, data: GameData, slots: Seq<Option<u64>>, id: u64)
    ensures
        spec_start_floor(state, data) == min_int(max_int(state.tower_progress.unlocked_floor as int, 1), spec_max_floor(data) as int),
        ready_ids(state, slots).contains(id) ==> exists|k: int| 0 <= k < slots.len() && slots[k] == Some(id)
            && (state.monster_roster.spec_monster(id) matches Some(m) && m.id == id && spec_daily_action_refusal(state, m) is None),
    decreases slots.len(),
{
    if slots.len() > 0 {
        let prefix = slots.drop_last();
        law_run_entry(state, data, prefix, id);
        if ready_ids(state, prefix).contains(id) {
            let k = choose|k: int| 0 <= k < prefix.len() && prefix[k] == Some(id)
                && (state.monster_roster.spec_monster(id) matches Some(m) && m.id == id && spec_daily_action_refusal(state, m) is None);
            assert(slots[k] == prefix[k]);
        } else if ready_ids(state, slots).contains(id) {
            let last = slots.last();
            assert(slots[slots.len() - 1] == last);
            match last {
                Some(lid) => {
                    crate::state::keyed::lemma_first_numbered(state.monster_roster.monsters@, lid);
                    let rest = ready_ids(state, prefix);
                    match state.monster_roster.spec_monster(lid) {
                        Some(m) => {
                            if spec_daily_action_refusal(state, m) is None {
                                assert(ready_ids(state, slots) == rest.push(m.id));
                                assert(rest.push(m.id).contains(id));
                                let j = choose|j: int| 0 <= j < rest.push(m.id).len() && rest.push(m.id)[j] == id;
                                if j < rest.len() {
                                    assert(rest.contains(id));
                                }
                            }
                        },
                        None => {},
                    }
                },
                None => {},
            }
        }
    }
}

/// A run that has just entered `floor`: nothing spent, found or logged yet.
pub open spec fn fresh_run(run: TowerRunState, floor: u32, limit: u32, goal: TowerRunGoal) -> bool {
    &&& run.current_floor == floor
    &&& run.pressure == 0
    &&& run.pressure_limit == limit
    &&& run.pressure_stage == 0
    &&& run.goal == goal
    &&& run.rooms_explored == 0
    &&& run.camp_cooldown == 0
    &&& run.cargo@.len() == 0
    &&& run.found_eggs@.len() == 0
    &&& run.pending_event is None
    &&& run.stats == (TowerRunStats { hazards_countered: 0, landmarks_resolved: 0, floors_descended: 0 })
    &&& run.contract_id@ == goal.spec_contract_id()
    &&& !run.contract_complete
    &&& run.survey_charges == SURVEY_CHARGES_PER_FLOOR
    &&& run.blessings@.len() == 0
    &&& !run.boss_defeated
}

pub open spec fn enter_line(floor: u32, name: Seq<char>) -> Seq<char> {
    "The party enters floor "@ + decimal(floor as nat) + ": "@ + name
        + ". Move through the map to find stairs, eggs, caches, and enemies."@
}

pub open spec fn missing_floor_line(floor: u32) -> Seq<char> {
    "Missing tower floor data for floor "@ + decimal(floor as nat) + ". Tap Town to return."@
}

/// Enters the tower: every formation monster free for the day is committed to
/// the run, a map is drawn for the starting floor with its anomaly, what the
/// party sees enters the field guide, and the entry is logged.
pub fn start_run(state: &mut GameState, data: &GameData, goal: TowerRunGoal) -> (r: TowerResult)
    ensures
        run_wf(*final(state)) || old(state).tower_run is Some,
        old(state).tower_run is Some ==> *final(state) == *old(state) && plain(r, "The party is already inside the tower."@),
        old(state).tower_run is None && ready_ids(*old(state), old(state).monster_roster.party_slots@).len() == 0 ==>
            *final(state) == *old(state) && plain(r, "Assign at least one rested, uncommitted monster to the party before entering the tower. Tap Stable."@),
        old(state).tower_run is None && ready_ids(*old(state), old(state).monster_roster.party_slots@).len() > 0 ==> {
            let f = spec_start_floor(*old(state), *data);
            match data.spec_tower_floor(f) {
                None => *final(state) == *old(state) && plain(r, missing_floor_line(f)),
                Some(fd) => {
                    let seed = spec_tower_seed(*old(state), f, goal, 0);
                    &&& final(state).monster_roster.monsters@ == commit_all(
                        old(state).monster_roster.monsters@,
                        ready_ids(*old(state), old(state).monster_roster.party_slots@),
                    )
                    &&& final(state).monster_roster.party_slots == old(state).monster_roster.party_slots
                    &&& final(state).monster_roster.next_id == old(state).monster_roster.next_id
                    &&& final(state).tower_run matches Some(run) && {
                        &&& fresh_run(run, f, fd.pressure_limit, goal)
                        &&& run.anomaly_id@ == spec_select_anomaly(*data, f, seed)
                        &&& run.map.floor == f
                        &&& run.map.seed == seed
                        &&& run.map.wf()
                        &&& run.map.tiles@.len() > 0
                        &&& run.map.spec_passable(run.map.player_x, run.map.player_y)
                        &&& run.map.spec_visibility(run.map.player_x, run.map.player_y) == TowerTileVisibility::Visible
                        &&& run.event_log@.len() <= 1
                    }
                    &&& final(state).activity_log.entries@ == old(state).activity_log.entries@.push(
                        ActivityEntry { day: old(state).day, text: r.summary },
                    )
                    &&& final(state).day == old(state).day
                    &&& final(state).resources == old(state).resources
                    &&& final(state).egg_inventory == old(state).egg_inventory
                    &&& final(state).town == old(state).town
                    &&& final(state).tower_progress == old(state).tower_progress
                    &&& final(state).combat == old(state).combat
                    &&& final(state).story_flags == old(state).story_flags
                    &&& plain(r, enter_line(fd.floor, fd.name@))
                },
            }
        },
{
    if state.tower_run.is_some() {
        return result_str("The party is already inside the tower.");
    }
    let ready = available_party_ids(state);
    if ready.len() == 0 {
        return result_str("Assign at least one rested, uncommitted monster to the party before entering the tower. Tap Stable.");
    }
    let unlocked = state.tower_progress.unlocked_floor;
    let lowest: u32 = if unlocked >= 1 { unlocked } else { 1 };
    let top = max_floor(data);
    let f: u32 = if lowest <= top { lowest } else { top };
    let fd = match data.tower_floor(f) {
        Some(fd) => fd,
        None => {
            let mut s = String::from_str("Missing tower floor data for floor ");
            let n = decimal_text(f as u64);
            s.append(n.as_str());
            s.append(". Tap Town to return.");
            return result(s);
        },
    };
    let ghost initial = *state;
    let mut k: usize = 0;
    while k < ready.len()
        invariant
            k <= ready@.len(),
            state.tower_run is None,
            *state == (GameState {
                monster_roster: MonsterRoster { monsters: state.monster_roster.monsters, ..initial.monster_roster },
                ..initial
            }),
            state.monster_roster.monsters@ == commit_all(initial.monster_roster.monsters@, ready@.take(k as int)),
        decreases ready.len() - k,
    {
        assert(ready@.take(k as int + 1).drop_last() =~= ready@.take(k as int));
        mark_commitment(state, ready[k], DailyCommitment::Tower);
        k += 1;
    }
    assert(ready@.take(ready@.len() as int) =~= ready@);
    let seed = tower_seed(state, f, goal, 0);
    let map = generate_map(state, data, f, goal, seed);
    let mut run = TowerRunState::new(f, fd.pressure_limit, goal).with_map(map);
    run.anomaly_id = select_anomaly_id(data, f, seed);
    state.tower_run = Some(run);
    record_visible_discoveries(state, data, None);
    let mut s = String::from_str("The party enters floor ");
    let n = decimal_text(fd.floor as u64);
    s.append(n.as_str());
    s.append(": ");
    s.append(fd.name.as_str());
    s.append(". Move through the map to find stairs, eggs, caches, and enemies.");
    state.activity_log.add(state.day, s.clone());
    result(s)
}

/// Makes sure the run has a map: a missing one is drawn for the run's floor
/// (kept within the tower), and a map whose fog of war was lost gets it back
/// with the party's surroundings revealed; what the party sees enters the guide.
/// What making sure of the run's map does to a game state. A run without a
/// map gets one for its floor (kept within the tower), and the generation is
/// logged. A run with a map keeps it, but gets back its fog of war when the
/// fog no longer matches the grid ("Recovered the party's map notes."), and
/// the party's surroundings are lit again when its tile is not visible. In
/// both cases newly seen things may enter the guide.
pub open spec fn map_ensured(s0: GameState, s1: GameState, data: GameData) -> bool {
    &&& s0.tower_run is None ==> s1 == s0
    &&& s1.tower_run is Some == s0.tower_run is Some
    &&& s1.monster_roster == s0.monster_roster
    &&& s1.resources == s0.resources
    &&& s1.combat == s0.combat
    &&& s1.activity_log == s0.activity_log
    &&& s1.day == s0.day
    &&& s1.egg_inventory == s0.egg_inventory
    &&& s1.town == s0.town
    &&& s1.tower_progress == s0.tower_progress
    &&& s0.tower_run matches Some(run) ==> s1.tower_run matches Some(r2) && r2 == (TowerRunState {
        map: r2.map,
        current_floor: r2.current_floor,
        event_log: r2.event_log,
        ..run
    }) && (run.map.tiles@.len() > 0 ==> {
        let restored = run.map.visibility@.len() != run.map.tiles@.len();
        let seen = run.map.spec_visibility(run.map.player_x, run.map.player_y) == TowerTileVisibility::Visible;
        &&& r2.current_floor == run.current_floor
        &&& r2.map == (TowerMapState { visibility: r2.map.visibility, ..run.map })
        &&& r2.map.visibility@ == if restored || !seen { spec_revealed(run.map) } else { run.map.visibility@ }
        &&& run.map.in_bounds(run.map.player_x, run.map.player_y)
            ==> r2.map.spec_visibility(r2.map.player_x, r2.map.player_y) == TowerTileVisibility::Visible
        &&& r2.event_log@.len() >= run.event_log@.len() + if restored { 1int } else { 0int }
        &&& r2.event_log@.take(run.event_log@.len() as int) == run.event_log@
        &&& restored ==> r2.event_log@[run.event_log@.len() as int]@ == "Recovered the party's map notes."@
    }) && (run.map.tiles@.len() == 0 ==> {
        let lowest = if run.current_floor >= 1 { run.current_floor } else { 1 };
        let f = if lowest <= spec_max_floor(data) { lowest } else { spec_max_floor(data) };
        &&& r2.current_floor == f
        &&& r2.map.floor == f
        &&& r2.map.seed == spec_tower_seed(s0, f, run.goal, run.rooms_explored)
        &&& r2.map.tiles@.len() > 0
        &&& r2.map.spec_passable(r2.map.player_x, r2.map.player_y)
        &&& r2.map.spec_visibility(r2.map.player_x, r2.map.player_y) == TowerTileVisibility::Visible
        &&& r2.event_log@.len() > run.event_log@.len()
        &&& r2.event_log@[run.event_log@.len() as int]@ == "Generated a map for floor "@ + decimal(f as nat) + "."@
    }) && r2.map.visibility@.len() == r2.map.tiles@.len()
}

pub fn ensure_map(state: &mut GameState, data: &GameData)
    requires
        run_wf(*old(state)),
    ensures
        run_wf(*final(state)),
        map_ensured(*old(state), *final(state), *data),
{
    let (needs_map, floor_now, goal, steps) = match &state.tower_run {
        None => {
            return;
        },
        Some(run) => (run.map.is_empty(), run.current_floor, run.goal, run.rooms_explored),
    };
    if needs_map {
        let lowest: u32 = if floor_now >= 1 { floor_now } else { 1 };
        let top = max_floor(data);
        let f: u32 = if lowest <= top { lowest } else { top };
        let seed = tower_seed(state, f, goal, steps);
        let map = generate_map(state, data, f, goal, seed);
        let mut run = state.tower_run.take().unwrap();
        run.current_floor = f;
        run.map = map;
        let mut s = String::from_str("Generated a map for floor ");
        let n = decimal_text(f as u64);
        s.append(n.as_str());
        s.append(".");
        let ghost line = s@;
        run.add_event(s);
        let ghost logged = run.event_log@;
        state.tower_run = Some(run);
        record_visible_discoveries(state, data, None);
        proof {
            let n = old(state).tower_run.unwrap().event_log@.len() as int;
            let r2 = state.tower_run.unwrap();
            assert(logged[n]@ == line);
            if r2.event_log@ != logged {
                assert(r2.event_log@.drop_last() == logged);
                assert(r2.event_log@[n] == r2.event_log@.drop_last()[n]);
            }
        }
        return;
    }
    let mut run = state.tower_run.take().unwrap();
    let ghost run0 = run;
    let restored = run.map.ensure_visibility();
    let ghost m1 = run.map;
    if restored || !run.map.is_visible(run.map.player_x, run.map.player_y) {
        reveal_current_area(&mut run.map);
        proof {
            assert(fog_grid(m1) =~= fog_grid(run0.map));
            assert(spec_revealed(m1) =~= spec_revealed(run0.map));
            lemma_party_tile_lit(m1);
        }
    } else {
        proof {
            assert(m1 == run0.map);
        }
    }
    if restored {
        run.add_event(String::from_str("Recovered the party's map notes."));
    }
    let ghost logged = run.event_log@;
    state.tower_run = Some(run);
    record_visible_discoveries(state, data, None);
    proof {
        let r2 = state.tower_run.unwrap();
        let n = run0.event_log@.len() as int;
        assert(logged.take(n) =~= run0.event_log@);
        if r2.event_log@ != logged {
            assert(r2.event_log@.drop_last() == logged);
            assert(r2.event_log@.take(n) =~= logged.take(n));
            if restored {
                assert(r2.event_log@[n] == logged[n]);
            }
        }
    }
}

/// The party's own tile is lit when the party looks around.
proof fn lemma_party_tile_lit(map: TowerMapState)
    requires
        map.wf(),
    ensures
        map.in_bounds(map.player_x, map.player_y) ==> {
            let i = map.index_of(map.player_x, map.player_y);
            &&& 0 <= i < spec_revealed(map).len()
            &&& spec_revealed(map)[i] == TowerTileVisibility::Visible
        },
{
    if map.in_bounds(map.player_x, map.player_y) {
        let px = map.player_x;
        let py = map.player_y;
        let i = map.index_of(px, py);
        assert(py * map.width + px < map.width * map.height) by (nonlinear_arith)
            requires py < map.height, px < map.width;
        vstd::arithmetic::div_mod::lemma_fundamental_div_mod_converse(i, map.width as int, py as int, px as int);
        assert(near(map, px, py, px, py, 2));
        assert(near(map, px, py, px, py, 3));
        assert(lit(map, px, py));
        assert(fog_grid(map).len() == map.tiles@.len());
        assert(spec_revealed(map)[i] == fog_after(map, px, py, fog_grid(map)[i]));
    }
}

} // verus!
