//! Tower pressure: how awake the tower is, and what each new stage brings.

use vstd::prelude::*;
use crate::arith::clamp_u32;
use crate::data::game_data::GameData;
use crate::engine::tower_engine::map_objects::{spawn_pressure_enemy, objects_only};
use crate::state::game::GameState;
use crate::state::tower_run::TowerRunState;

verus! {

/// The stage of pressure: 0 calm, 1 from a third of the limit, 2 from two
/// thirds, 3 at the limit (products saturate at the largest `u32`).
pub open spec fn spec_pressure_stage(pressure: u32, limit: u32) -> u8 {
    if limit == 0 || pressure == 0 {
        0
    } else if pressure >= limit {
        3
    } else if clamp_u32(3 * pressure) >= clamp_u32(2 * limit) {
        2
    } else if clamp_u32(3 * pressure) >= limit {
        1
    } else {
        0
    }
}

/// Pressure rises through its stages as it grows: calm below a third of the
/// limit (or with no limit or no pressure), stirring from a third, high from
/// two thirds, and fully awake at the limit; more pressure never means a
/// lower stage.
pub proof fn law_pressure_stages(pressure: u32, more: u32, limit: u32)
    ensures
        limit == 0 || pressure == 0 ==> spec_pressure_stage(pressure, limit) == 0,
        limit > 0 && pressure >= limit ==> spec_pressure_stage(pressure, limit) == 3,
        0 < limit <= 0x5555_5555 && 0 < pressure && 3 * pressure < limit ==> spec_pressure_stage(pressure, limit) == 0,
        0 < limit <= 0x5555_5555 && limit <= 3 * pressure < 2 * limit ==> spec_pressure_stage(pressure, limit) == 1,
        0 < limit <= 0x5555_5555 && 2 * limit <= 3 * pressure && pressure < limit ==> spec_pressure_stage(pressure, limit) == 2,
        spec_pressure_stage(pressure, limit) <= 3,
        pressure <= more ==> spec_pressure_stage(pressure, limit) <= spec_pressure_stage(more, limit),
{
}

pub fn pressure_stage(pressure: u32, limit: u32) -> (s: u8)
    ensures
        s == spec_pressure_stage(pressure, limit),
{
    let triple: u32 = if pressure as u64 * 3 > u32::MAX as u64 { u32::MAX } else { pressure * 3 };
    let double: u32 = if limit as u64 * 2 > u32::MAX as u64 { u32::MAX } else { limit * 2 };
    if limit == 0 || pressure == 0 {
        0
    } else if pressure >= limit {
        3
    } else if triple >= double {
        2
    } else if triple >= limit {
        1
    } else {
        0
    }
}

/// Texts joined with single spaces.
pub open spec fn spaced(parts: Seq<Seq<char>>) -> Seq<char>
    decreases parts.len(),
{
    if parts.len() == 0 {
        Seq::empty()
    } else if parts.len() == 1 {
        parts[0]
    } else {
        spaced(parts.drop_last()) + " "@ + parts.last()
    }
}

pub open spec fn enemy_name(data: GameData, id: Seq<char>) -> Seq<char> {
    match data.spec_enemy(id) {
        Some(e) => e.name@,
        None => id,
    }
}

/// The warnings for the stages crossed from `prev` to `next`; `spawned` names
/// the hunter that high pressure placed, if one could be placed.
pub open spec fn stage_messages(prev: u8, next: u8, spawned: Option<Seq<char>>) -> Seq<Seq<char>> {
    let first: Seq<Seq<char>> = if prev < 1 && next >= 1 {
        seq!["The tower stirs; distant rooms answer the party's footsteps."@]
    } else {
        Seq::empty()
    };
    let second: Seq<Seq<char>> = if prev < 2 && next >= 2 {
        match spawned {
            Some(name) => seq!["High pressure draws a wandering "@ + name + " onto the map."@],
            None => seq!["High pressure sends something searching through the floor."@],
        }
    } else {
        Seq::empty()
    };
    let third: Seq<Seq<char>> = if prev < 3 && next >= 3 {
        seq!["The tower is fully awake. CAMP or RETREAT before moving again."@]
    } else {
        Seq::empty()
    };
    first + second + third
}

fn push_part(s: &mut String, any: &mut bool, part: &str, Ghost(parts): Ghost<Seq<Seq<char>>>) -> (r: Ghost<Seq<Seq<char>>>)
    requires
        old(s)@ == spaced(parts),
        *old(any) == (parts.len() > 0),
    ensures
        r@ == parts.push(part@),
        final(s)@ == spaced(r@),
        *final(any),
{
    if *any {
        s.append(" ");
    }
    s.append(part);
    *any = true;
    proof {
        assert(parts.push(part@).drop_last() =~= parts);
    }
    Ghost(parts.push(part@))
}

/// What bringing the pressure stage up to date does (see `refresh_pressure`).
pub open spec fn pressure_refreshed(s0: GameState, s1: GameState, data: GameData, r: Option<String>) -> bool {
    &&& (s1 == (GameState { tower_run: s1.tower_run, ..s0 }))
    &&& (match s0.tower_run {
        None => r is None && s1.tower_run is None,
        Some(run) => {
            let next = spec_pressure_stage(run.pressure, run.pressure_limit);
            if next <= run.pressure_stage {
                r is None && s1.tower_run == s0.tower_run
            } else {
                s1.tower_run matches Some(r2) && {
                    let grew = r2.map.objects@.len() > run.map.objects@.len();
                    let spawned = if grew { Some(enemy_name(data, r2.map.objects@.last().enemy_id@)) } else { None };
                    &&& r2 == (TowerRunState { pressure_stage: next, map: r2.map, event_log: r2.event_log, ..run })
                    &&& r2.map.wf()
                    &&& objects_only(run.map, r2.map)
                    &&& (next < 2 || run.pressure_stage >= 2 ==> r2.map == run.map)
                    &&& r matches Some(s) && s@ == spaced(stage_messages(run.pressure_stage, next, spawned))
                        && r2.event_log@ == run.event_log@.push(s)
                }
            }
        },
    })
}

/// The pressure stage only ever rises: after an update it is the stage the
/// current pressure reaches, or the one already recorded if that is higher.
/// A wandering hunter can appear only when the second stage is first
/// reached, and the pressure itself never changes.
pub proof fn law_stage_only_rises(s0: GameState, s1: GameState, data: GameData, r: Option<String>)
    requires
        pressure_refreshed(s0, s1, data, r),
    ensures
        s0.tower_run matches Some(run) ==> (s1.tower_run matches Some(r2) && {
            &&& r2.pressure_stage == if spec_pressure_stage(run.pressure, run.pressure_limit) > run.pressure_stage {
                spec_pressure_stage(run.pressure, run.pressure_limit)
            } else {
                run.pressure_stage
            }
            &&& r2.pressure == run.pressure
            &&& (r2.map.objects != run.map.objects ==> run.pressure_stage < 2 && spec_pressure_stage(run.pressure, run.pressure_limit) >= 2)
            &&& (r is Some <==> spec_pressure_stage(run.pressure, run.pressure_limit) > run.pressure_stage)
        }),
        s1.monster_roster == s0.monster_roster && s1.resources == s0.resources,
{
}

/// When pressure reaches a new stage, records it, warns of every stage crossed
/// and, on reaching the second stage, places a wandering hunter.
pub fn refresh_pressure(state: &mut GameState, data: &GameData) -> (r: Option<String>)
    requires
        old(state).tower_run matches Some(run) ==> run.map.wf(),
    ensures
        pressure_refreshed(*old(state), *final(state), *data, r),
{
    let mut run = match state.tower_run.take() {
        Some(run) => run,
        None => {
            return None;
        },
    };
    let next = pressure_stage(run.pressure, run.pressure_limit);
    if next <= run.pressure_stage {
        state.tower_run = Some(run);
        return None;
    }
    let prev = run.pressure_stage;
    run.pressure_stage = next;
    let mut s = String::new();
    let mut any = false;
    let ghost mut parts: Seq<Seq<char>> = Seq::empty();
    if prev < 1 && next >= 1 {
        let Ghost(p2) = push_part(&mut s, &mut any, "The tower stirs; distant rooms answer the party's footsteps.", Ghost(parts));
        proof { parts = p2; }
    }
    let ghost spawned: Option<Seq<char>> = None;
    if prev < 2 && next >= 2 {
        let seed = run.map.seed ^ (run.pressure as u64).wrapping_mul(0x9E37u64) ^ ((run.rooms_explored as u64) << 17u64);
        match spawn_pressure_enemy(&mut run.map, data, seed) {
            Some(id) => {
                let mut line = String::from_str("High pressure draws a wandering ");
                match data.enemy(id.as_str()) {
                    Some(e) => line.append(e.name.as_str()),
                    None => line.append(id.as_str()),
                }
                line.append(" onto the map.");
                let Ghost(p2) = push_part(&mut s, &mut any, line.as_str(), Ghost(parts));
                proof { parts = p2; }
            },
            None => {
                let Ghost(p2) = push_part(&mut s, &mut any, "High pressure sends something searching through the floor.", Ghost(parts));
                proof { parts = p2; }
            },
        }
    }
    if prev < 3 && next >= 3 {
        let Ghost(p2) = push_part(&mut s, &mut any, "The tower is fully awake. CAMP or RETREAT before moving again.", Ghost(parts));
        proof { parts = p2; }
    }
    proof {
        let run0 = old(state).tower_run.unwrap();
        let grew = run.map.objects@.len() > run0.map.objects@.len();
        let sp = if grew { Some(enemy_name(*data, run.map.objects@.last().enemy_id@)) } else { None::<Seq<char>> };
        assert(parts =~= stage_messages(prev, next, sp));
    }
    run.add_event(s.clone());
    state.tower_run = Some(run);
    Some(s)
}

} // verus!
