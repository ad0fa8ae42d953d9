//! Camping in the tower: healing, easing pressure, and the wait before the next camp.

use vstd::prelude::*;
use crate::arith::{clamp_i32, clamp_i64, min_int, sat_add_i32, sat_add_i64};
use crate::data::game_data::GameData;
use crate::data::schema::TowerAnomalyEffect;
use crate::engine::tower_engine::{TowerResult, plain, result};
use crate::engine::tower_engine::anomalies::{spec_anomaly_effect, anomaly_effect};
use crate::state::game::GameState;
use crate::state::keyed::first_numbered;
use crate::state::roster::{MonsterInstance, MonsterRoster};
use crate::state::tower_map::{TowerMapState, TowerRoomKind};
use crate::state::tower_run::TowerRunState;
use crate::text::{decimal, decimal_text, signed_decimal, signed_text};

verus! {

/// Heals the monsters of the first `n` formation slots by `amount` each (never
/// past their maximum), and totals the hit points gained.
pub open spec fn heal_party(ms: Seq<MonsterInstance>, slots: Seq<Option<u64>>, n: int, amount: i32) -> (Seq<MonsterInstance>, int)
    decreases n,
{
    if n <= 0 {
        (ms, 0)
    } else {
        let (prev, total) = heal_party(ms, slots, n - 1, amount);
        match slots[n - 1] {
            Some(id) => match first_numbered(prev, id) {
                Some(i) => {
                    let m = prev[i];
                    let hp = min_int(clamp_i32(m.hp + amount), m.max_hp as int);
                    (prev.update(i, MonsterInstance { hp: hp as i32, ..m }), clamp_i64(total + hp - m.hp))
                },
                None => (prev, total),
            },
            None => (prev, total),
        }
    }
}

/// Camping heals each formation monster by the camp's amount but never past
/// its maximum; monsters outside the formation are untouched, and nobody
/// loses health.
pub proof fn law_camp_heal(ms: Seq<MonsterInstance>, slots: Seq<Option<u64>>, n: int, amount: i32)
    requires
        0 <= n <= slots.len(),
        amount >= 0,
    ensures
        heal_party(ms, slots, n, amount).0.len() == ms.len(),
        forall|i: int| 0 <= i < ms.len() ==> {
            let after = #[trigger] heal_party(ms, slots, n, amount).0[i];
            &&& after.id == ms[i].id
            &&& after.max_hp == ms[i].max_hp
            &&& (ms[i].hp <= ms[i].max_hp ==> ms[i].hp <= after.hp <= ms[i].max_hp)
            &&& (after.hp == ms[i].hp || after.hp == ms[i].max_hp || after.hp - ms[i].hp <= amount * n)
            &&& ((forall|k: int| 0 <= k < n ==> slots[k] != Some(ms[i].id)) ==> after == ms[i])
        },
    decreases n,
{
    if n > 0 {
        law_camp_heal(ms, slots, n - 1, amount);
        let prev = heal_party(ms, slots, n - 1, amount).0;
        match slots[n - 1] {
            Some(id) => {
                crate::state::keyed::lemma_first_numbered(prev, id);
            },
            None => {},
        }
        assert forall|i: int| 0 <= i < ms.len() implies {
            let after = #[trigger] heal_party(ms, slots, n, amount).0[i];
            &&& after.id == ms[i].id
            &&& after.max_hp == ms[i].max_hp
            &&& (ms[i].hp <= ms[i].max_hp ==> ms[i].hp <= after.hp <= ms[i].max_hp)
            &&& (after.hp == ms[i].hp || after.hp == ms[i].max_hp || after.hp - ms[i].hp <= amount * n)
            &&& ((forall|k: int| 0 <= k < n ==> slots[k] != Some(ms[i].id)) ==> after == ms[i])
        } by {
            assert(prev[i] == heal_party(ms, slots, n - 1, amount).0[i]);
            assert(amount * (n - 1) + amount == amount * n) by (nonlinear_arith);
            assert(amount * (n - 1) >= 0) by (nonlinear_arith) requires amount >= 0, n >= 1;
            if (forall|k: int| 0 <= k < n ==> slots[k] != Some(ms[i].id)) {
                assert(forall|k: int| 0 <= k < n - 1 ==> slots[k] != Some(ms[i].id));
                assert(slots[n - 1] != Some(ms[i].id));
            }
        }
    }
}

/// Heals every party monster by `amount`; returns the hit points gained in all.
pub fn heal_party_members(state: &mut GameState, amount: i32) -> (total: i64)
    ensures
        *final(state) == (GameState {
            monster_roster: MonsterRoster { monsters: final(state).monster_roster.monsters, ..old(state).monster_roster },
            ..*old(state)
        }),
        (final(state).monster_roster.monsters@, total as int) == heal_party(
            old(state).monster_roster.monsters@,
            old(state).monster_roster.party_slots@,
            old(state).monster_roster.party_slots@.len() as int,
            amount,
        ),
{
    let ghost initial = *state;
    let n = state.monster_roster.party_slots.len();
    let mut total: i64 = 0;
    let mut i: usize = 0;
    while i < n
        invariant
            i <= n,
            n == initial.monster_roster.party_slots@.len(),
            *state == (GameState {
                monster_roster: MonsterRoster { monsters: state.monster_roster.monsters, ..initial.monster_roster },
                ..initial
            }),
            (state.monster_roster.monsters@, total as int) == heal_party(
                initial.monster_roster.monsters@,
                initial.monster_roster.party_slots@,
                i as int,
                amount,
            ),
        decreases n - i,
    {
        match state.monster_roster.party_slots[i] {
            Some(id) => match state.monster_roster.position(id) {
                Some(p) => {
                    let mut m = state.monster_roster.monsters[p].duplicate();
                    let before = m.hp;
                    let raised = sat_add_i32(m.hp, amount);
                    m.hp = if raised < m.max_hp { raised } else { m.max_hp };
                    total = sat_add_i64(total, m.hp as i64 - before as i64);
                    state.monster_roster.monsters.set(p, m);
                },
                None => {},
            },
            None => {},
        }
        i += 1;
    }
    total
}

/// The first room that holds tile `(x, y)`.
pub open spec fn room_index_at(map: TowerMapState, x: u32, y: u32) -> Option<int> {
    crate::seqs::first_where(map.rooms@, |r: crate::state::tower_map::TowerRoom| r.spec_contains(x, y))
}

/// The party shelters when the room it stands in is marked as a camp.
pub open spec fn spec_in_camp_room(run: TowerRunState) -> bool {
    match room_index_at(run.map, run.map.player_x, run.map.player_y) {
        Some(i) => run.map.spec_room_kind(i) == TowerRoomKind::Camp,
        None => false,
    }
}

pub fn room_index(map: &TowerMapState, x: u32, y: u32) -> (r: Option<usize>)
    ensures
        match r {
            Some(i) => room_index_at(*map, x, y) == Some(i as int),
            None => room_index_at(*map, x, y) is None,
        },
        r matches Some(i) ==> i < map.rooms@.len(),
{
    let ghost p = |r: crate::state::tower_map::TowerRoom| r.spec_contains(x, y);
    let mut i: usize = 0;
    while i < map.rooms.len()
        invariant
            i <= map.rooms@.len(),
            crate::seqs::first_where(map.rooms@.take(i as int), p) is None,
            p == (|r: crate::state::tower_map::TowerRoom| r.spec_contains(x, y)),
        decreases map.rooms.len() - i,
    {
        proof { crate::seqs::lemma_first_where_step(map.rooms@, p, i as int); }
        if map.rooms[i].contains(x, y) {
            return Some(i);
        }
        i += 1;
    }
    proof { crate::seqs::lemma_first_where_done(map.rooms@, p); }
    None
}

fn in_camp_room(run: &TowerRunState) -> (r: bool)
    ensures
        r == spec_in_camp_room(*run),
{
    match room_index(&run.map, run.map.player_x, run.map.player_y) {
        Some(i) => run.map.room_kind(i) == TowerRoomKind::Camp,
        None => false,
    }
}

pub open spec fn camp_wait_line(cooldown: u32) -> Seq<char> {
    "The party must travel "@ + decimal(cooldown as nat) + " more step(s) before camping again. Tap EXPLORE or RETREAT."@
}

pub open spec fn camp_line(sheltered: bool, healed: int, reduced: int, cooldown: int) -> Seq<char> {
    "The party rests in "@ + (if sheltered { "the marked shelter"@ } else { "a brief corridor camp"@ }) + ": "@
        + signed_decimal(healed) + " total HP restored, pressure reduced by "@ + decimal(reduced as nat)
        + ", and CAMP readies in "@ + decimal(cooldown as nat) + " steps."@
}

/// Camping heals 3 (2 more under mending lights, 2 more in a marked shelter),
/// eases up to 2 pressure (3 in a shelter), and readies again after 8 steps
/// (2 fewer for each of the two boons, never fewer than 4).
pub fn camp_party(state: &mut GameState, data: &GameData) -> (r: TowerResult)
    ensures
        match old(state).tower_run {
            None => *final(state) == *old(state) && plain(r, "No tower run is active. Tap Town to choose a run."@),
            Some(run) => if run.camp_cooldown > 0 {
                *final(state) == *old(state) && plain(r, camp_wait_line(run.camp_cooldown))
            } else {
                let mending = spec_anomaly_effect(run, *data) == Some(TowerAnomalyEffect::MendingLights);
                let sheltered = spec_in_camp_room(run);
                let healing = 3 + (if mending { 2int } else { 0 }) + (if sheltered { 2int } else { 0 });
                let (ms, healed) = heal_party(
                    old(state).monster_roster.monsters@,
                    old(state).monster_roster.party_slots@,
                    old(state).monster_roster.party_slots@.len() as int,
                    healing as i32,
                );
                let capacity = 2 + (if sheltered { 1int } else { 0 });
                let reduced = min_int(run.pressure as int, capacity);
                let cooldown = if 8 - (if mending { 2int } else { 0 }) - (if sheltered { 2int } else { 0 }) >= 4 {
                    8 - (if mending { 2int } else { 0 }) - (if sheltered { 2int } else { 0 })
                } else {
                    4
                };
                &&& final(state).monster_roster.monsters@ == ms
                &&& final(state).tower_run matches Some(r2) && r2 == (TowerRunState {
                    pressure: (run.pressure - reduced) as u32,
                    camp_cooldown: cooldown as u32,
                    event_log: r2.event_log,
                    ..run
                }) && r2.event_log@ == run.event_log@.push(r.summary)
                &&& *final(state) == (GameState {
                    monster_roster: MonsterRoster { monsters: final(state).monster_roster.monsters, ..old(state).monster_roster },
                    tower_run: final(state).tower_run,
                    ..*old(state)
                })
                &&& plain(r, camp_line(sheltered, healed, reduced, cooldown))
            },
        },
{
    let (cooldown_now, mending, sheltered) = match &state.tower_run {
        None => {
            return result(String::from_str("No tower run is active. Tap Town to choose a run."));
        },
        Some(run) => (run.camp_cooldown, anomaly_effect(run, data) == Some(TowerAnomalyEffect::MendingLights), in_camp_room(run)),
    };
    if cooldown_now > 0 {
        let mut s = String::from_str("The party must travel ");
        let n = decimal_text(cooldown_now as u64);
        s.append(n.as_str());
        s.append(" more step(s) before camping again. Tap EXPLORE or RETREAT.");
        return result(s);
    }
    let healing: i32 = 3 + (if mending { 2 } else { 0 }) + (if sheltered { 2 } else { 0 });
    let healed = heal_party_members(state, healing);
    let mut run = state.tower_run.take().unwrap();
    let capacity: u32 = 2 + if sheltered { 1 } else { 0 };
    let reduced = if run.pressure < capacity { run.pressure } else { capacity };
    run.pressure = run.pressure - reduced;
    let base: u32 = 8 - (if mending { 2 } else { 0 }) - (if sheltered { 2 } else { 0 });
    run.camp_cooldown = if base >= 4 { base } else { 4 };
    let mut s = String::from_str("The party rests in ");
    if sheltered {
        s.append("the marked shelter");
    } else {
        s.append("a brief corridor camp");
    }
    s.append(": ");
    let h = signed_text(healed);
    s.append(h.as_str());
    s.append(" total HP restored, pressure reduced by ");
    let p = decimal_text(reduced as u64);
    s.append(p.as_str());
    s.append(", and CAMP readies in ");
    let c = decimal_text(run.camp_cooldown as u64);
    s.append(c.as_str());
    s.append(" steps.");
    let logged = s.clone();
    let ghost before = run.event_log@;
    run.add_event(logged);
    assert(run.event_log@ =~= before.push(s));
    state.tower_run = Some(run);
    result(s)
}

} // verus!
