//! Walking the floor, and what the party meets on the tile it reaches.

use vstd::prelude::*;
use crate::arith::{clamp_i32, clamp_i64, clamp_u32, max_int, min_int, sat_add_i32, sat_add_i64, sat_add_u32};
use crate::data::game_data::GameData;
use crate::data::schema::{TowerAnomalyEffect, TowerBlessing, TowerHazardDefinition};
use crate::engine::combat_support::{add_rewards_view, law_floor_reached, spec_floor_reached, record_floor_reached, spec_max_floor, max_floor, reward_list};
use crate::engine::tower_engine::{TowerEncounterRequest, TowerResult, plain, result, result_str, return_outcome, return_to_town};
use crate::engine::tower_engine::anomalies::{spec_anomaly_effect, anomaly_effect};
use crate::engine::tower_engine::contracts::{amounts_view, contract_due, contract_line, effective_contract_id, refresh_contract};
use crate::engine::tower_engine::discovery::{discoveries_recorded, record_visible_discoveries};
use crate::engine::tower_engine::map_gen::{generate_map, reveal_current_area, spec_revealed};
use crate::engine::tower_engine::navigation::{WanderingAdvance, advance_wandering_enemy, explore_step, hunter_advanced, is_step};
use crate::engine::tower_engine::pressure::{refresh_pressure, enemy_name, pressure_refreshed};
use crate::engine::tower_engine::runs::{run_wf, ensure_map, map_ensured, tower_seed};
use crate::state::game::GameState;
use crate::state::keyed::first_numbered;
use crate::state::roster::{MonsterInstance, MonsterRoster};
use crate::state::tower_map::{first_object_at, TowerMapObject, TowerMapObjectKind, TowerMapState};
use crate::state::tower_run::{TowerFoundEgg, TowerPendingEvent, TowerRunState, TowerRunStats};
use crate::state::resources::stack_view;
use crate::text::{decimal, decimal_text, signed_decimal, signed_text};

verus! {

pub open spec fn no_run_line() -> Seq<char> {
    "No tower run is active. Tap Town to choose a run."@
}

/// How much a cache holds once the floor's anomaly has had its say.
pub open spec fn cache_amount(run: TowerRunState, data: GameData, amount: i32) -> i32 {
    let bloomed = if spec_anomaly_effect(run, data) == Some(TowerAnomalyEffect::CacheBloom) {
        clamp_i32(amount + 2) as i32
    } else {
        amount
    };
    if run.spec_has_blessing(TowerBlessing::CacheSense) { clamp_i32(bloomed + 2) as i32 } else { bloomed }
}

/// How long a found egg needs once the floor's anomaly has had its say.
pub open spec fn nest_days(run: TowerRunState, data: GameData, days: u32) -> u32 {
    if spec_anomaly_effect(run, data) == Some(TowerAnomalyEffect::NestingPulse) && days > 1 {
        (days - 1) as u32
    } else {
        days
    }
}

/// A cache holds what it was stocked with, two more in a crystal bloom and
/// two more again with Cache Sense; a found egg keeps its incubation except
/// that nesting pollen takes a day off one that needs more than a day.
pub proof fn law_cache_and_nest_boons(run: TowerRunState, data: GameData, amount: i32, days: u32)
    requires
        -1000000 <= amount <= 1000000,
    ensures
        cache_amount(run, data, amount) == amount
            + (if spec_anomaly_effect(run, data) == Some(TowerAnomalyEffect::CacheBloom) { 2int } else { 0int })
            + (if run.spec_has_blessing(TowerBlessing::CacheSense) { 2int } else { 0int }),
        nest_days(run, data, days) == if spec_anomaly_effect(run, data) == Some(TowerAnomalyEffect::NestingPulse) && days > 1 {
            days - 1
        } else {
            days as int
        },
        nest_days(run, data, days) >= 1 || days == 0,
{
}

pub open spec fn egg_name(data: GameData, id: Seq<char>) -> Seq<char> {
    match data.spec_egg_type(id) {
        Some(t) => t.name@,
        None => id,
    }
}

pub open spec fn cache_line(data: GameData, amount: i32, resource: Seq<char>) -> Seq<char> {
    "Found "@ + signed_decimal(amount as int) + " "@ + data.spec_resource_name(resource) + " in a tower cache."@
}

pub open spec fn nest_line(name: Seq<char>) -> Seq<char> {
    "Found a "@ + name + " in a quiet nest."@
}

pub open spec fn blocker_line(is_boss: bool) -> Seq<char> {
    "A "@ + (if is_boss { "boss"@ } else { "enemy"@ }) + " blocks the tile. Combat starts."@
}

/// Picks up a cache: its amount (two more in a cache bloom, two more under
/// Cache Sense) goes to the cargo.
fn take_cache(state: &mut GameState, data: &GameData, object: &TowerMapObject) -> (r: TowerResult)
    ensures
        match old(state).tower_run {
            None => *final(state) == *old(state) && plain(r, no_run_line()),
            Some(run) => {
                let amount = cache_amount(run, *data, object.amount);
                &&& *final(state) == (GameState { tower_run: final(state).tower_run, ..*old(state) })
                &&& final(state).tower_run matches Some(r2)
                    && r2 == (TowerRunState { cargo: r2.cargo, event_log: r2.event_log, ..run })
                    && r2.spec_cargo_for(object.resource_id@) == clamp_i32(run.spec_cargo_for(object.resource_id@) + amount)
                    && (forall|k: Seq<char>| k != object.resource_id@ ==> #[trigger] r2.spec_cargo_for(k) == run.spec_cargo_for(k))
                    && r2.event_log@ == run.event_log@.push(r.summary)
                &&& plain(r, cache_line(*data, amount, object.resource_id@))
            },
        },
{
    let mut run = match state.tower_run.take() {
        Some(run) => run,
        None => {
            return result_str("No tower run is active. Tap Town to choose a run.");
        },
    };
    let bloom = anomaly_effect(&run, data) == Some(TowerAnomalyEffect::CacheBloom);
    let bloomed = if bloom { sat_add_i32(object.amount, 2) } else { object.amount };
    let amount = if run.has_blessing(TowerBlessing::CacheSense) { sat_add_i32(bloomed, 2) } else { bloomed };
    let ghost before = run;
    run.add_cargo(object.resource_id.as_str(), amount);
    assert(run.spec_cargo_for(object.resource_id@) == clamp_i32(before.spec_cargo_for(object.resource_id@) + amount));
    let mut s = String::from_str("Found ");
    let n = signed_text(amount as i64);
    s.append(n.as_str());
    s.append(" ");
    s.append(data.resource_name(object.resource_id.as_str()));
    s.append(" in a tower cache.");
    let ghost filled = run;
    run.add_event(s.clone());
    assert(run.cargo == filled.cargo);
    assert(forall|k: Seq<char>| #[trigger] run.spec_cargo_for(k) == filled.spec_cargo_for(k));
    state.tower_run = Some(run);
    result(s)
}

/// Takes an egg from a nest (a day sooner to hatch under nesting pollen).
fn take_egg(state: &mut GameState, data: &GameData, object: &TowerMapObject) -> (r: TowerResult)
    ensures
        match old(state).tower_run {
            None => *final(state) == *old(state) && plain(r, no_run_line()),
            Some(run) => {
                &&& *final(state) == (GameState { tower_run: final(state).tower_run, ..*old(state) })
                &&& final(state).tower_run matches Some(r2)
                    && r2 == (TowerRunState { found_eggs: r2.found_eggs, event_log: r2.event_log, ..run })
                    && r2.found_eggs@ == run.found_eggs@.push(TowerFoundEgg {
                        egg_type_id: r2.found_eggs@.last().egg_type_id,
                        hatch_days: nest_days(run, *data, object.hatch_days),
                        origin_floor: run.current_floor,
                        palette_seed: object.palette_seed,
                    })
                    && r2.found_eggs@.last().egg_type_id@ == object.egg_type_id@
                    && r2.event_log@ == run.event_log@.push(r.summary)
                &&& plain(r, nest_line(egg_name(*data, object.egg_type_id@)))
            },
        },
{
    let mut run = match state.tower_run.take() {
        Some(run) => run,
        None => {
            return result_str("No tower run is active. Tap Town to choose a run.");
        },
    };
    let pollen = anomaly_effect(&run, data) == Some(TowerAnomalyEffect::NestingPulse);
    let days = if pollen && object.hatch_days > 1 { object.hatch_days - 1 } else { object.hatch_days };
    run.found_eggs.push(TowerFoundEgg {
        egg_type_id: object.egg_type_id.clone(),
        hatch_days: days,
        origin_floor: run.current_floor,
        palette_seed: object.palette_seed,
    });
    let mut s = String::from_str("Found a ");
    match data.egg_type(object.egg_type_id.as_str()) {
        Some(t) => s.append(t.name.as_str()),
        None => s.append(object.egg_type_id.as_str()),
    }
    s.append(" in a quiet nest.");
    run.add_event(s.clone());
    state.tower_run = Some(run);
    result(s)
}

/// An enemy or boss on the tile: combat is requested against it.
fn meet_enemy(state: &mut GameState, object: &TowerMapObject) -> (r: TowerResult)
    ensures
        *final(state) == (GameState { tower_run: final(state).tower_run, ..*old(state) }),
        match old(state).tower_run {
            None => final(state).tower_run is None,
            Some(run) => final(state).tower_run matches Some(r2)
                && r2 == (TowerRunState { event_log: r2.event_log, ..run })
                && r2.event_log@ == run.event_log@.push(r.summary),
        },
        r.summary@ == blocker_line(object.kind == TowerMapObjectKind::Boss),
        !r.returned_to_town,
        r.encounter matches Some(e) && e.is_boss == (object.kind == TowerMapObjectKind::Boss)
            && e.floor == (match old(state).tower_run { Some(run) => run.current_floor, None => 1 })
            && (if object.enemy_id@.len() == 0 { e.enemy_id is None } else { e.enemy_id matches Some(id) && id@ == object.enemy_id@ }),
{
    let is_boss = object.kind == TowerMapObjectKind::Boss;
    let floor = match &state.tower_run {
        Some(run) => run.current_floor,
        None => 1,
    };
    let mut s = String::from_str("A ");
    s.append(if is_boss { "boss" } else { "enemy" });
    s.append(" blocks the tile. Combat starts.");
    match state.tower_run.take() {
        Some(mut run) => {
            run.add_event(s.clone());
            state.tower_run = Some(run);
        },
        None => {},
    }
    let enemy_id = if object.enemy_id.as_str().is_empty() { None } else { Some(object.enemy_id.clone()) };
    TowerResult { summary: s, encounter: Some(TowerEncounterRequest { floor, is_boss, enemy_id }), returned_to_town: false }
}

/// Whether the monster can counter the hazard by its passive or its element.
pub open spec fn counters(h: TowerHazardDefinition, m: MonsterInstance) -> bool {
    (h.counter_passive == Some(m.passive)) || (h.counter_element == Some(m.element))
}

/// The first formation monster, in slot order, that counters the hazard.
pub open spec fn first_counter(state: GameState, h: TowerHazardDefinition, slots: Seq<Option<u64>>) -> Option<MonsterInstance>
    decreases slots.len(),
{
    if slots.len() == 0 {
        None
    } else {
        match first_counter(state, h, slots.drop_last()) {
            Some(m) => Some(m),
            None => match slots.last() {
                Some(id) => match state.monster_roster.spec_monster(id) {
                    Some(m) => if counters(h, m) { Some(m) } else { None },
                    None => None,
                },
                None => None,
            },
        }
    }
}

fn find_counter(state: &GameState, h: &TowerHazardDefinition) -> (r: Option<String>)
    ensures
        match first_counter(*state, *h, state.monster_roster.party_slots@) {
            Some(m) => r matches Some(name) && name@ == m.name@,
            None => r is None,
        },
{
    let slots = &state.monster_roster.party_slots;
    let mut i: usize = 0;
    while i < slots.len()
        invariant
            i <= slots@.len(),
            slots@ == state.monster_roster.party_slots@,
            first_counter(*state, *h, slots@.take(i as int)) is None,
        decreases slots.len() - i,
    {
        assert(slots@.take(i as int + 1).drop_last() =~= slots@.take(i as int));
        match slots[i] {
            Some(id) => match state.monster_roster.monster(id) {
                Some(m) => {
                    let by_passive = match h.counter_passive {
                        Some(p) => p == m.passive,
                        None => false,
                    };
                    let by_element = match h.counter_element {
                        Some(e) => e == m.element,
                        None => false,
                    };
                    if by_passive || by_element {
                        proof { lemma_first_counter_prefix(*state, *h, slots@, i as int + 1); }
                        return Some(m.name.clone());
                    }
                },
                None => {},
            },
            None => {},
        }
        i += 1;
    }
    assert(slots@.take(slots@.len() as int) =~= slots@);
    None
}

proof fn lemma_first_counter_prefix(state: GameState, h: TowerHazardDefinition, slots: Seq<Option<u64>>, n: int)
    requires
        0 <= n <= slots.len(),
        first_counter(state, h, slots.take(n)) is Some,
    ensures
        first_counter(state, h, slots) == first_counter(state, h, slots.take(n)),
    decreases slots.len() - n,
{
    if n < slots.len() {
        assert(slots.take(n + 1).drop_last() =~= slots.take(n));
        lemma_first_counter_prefix(state, h, slots, n + 1);
    } else {
        assert(slots.take(n) =~= slots);
    }
}

/// Hurts every formation monster by `damage` (never below 1 HP); totals the damage dealt.
pub open spec fn hurt_party(ms: Seq<MonsterInstance>, slots: Seq<Option<u64>>, n: int, damage: i32) -> (Seq<MonsterInstance>, int)
    decreases n,
{
    if n <= 0 {
        (ms, 0)
    } else {
        let (prev, total) = hurt_party(ms, slots, n - 1, damage);
        match slots[n - 1] {
            Some(id) => match first_numbered(prev, id) {
                Some(i) => {
                    let m = prev[i];
                    let hp = max_int(clamp_i32(m.hp - damage), 1);
                    (prev.update(i, MonsterInstance { hp: hp as i32, ..m }), clamp_i64(total + m.hp - hp))
                },
                None => (prev, total),
            },
            None => (prev, total),
        }
    }
}

/// The monster that counters a hazard carries the passive or the element
/// the hazard yields to and stands in the formation; when none is found, no
/// formation monster carries either.
pub proof fn law_hazard_counter(state: GameState, h: TowerHazardDefinition, slots: Seq<Option<u64>>)
    ensures
        first_counter(state, h, slots) matches Some(m) ==> {
            &&& (h.counter_passive == Some(m.passive) || h.counter_element == Some(m.element))
            &&& exists|k: int| 0 <= k < slots.len() && (#[trigger] slots[k]) is Some
                && state.monster_roster.spec_monster(slots[k].unwrap()) == Some(m)
        },
        first_counter(state, h, slots) is None ==> forall|k: int| 0 <= k < slots.len() ==> (#[trigger] slots[k] matches Some(id)
            ==> (state.monster_roster.spec_monster(id) matches Some(m)
                ==> !(h.counter_passive == Some(m.passive) || h.counter_element == Some(m.element)))),
    decreases slots.len(),
{
    if slots.len() > 0 {
        let prefix = slots.drop_last();
        law_hazard_counter(state, h, prefix);
        assert forall|k: int| 0 <= k < prefix.len() implies prefix[k] == slots[k] by {}
        if first_counter(state, h, prefix) is Some {
            let m = first_counter(state, h, prefix).unwrap();
            let k = choose|k: int| 0 <= k < prefix.len() && (#[trigger] prefix[k]) is Some
                && state.monster_roster.spec_monster(prefix[k].unwrap()) == Some(m);
            assert(slots[k] == prefix[k]);
        } else {
            assert(slots[slots.len() - 1] == slots.last());
        }
    }
}

/// An uncountered hazard hurts each formation monster by its damage but
/// never below 1 HP; monsters outside the formation are untouched.
pub proof fn law_hazard_hurt(ms: Seq<MonsterInstance>, slots: Seq<Option<u64>>, n: int, damage: i32)
    requires
        0 <= n <= slots.len(),
        damage >= 0,
    ensures
        hurt_party(ms, slots, n, damage).0.len() == ms.len(),
        forall|i: int| 0 <= i < ms.len() ==> {
            let after = #[trigger] hurt_party(ms, slots, n, damage).0[i];
            &&& after.id == ms[i].id
            &&& after.max_hp == ms[i].max_hp
            &&& after.hp <= ms[i].hp || after.hp == 1
            &&& (after.hp != ms[i].hp ==> after.hp >= 1)
            &&& ((forall|k: int| 0 <= k < n ==> slots[k] != Some(ms[i].id)) ==> after == ms[i])
        },
    decreases n,
{
    if n > 0 {
        law_hazard_hurt(ms, slots, n - 1, damage);
        let prev = hurt_party(ms, slots, n - 1, damage).0;
        match slots[n - 1] {
            Some(id) => {
                crate::state::keyed::lemma_first_numbered(prev, id);
            },
            None => {},
        }
        assert forall|i: int| 0 <= i < ms.len() implies {
            let after = #[trigger] hurt_party(ms, slots, n, damage).0[i];
            &&& after.id == ms[i].id
            &&& after.max_hp == ms[i].max_hp
            &&& after.hp <= ms[i].hp || after.hp == 1
            &&& (after.hp != ms[i].hp ==> after.hp >= 1)
            &&& ((forall|k: int| 0 <= k < n ==> slots[k] != Some(ms[i].id)) ==> after == ms[i])
        } by {
            assert(prev[i] == hurt_party(ms, slots, n - 1, damage).0[i]);
            if (forall|k: int| 0 <= k < n ==> slots[k] != Some(ms[i].id)) {
                assert(forall|k: int| 0 <= k < n - 1 ==> slots[k] != Some(ms[i].id));
                assert(slots[n - 1] != Some(ms[i].id));
            }
        }
    }
}

fn hurt_party_members(state: &mut GameState, damage: i32) -> (total: i64)
    ensures
        *final(state) == (GameState {
            monster_roster: MonsterRoster { monsters: final(state).monster_roster.monsters, ..old(state).monster_roster },
            ..*old(state)
        }),
        (final(state).monster_roster.monsters@, total as int) == hurt_party(
            old(state).monster_roster.monsters@,
            old(state).monster_roster.party_slots@,
            old(state).monster_roster.party_slots@.len() as int,
            damage,
        ),
{
    let ghost initial = *state;
    let n = state.monster_roster.party_slots.len();
    let mut total: i64 = 0;
    let mut i: usize = 0;
    while i < n
        invariant
            i <= n,
            n == initial.monster_roster.party_slots@.len(),
            *state == (GameState {
                monster_roster: MonsterRoster { monsters: state.monster_roster.monsters, ..initial.monster_roster },
                ..initial
            }),
            (state.monster_roster.monsters@, total as int) == hurt_party(
                initial.monster_roster.monsters@,
                initial.monster_roster.party_slots@,
                i as int,
                damage,
            ),
        decreases n - i,
    {
        match state.monster_roster.party_slots[i] {
            Some(id) => match state.monster_roster.position(id) {
                Some(p) => {
                    let mut m = state.monster_roster.monsters[p].duplicate();
                    let before = m.hp;
                    let lowered = crate::arith::sat_sub_i32(m.hp, damage);
                    m.hp = if lowered < 1 { 1 } else { lowered };
                    total = sat_add_i64(total, before as i64 - m.hp as i64);
                    state.monster_roster.monsters.set(p, m);
                },
                None => {},
            },
            None => {},
        }
        i += 1;
    }
    total
}

pub open spec fn counter_line(data: GameData, name: Seq<char>, h: TowerHazardDefinition, rewarded: bool) -> Seq<char> {
    name + " counters "@ + h.name@ + " before it closes on the party."@
        + if rewarded && h.counter_rewards@.len() > 0 {
            " Recovered "@ + reward_list(data, amounts_view(h.counter_rewards@)) + "."@
        } else {
            Seq::<char>::empty()
        }
}

pub open spec fn hazard_hit_line(h: TowerHazardDefinition, damage: int) -> Seq<char> {
    h.name@ + " catches the party: "@ + signed_decimal(damage) + " total damage and +"@ + decimal(h.pressure as nat) + " pressure."@
}

/// What crossing the hazard `hazard_id` does, case by case.
pub open spec fn hazard_outcome(old_state: GameState, new_state: GameState, data: GameData, hazard_id: Seq<char>, r: TowerResult) -> bool {
    &&& (r.encounter is None && !r.returned_to_town)
    &&& (new_state.combat == old_state.combat)
    &&& (new_state.tower_run is Some == old_state.tower_run is Some)
    &&& (new_state.tower_run matches Some(r2) ==> r2.map == old_state.tower_run.unwrap().map)
    &&& (match data.spec_tower_hazard(hazard_id) {
        None => new_state == old_state && r.summary@ == "The party crosses an unrecorded tower hazard."@,
        Some(h) => match first_counter(old_state, h, old_state.monster_roster.party_slots@) {
            Some(m) => {
                &&& new_state.monster_roster == old_state.monster_roster
                &&& r.summary@ == counter_line(data, m.name@, h, old_state.tower_run is Some)
                &&& match old_state.tower_run {
                    Some(run) => {
                        let r2 = new_state.tower_run.unwrap();
                        &&& r2 == (TowerRunState {
                            cargo: r2.cargo,
                            stats: TowerRunStats { hazards_countered: clamp_u32(run.stats.hazards_countered + 1) as u32, ..run.stats },
                            event_log: r2.event_log,
                            ..run
                        })
                        &&& stack_view(r2.cargo@) == add_rewards_view(stack_view(run.cargo@), h.counter_rewards@)
                        &&& r2.event_log@ == run.event_log@.push(r.summary)
                    },
                    None => true,
                }
            },
            None => if old_state.tower_run is Some && old_state.tower_run.unwrap().spec_has_blessing(TowerBlessing::Wardstone) {
                let run = old_state.tower_run.unwrap();
                let r2 = new_state.tower_run.unwrap();
                &&& new_state.monster_roster == old_state.monster_roster
                &&& r.summary@ == ward_line(h)
                &&& r2 == (TowerRunState {
                    blessings: r2.blessings,
                    stats: TowerRunStats { hazards_countered: clamp_u32(run.stats.hazards_countered + 1) as u32, ..run.stats },
                    event_log: r2.event_log,
                    ..run
                })
                &&& forall|c: TowerBlessing| #[trigger] r2.spec_has_blessing(c) == (run.spec_has_blessing(c) && c != TowerBlessing::Wardstone)
                &&& r2.event_log@ == run.event_log@.push(r.summary)
            } else {
                let (ms, total) = hurt_party(
                    old_state.monster_roster.monsters@,
                    old_state.monster_roster.party_slots@,
                    old_state.monster_roster.party_slots@.len() as int,
                    h.damage,
                );
                &&& new_state.monster_roster.monsters@ == ms
                &&& r.summary@ == hazard_hit_line(h, total)
                &&& match old_state.tower_run {
                    Some(run) => {
                        let r2 = new_state.tower_run.unwrap();
                        &&& r2 == (TowerRunState {
                            pressure: min_int(clamp_u32(run.pressure + h.pressure), run.pressure_limit as int) as u32,
                            event_log: r2.event_log,
                            ..run
                        })
                        &&& r2.event_log@ == run.event_log@.push(r.summary)
                    },
                    None => true,
                }
            },
        },
    })
}

/// What a hazard's name says when the Wardstone takes its blow.
pub open spec fn ward_line(h: TowerHazardDefinition) -> Seq<char> {
    h.name@ + " closes on the party, but the Wardstone shatters and turns it aside."@
}

/// A hazard on the tile: a formation monster that counters it turns it into
/// cargo; otherwise a held Wardstone shatters to turn it aside (counting as a
/// countered hazard), and failing that it hurts the whole party and raises
/// pressure.
pub fn resolve_hazard(state: &mut GameState, data: &GameData, hazard_id: &String) -> (r: TowerResult)
    ensures
        hazard_outcome(*old(state), *final(state), *data, hazard_id@, r),
{
    let h = match data.tower_hazard(hazard_id.as_str()) {
        Some(h) => h,
        None => {
            return result_str("The party crosses an unrecorded tower hazard.");
        },
    };
    let summary = match find_counter(state, h) {
        Some(name) => {
            let mut labels = String::new();
            let mut rewarded = false;
            match state.tower_run.take() {
                Some(mut run) => {
                    run.stats.hazards_countered = sat_add_u32(run.stats.hazards_countered, 1);
                    let ghost rv = amounts_view(h.counter_rewards@);
                    let mut j: usize = 0;
                    let ghost run1 = run;
                    while j < h.counter_rewards.len()
                        invariant
                            j <= h.counter_rewards@.len(),
                            rv == amounts_view(h.counter_rewards@),
                            labels@ == reward_list(*data, rv.take(j as int)),
                            run.map == old(state).tower_run.unwrap().map,
                            run == (TowerRunState { cargo: run.cargo, ..run1 }),
                            stack_view(run.cargo@) == add_rewards_view(stack_view(run1.cargo@), h.counter_rewards@.take(j as int)),
                        decreases h.counter_rewards.len() - j,
                    {
                        assert(rv.take(j as int + 1).drop_last() =~= rv.take(j as int));
                        assert(h.counter_rewards@.take(j as int + 1).drop_last() =~= h.counter_rewards@.take(j as int));
                        assert(rv[j as int] == (h.counter_rewards@[j as int].resource_id@, h.counter_rewards@[j as int].amount));
                        run.add_cargo(h.counter_rewards[j].resource_id.as_str(), h.counter_rewards[j].amount);
                        if j > 0 {
                            labels.append(", ");
                        }
                        let n = signed_text(h.counter_rewards[j].amount as i64);
                        labels.append(n.as_str());
                        labels.append(" ");
                        labels.append(data.resource_name(h.counter_rewards[j].resource_id.as_str()));
                        j += 1;
                    }
                    assert(rv.take(rv.len() as int) =~= rv);
                    assert(h.counter_rewards@.take(j as int) =~= h.counter_rewards@);
                    rewarded = true;
                    state.tower_run = Some(run);
                },
                None => {},
            }
            let mut s = name;
            s.append(" counters ");
            s.append(h.name.as_str());
            s.append(" before it closes on the party.");
            let ghost head = s@;
            if rewarded && h.counter_rewards.len() > 0 {
                s.append(" Recovered ");
                s.append(labels.as_str());
                s.append(".");
            }
            proof {
                if !(rewarded && h.counter_rewards@.len() > 0) {
                    assert(head + Seq::<char>::empty() =~= head);
                }
                let m = first_counter(*old(state), *h, old(state).monster_roster.party_slots@).unwrap();
                assert(rewarded == (old(state).tower_run is Some));
                assert(s@ =~= counter_line(*data, m.name@, *h, old(state).tower_run is Some));
            }
            s
        },
        None => {
            let warded = match &state.tower_run {
                Some(run) => run.has_blessing(TowerBlessing::Wardstone),
                None => false,
            };
            if warded {
                let mut run = state.tower_run.take().unwrap();
                let ghost run0 = run;
                run.remove_blessing(TowerBlessing::Wardstone);
                let ghost removed = run;
                run.stats.hazards_countered = sat_add_u32(run.stats.hazards_countered, 1);
                let mut s = h.name.clone();
                s.append(" closes on the party, but the Wardstone shatters and turns it aside.");
                run.add_event(s.clone());
                proof {
                    assert(run.blessings == removed.blessings);
                    assert forall|c: TowerBlessing| #[trigger] run.spec_has_blessing(c)
                        == (run0.spec_has_blessing(c) && c != TowerBlessing::Wardstone) by {
                        assert(removed.spec_has_blessing(c) == (run0.spec_has_blessing(c) && c != TowerBlessing::Wardstone));
                    }
                }
                state.tower_run = Some(run);
                return result(s);
            }
            let total = hurt_party_members(state, h.damage);
            match state.tower_run.take() {
                Some(mut run) => {
                    let raised = sat_add_u32(run.pressure, h.pressure);
                    run.pressure = if raised < run.pressure_limit { raised } else { run.pressure_limit };
                    state.tower_run = Some(run);
                },
                None => {},
            }
            let mut s = h.name.clone();
            s.append(" catches the party: ");
            let t = signed_text(total);
            s.append(t.as_str());
            s.append(" total damage and +");
            let p = decimal_text(h.pressure as u64);
            s.append(p.as_str());
            s.append(" pressure.");
            s
        },
    };
    match state.tower_run.take() {
        Some(mut run) => {
            run.add_event(summary.clone());
            state.tower_run = Some(run);
        },
        None => {},
    }
    result(summary)
}

/// The approaches of a landmark, starting from `first` when it is one of them.
pub open spec fn rotated(ids: Seq<String>, first: Seq<char>) -> Seq<String> {
    match crate::seqs::first_where(ids, |s: String| s@ == first) {
        Some(k) => ids.subrange(k, ids.len() as int) + ids.subrange(0, k),
        None => ids,
    }
}

pub open spec fn landmark_line(name: Seq<char>) -> Seq<char> {
    "Discovered "@ + name + ". Choose a visible approach or tap LEAVE."@
}

/// What reaching a landmark does, case by case.
pub open spec fn landmark_outcome(old_state: GameState, new_state: GameState, data: GameData, object: TowerMapObject, r: TowerResult) -> bool {
    &&& (new_state == (GameState { tower_run: new_state.tower_run, ..old_state }))
    &&& (match data.spec_special_location(object.special_location_id@) {
        None => new_state == old_state && plain(r, "The party finds an unrecorded tower landmark."@),
        Some(loc) => match old_state.tower_run {
            None => new_state == old_state && plain(r, no_run_line()),
            Some(run) => {
                &&& new_state.tower_run matches Some(r2)
                    && r2 == (TowerRunState { pending_event: r2.pending_event, event_log: r2.event_log, ..run })
                    && r2.event_log@ == run.event_log@.push(r.summary)
                    && (r2.pending_event matches Some(p) && p.special_location_id@ == loc.id@
                        && p.event_ids@ == rotated(loc.event_ids@, object.event_id@))
                &&& plain(r, landmark_line(loc.name@))
            },
        },
    })
}

/// A landmark on the tile: its approaches (the one on the map first) await a choice.
fn resolve_special_location(state: &mut GameState, data: &GameData, object: &TowerMapObject) -> (r: TowerResult)
    ensures
        landmark_outcome(*old(state), *final(state), *data, *object, r),
{
    let loc = match data.tower_special_location(object.special_location_id.as_str()) {
        Some(l) => l,
        None => {
            return result_str("The party finds an unrecorded tower landmark.");
        },
    };
    let mut run = match state.tower_run.take() {
        Some(run) => run,
        None => {
            return result_str("No tower run is active. Tap Town to choose a run.");
        },
    };
    let ids = &loc.event_ids;
    let ghost p = |s: String| s@ == object.event_id@;
    let mut k: usize = 0;
    let mut found = false;
    while k < ids.len() && !found
        invariant
            k <= ids@.len(),
            !found ==> crate::seqs::first_where(ids@.take(k as int), p) is None,
            found ==> k >= 1 && crate::seqs::first_where(ids@, p) == Some(k - 1),
            p == (|s: String| s@ == object.event_id@),
        decreases ids.len() - k,
    {
        proof { crate::seqs::lemma_first_where_step(ids@, p, k as int); }
        if crate::text::same_text(ids[k].as_str(), object.event_id.as_str()) {
            found = true;
        }
        k += 1;
    }
    if !found {
        proof { crate::seqs::lemma_first_where_done(ids@, p); }
    }
    let start: usize = if found { k - 1 } else { 0 };
    let mut event_ids: Vec<String> = Vec::new();
    let n = ids.len();
    let mut j: usize = 0;
    while j < n
        invariant
            n == ids@.len(),
            start <= n,
            start < n || !found,
            j <= n,
            event_ids@ == (ids@.subrange(start as int, n as int) + ids@.subrange(0, start as int)).take(j as int),
        decreases n - j,
    {
        let pos = if j < n - start { start + j } else { j - (n - start) };
        let ghost target = ids@.subrange(start as int, n as int) + ids@.subrange(0, start as int);
        assert(target[j as int] == ids@[pos as int]);
        event_ids.push(ids[pos].clone());
        assert(event_ids@ =~= target.take(j as int + 1));
        j += 1;
    }
    proof {
        let target = ids@.subrange(start as int, n as int) + ids@.subrange(0, start as int);
        assert(target.take(n as int) =~= target);
        if !found {
            assert(target =~= ids@);
        }
    }
    run.pending_event = Some(TowerPendingEvent { special_location_id: loc.id.clone(), event_ids });
    let mut s = String::from_str("Discovered ");
    s.append(loc.name.as_str());
    s.append(". Choose a visible approach or tap LEAVE.");
    run.add_event(s.clone());
    state.tower_run = Some(run);
    result(s)
}

pub open spec fn descend_line(floor: u32, name: Seq<char>) -> Seq<char> {
    "Descended to floor "@ + decimal(floor as nat) + ": "@ + name + ". A fresh map unfolds."@
}

/// What taking the stairs does, case by case.
pub open spec fn descend_outcome(old_state: GameState, new_state: GameState, data: GameData, r: TowerResult) -> bool {
    &&& (run_wf(new_state))
    &&& (r.encounter is None && !r.returned_to_town)
    &&& (new_state.monster_roster == old_state.monster_roster)
    &&& (new_state.resources == old_state.resources)
    &&& (new_state.egg_inventory == old_state.egg_inventory)
    &&& (new_state.combat == old_state.combat)
    &&& (new_state.tower_run is Some == old_state.tower_run is Some)
    &&& (match old_state.tower_run {
        None => new_state == old_state && r.summary@ == no_run_line(),
        Some(run) => {
            let top = spec_max_floor(data);
            let next = if run.current_floor + 1 <= top { run.current_floor + 1 } else { top as int };
            if next == run.current_floor {
                new_state == old_state && r.summary@ == "The stairs end at the tower crown."@
            } else {
                match data.spec_tower_floor(next as u32) {
                    None => new_state == old_state && r.summary@ == "Missing tower floor data for floor "@ + decimal(next as nat) + "."@,
                    Some(fd) => {
                        &&& new_state.tower_progress == spec_floor_reached(old_state.tower_progress, data, next as u32)
                        &&& new_state.tower_run matches Some(r2) && r2.current_floor == next
                            && r2.pressure_limit == fd.pressure_limit
                            && r2.stats.floors_descended == clamp_u32(run.stats.floors_descended + 1)
                            && r2.map.floor == next
                            && r2.cargo == run.cargo && r2.found_eggs == run.found_eggs
                            && r2.event_log@ == run.event_log@.push(r.summary)
                        &&& r.summary@ == descend_line(fd.floor, fd.name@)
                    },
                }
            }
        },
    })
}

/// Taking the stairs leads exactly one floor down, never past the top;
/// the run keeps its cargo and found eggs, counts the descent, takes the
/// new floor's pressure limit, and the party's belongings stay as they were.
pub proof fn law_descend(s0: GameState, s1: GameState, data: GameData, r: TowerResult)
    requires
        descend_outcome(s0, s1, data, r),
        s1 != s0,
        s0.tower_run matches Some(run) ==> run.current_floor <= spec_max_floor(data),
    ensures
        s0.tower_run matches Some(run) && s1.tower_run matches Some(r2) && {
            &&& r2.current_floor == run.current_floor + 1
            &&& r2.current_floor <= spec_max_floor(data)
            &&& r2.cargo == run.cargo
            &&& r2.found_eggs == run.found_eggs
            &&& data.spec_tower_floor(r2.current_floor) matches Some(fd) && r2.pressure_limit == fd.pressure_limit
            &&& r2.stats.floors_descended == clamp_u32(run.stats.floors_descended + 1)
            &&& s1.tower_progress.best_floor >= r2.current_floor
        },
        s1.monster_roster == s0.monster_roster,
        s1.resources == s0.resources,
        s1.egg_inventory == s0.egg_inventory,
{
    let run = s0.tower_run.unwrap();
    let top = spec_max_floor(data);
    let next = if run.current_floor + 1 <= top { run.current_floor + 1 } else { top as int };
    law_floor_reached(s0.tower_progress, data, next as u32);
}

/// Takes the stairs: the next floor (never past the top) counts as reached
/// and the run continues on a freshly drawn map.
fn advance_floor(state: &mut GameState, data: &GameData) -> (r: TowerResult)
    requires
        run_wf(*old(state)),
    ensures
        descend_outcome(*old(state), *final(state), *data, r),
{
    let (current, goal, steps) = match &state.tower_run {
        Some(run) => (run.current_floor, run.goal, run.rooms_explored),
        None => {
            return result_str("No tower run is active. Tap Town to choose a run.");
        },
    };
    let top = max_floor(data);
    let next: u32 = if (current as u64) + 1 <= top as u64 { current + 1 } else { top };
    if next == current {
        return result_str("The stairs end at the tower crown.");
    }
    let fd = match data.tower_floor(next) {
        Some(fd) => fd,
        None => {
            let mut s = String::from_str("Missing tower floor data for floor ");
            let n = decimal_text(next as u64);
            s.append(n.as_str());
            s.append(".");
            return result(s);
        },
    };
    record_floor_reached(state, data, next);
    let seed = tower_seed(state, next, goal, steps);
    let map = generate_map(state, data, next, goal, seed);
    let mut run = state.tower_run.take().unwrap();
    run.current_floor = next;
    run.stats.floors_descended = sat_add_u32(run.stats.floors_descended, 1);
    run.pressure_limit = fd.pressure_limit;
    run.map = map;
    let mut s = String::from_str("Descended to floor ");
    let n = decimal_text(fd.floor as u64);
    s.append(n.as_str());
    s.append(": ");
    s.append(fd.name.as_str());
    s.append(". A fresh map unfolds.");
    run.add_event(s.clone());
    state.tower_run = Some(run);
    result(s)
}

/// What the party meets on the tile it has reached.
/// The exit of a guardian's floor stays sealed until the guardian falls.
pub open spec fn exit_sealed(s: GameState, data: GameData) -> bool {
    s.tower_run matches Some(run) && !run.boss_defeated
        && (data.spec_tower_floor(run.current_floor) matches Some(f) && f.is_boss_floor)
}

pub open spec fn sealed_line() -> Seq<char> {
    "The crown threshold is sealed until the floor's guardian falls."@
}

/// A sealed exit stays where it stood and the party stays in the tower.
pub open spec fn exit_resealed(s0: GameState, s1: GameState, object: TowerMapObject, r: TowerResult) -> bool {
    let run = s0.tower_run.unwrap();
    &&& s1 == (GameState { tower_run: s1.tower_run, ..s0 })
    &&& s1.tower_run matches Some(r2) && r2 == (TowerRunState { map: r2.map, ..run })
        && r2.map == (TowerMapState { objects: r2.map.objects, ..run.map })
        && r2.map.objects@ == run.map.objects@.push(object)
    &&& plain(r, sealed_line())
}

/// Whether the run stands on a guardian's floor whose guardian still lives.
fn exit_is_sealed(state: &GameState, data: &GameData) -> (r: bool)
    ensures
        r == exit_sealed(*state, *data),
{
    match &state.tower_run {
        None => false,
        Some(run) => {
            if run.boss_defeated {
                return false;
            }
            match data.tower_floor(run.current_floor) {
                Some(f) => f.is_boss_floor,
                None => false,
            }
        },
    }
}

/// Puts a sealed exit back on its tile.
fn reseal_exit(state: &mut GameState, object: TowerMapObject) -> (r: TowerResult)
    requires
        run_wf(*old(state)),
        old(state).tower_run is Some,
    ensures
        run_wf(*final(state)),
        exit_resealed(*old(state), *final(state), object, r),
{
    let mut run = state.tower_run.take().unwrap();
    run.map.objects.push(object);
    state.tower_run = Some(run);
    result_str("The crown threshold is sealed until the floor's guardian falls.")
}

/// What meeting an object on the map does (see `resolve_map_object`).
pub open spec fn object_met(s0: GameState, s1: GameState, data: GameData, object: TowerMapObject, r: TowerResult) -> bool {
    &&& (run_wf(s1))
    &&& (s1.combat == s0.combat)
    &&& ((object.kind == TowerMapObjectKind::Loot || object.kind == TowerMapObjectKind::SecretCache) ==> match s0.tower_run {
        None => s1 == s0 && plain(r, no_run_line()),
        Some(run) => {
            let amount = cache_amount(run, data, object.amount);
            &&& s1 == (GameState { tower_run: s1.tower_run, ..s0 })
            &&& s1.tower_run matches Some(r2)
                && r2 == (TowerRunState { cargo: r2.cargo, event_log: r2.event_log, ..run })
                && r2.spec_cargo_for(object.resource_id@) == clamp_i32(run.spec_cargo_for(object.resource_id@) + amount)
                && (forall|k: Seq<char>| k != object.resource_id@ ==> #[trigger] r2.spec_cargo_for(k) == run.spec_cargo_for(k))
            &&& plain(r, cache_line(data, amount, object.resource_id@))
        },
    })
    &&& (object.kind == TowerMapObjectKind::Egg ==> match s0.tower_run {
        None => s1 == s0 && plain(r, no_run_line()),
        Some(run) => {
            &&& s1 == (GameState { tower_run: s1.tower_run, ..s0 })
            &&& s1.tower_run matches Some(r2)
                && r2 == (TowerRunState { found_eggs: r2.found_eggs, event_log: r2.event_log, ..run })
                && r2.found_eggs@.len() == run.found_eggs@.len() + 1
                && r2.found_eggs@.drop_last() =~= run.found_eggs@
                && r2.found_eggs@.last().egg_type_id@ == object.egg_type_id@
                && r2.found_eggs@.last().hatch_days == nest_days(run, data, object.hatch_days)
                && r2.found_eggs@.last().origin_floor == run.current_floor
                && r2.found_eggs@.last().palette_seed == object.palette_seed
            &&& plain(r, nest_line(egg_name(data, object.egg_type_id@)))
        },
    })
    &&& ((object.kind == TowerMapObjectKind::Enemy || object.kind == TowerMapObjectKind::Boss) ==> {
        &&& s1 == (GameState { tower_run: s1.tower_run, ..s0 })
        &&& r.summary@ == blocker_line(object.kind == TowerMapObjectKind::Boss)
        &&& r.encounter matches Some(e) && e.is_boss == (object.kind == TowerMapObjectKind::Boss)
    })
    &&& (object.kind == TowerMapObjectKind::Hazard ==> hazard_outcome(s0, s1, data, object.hazard_id@, r))
    &&& (object.kind == TowerMapObjectKind::SpecialLocation ==> landmark_outcome(s0, s1, data, object, r))
    &&& (object.kind == TowerMapObjectKind::Stairs ==> descend_outcome(s0, s1, data, r))
    &&& (object.kind == TowerMapObjectKind::Exit ==> if exit_sealed(s0, data) {
        exit_resealed(s0, s1, object, r)
    } else {
        return_outcome(s0, s1, data, r)
    })
}

pub fn resolve_map_object(state: &mut GameState, data: &GameData, object: TowerMapObject) -> (r: TowerResult)
    requires
        run_wf(*old(state)),
    ensures
        object_met(*old(state), *final(state), *data, object, r),
{
    let r = match object.kind {
        TowerMapObjectKind::Loot | TowerMapObjectKind::SecretCache => take_cache(state, data, &object),
        TowerMapObjectKind::Egg => take_egg(state, data, &object),
        TowerMapObjectKind::Enemy | TowerMapObjectKind::Boss => meet_enemy(state, &object),
        TowerMapObjectKind::Hazard => resolve_hazard(state, data, &object.hazard_id),
        TowerMapObjectKind::SpecialLocation => resolve_special_location(state, data, &object),
        TowerMapObjectKind::Stairs => advance_floor(state, data),
        TowerMapObjectKind::Exit => if exit_is_sealed(state, data) {
            reseal_exit(state, object)
        } else {
            return_to_town(state, data)
        },
    };
    proof {
        if object.kind == TowerMapObjectKind::Loot || object.kind == TowerMapObjectKind::SecretCache {
            match old(state).tower_run {
                Some(run) => {
                    let r2 = state.tower_run.unwrap();
                    assert(forall|k: Seq<char>| k != object.resource_id@ ==> #[trigger] r2.spec_cargo_for(k) == run.spec_cargo_for(k));
                },
                None => {},
            }
        }
    }
    r
}

/// Adds the contract's completion, if it has just been met, to an outcome.
/// What refreshing the run's contract after an outcome does: the contract is
/// paid, once, when it falls due, and its line joins the summary.
pub open spec fn contract_refreshed(outcome: TowerResult, s0: GameState, s1: GameState, data: GameData, r: TowerResult) -> bool {
    &&& s1 == (GameState { tower_run: s1.tower_run, ..s0 })
    &&& s1.tower_run is Some == s0.tower_run is Some
    &&& s1.tower_run matches Some(r2) ==> r2 == (TowerRunState {
        contract_id: r2.contract_id,
        contract_complete: r2.contract_complete,
        cargo: r2.cargo,
        event_log: r2.event_log,
        ..s0.tower_run.unwrap()
    })
    &&& r.encounter == outcome.encounter
    &&& r.returned_to_town == outcome.returned_to_town
    &&& match s0.tower_run {
        None => r.summary == outcome.summary,
        Some(run) => {
            let r2 = s1.tower_run.unwrap();
            &&& r2.contract_id@ == effective_contract_id(run)
            &&& if contract_due(run, data) {
                let c = data.spec_tower_contract(effective_contract_id(run)).unwrap();
                &&& r2.contract_complete
                &&& stack_view(r2.cargo@) == add_rewards_view(stack_view(run.cargo@), c.rewards@)
                &&& r2.event_log@ == run.event_log@.push(r2.event_log@.last())
                &&& r2.event_log@.last()@ == contract_line(data, c)
                &&& r.summary@ == outcome.summary@ + " "@ + contract_line(data, c)
            } else {
                &&& r2.contract_complete == run.contract_complete
                &&& r2.cargo == run.cargo
                &&& r2.event_log == run.event_log
                &&& r.summary == outcome.summary
            }
        },
    }
}

pub fn with_contract_refresh(outcome: TowerResult, state: &mut GameState, data: &GameData) -> (r: TowerResult)
    ensures
        contract_refreshed(outcome, *old(state), *final(state), *data, r),
{
    let mut outcome = outcome;
    match state.tower_run.take() {
        Some(mut run) => {
            match refresh_contract(&mut run, data) {
                Some(line) => {
                    outcome.summary.append(" ");
                    outcome.summary.append(line.as_str());
                },
                None => {},
            }
            state.tower_run = Some(run);
        },
        None => {},
    }
    outcome
}

/// How often a step raises pressure: every third step in an echoing rain,
/// every eighth under a quiet veil, otherwise every fourth; Quiet Steps
/// doubles the interval.
pub open spec fn tick_every(run: TowerRunState, data: GameData) -> u32 {
    let base: u32 = match spec_anomaly_effect(run, data) {
        Some(TowerAnomalyEffect::EchoingRain) => 3,
        Some(TowerAnomalyEffect::QuietVeil) => 8,
        _ => 4,
    };
    if run.spec_has_blessing(TowerBlessing::QuietSteps) { (base * 2) as u32 } else { base }
}

/// The run one step further: the party on `(x, y)`, the step counted, the camp
/// wait shortened, and pressure raised on the anomaly's beat.
pub open spec fn stepped(run: TowerRunState, data: GameData, x: u32, y: u32) -> TowerRunState {
    let steps = clamp_u32(run.rooms_explored + 1) as u32;
    let pressure = if steps % tick_every(run, data) == 0 {
        min_int(clamp_u32(run.pressure + 1), run.pressure_limit as int) as u32
    } else {
        run.pressure
    };
    TowerRunState {
        rooms_explored: steps,
        camp_cooldown: if run.camp_cooldown > 0 { (run.camp_cooldown - 1) as u32 } else { 0 },
        pressure,
        map: TowerMapState { player_x: x, player_y: y, ..run.map },
        ..run
    }
}

/// Each step moves the party onto the chosen tile, counts one more step,
/// brings camping one step closer, and raises pressure by one on every
/// fourth step (third in an echoing rain, eighth under a quiet veil, twice
/// as far apart with Quiet Steps), never past the limit and never down.
pub proof fn law_step_counts(run: TowerRunState, data: GameData, x: u32, y: u32)
    requires
        run.rooms_explored < u32::MAX,
        run.pressure <= run.pressure_limit,
    ensures
        ({
            let s = stepped(run, data, x, y);
            &&& s.map.player_x == x && s.map.player_y == y
            &&& s.rooms_explored == run.rooms_explored + 1
            &&& s.camp_cooldown == if run.camp_cooldown > 0 { run.camp_cooldown - 1 } else { 0 }
            &&& run.pressure <= s.pressure <= run.pressure_limit
            &&& s.pressure <= run.pressure + 1
            &&& (s.rooms_explored % tick_every(run, data) != 0 ==> s.pressure == run.pressure)
            &&& (s.rooms_explored % tick_every(run, data) == 0 && run.pressure < run.pressure_limit
                ==> s.pressure == run.pressure + 1)
            &&& s.map.tiles == run.map.tiles && s.map.objects == run.map.objects
        }),
        spec_anomaly_effect(run, data) is None && !run.spec_has_blessing(TowerBlessing::QuietSteps) ==> tick_every(run, data) == 4,
        spec_anomaly_effect(run, data) == Some(TowerAnomalyEffect::EchoingRain) && !run.spec_has_blessing(TowerBlessing::QuietSteps)
            ==> tick_every(run, data) == 3,
        spec_anomaly_effect(run, data) == Some(TowerAnomalyEffect::QuietVeil) && !run.spec_has_blessing(TowerBlessing::QuietSteps)
            ==> tick_every(run, data) == 8,
        spec_anomaly_effect(run, data) is None && run.spec_has_blessing(TowerBlessing::QuietSteps) ==> tick_every(run, data) == 8,
{
}

pub open spec fn wall_line() -> Seq<char> {
    "A wall blocks the way. Tap a highlighted adjacent tile."@
}

pub open spec fn awake_line() -> Seq<char> {
    "The tower is fully awake. Tap CAMP to recover or RETREAT with the cargo."@
}

/// The tile one step from the party, when it is on the grid.
pub open spec fn step_target(map: TowerMapState, dx: i32, dy: i32) -> Option<(u32, u32)> {
    let x = map.player_x + dx;
    let y = map.player_y + dy;
    if x < 0 || y < 0 || x > u32::MAX || y > u32::MAX { None } else { Some((x as u32, y as u32)) }
}

/// The warning added to a quiet step once the tower is within two points of
/// fully awake.
pub open spec fn pressure_warning_line(run: TowerRunState) -> Seq<char> {
    if run.pressure + 2 >= run.pressure_limit {
        " Tower pressure is "@ + decimal(run.pressure as nat) + "/"@ + decimal(run.pressure_limit as nat) + "."@
    } else {
        Seq::empty()
    }
}

fn pressure_warning(run: &TowerRunState) -> (s: String)
    ensures
        s@ == pressure_warning_line(*run),
{
    if run.pressure as u64 + 2 >= run.pressure_limit as u64 {
        let mut s = String::from_str(" Tower pressure is ");
        let p = decimal_text(run.pressure as u64);
        s.append(p.as_str());
        s.append("/");
        let l = decimal_text(run.pressure_limit as u64);
        s.append(l.as_str());
        s.append(".");
        s
    } else {
        String::new()
    }
}

pub open spec fn no_map_line() -> Seq<char> {
    "No dungeon map is available. Tap Return to Town and re-enter the tower."@
}

/// What the first part of a move does to the run (see `begin_step`).
pub open spec fn step_begun(run0: TowerRunState, run1: TowerRunState, data: GameData, dx: i32, dy: i32, r: Result<Option<TowerMapObject>, &'static str>) -> bool {
    &&& (run1.map.wf())
    &&& (run0.pressure >= run0.pressure_limit ==> run1 == run0 && (r matches Err(m) && m@ == awake_line()))
    &&& (run0.pressure < run0.pressure_limit && run0.map.tiles@.len() == 0
        ==> run1 == run0 && (r matches Err(m) && m@ == no_map_line()))
    &&& (run0.pressure < run0.pressure_limit && run0.map.tiles@.len() > 0 ==> match step_target(run0.map, dx, dy) {
        Some(t) => if run0.map.spec_passable(t.0, t.1) {
            let s = stepped(run0, data, t.0, t.1);
            let objs = run0.map.objects@;
            &&& run1.map.visibility@ == spec_revealed(s.map)
            &&& match first_object_at(objs, t.0, t.1) {
                Some(i) => r == Ok::<Option<TowerMapObject>, &'static str>(Some(objs[i])) && run1.map.objects@ == objs.remove(i),
                None => r == Ok::<Option<TowerMapObject>, &'static str>(None) && run1.map.objects == run0.map.objects,
            }
            &&& run1 == (TowerRunState {
                map: TowerMapState { visibility: run1.map.visibility, objects: run1.map.objects, ..s.map },
                ..s
            })
        } else {
            run1 == run0 && (r matches Err(m) && m@ == wall_line())
        },
        None => run1 == run0 && (r matches Err(m) && m@ == wall_line()),
    })
}

/// The first part of a move: a fully awake tower, a missing map or a wall
/// refuses it; otherwise the party steps onto the tile (see `stepped`), the
/// fog lifts around it and the tile's first object is taken off the map to
/// be met.
pub fn begin_step(run: &mut TowerRunState, data: &GameData, dx: i32, dy: i32) -> (r: Result<Option<TowerMapObject>, &'static str>)
    requires
        old(run).map.wf(),
    ensures
        step_begun(*old(run), *final(run), *data, dx, dy, r),
{
    if run.pressure >= run.pressure_limit {
        return Err("The tower is fully awake. Tap CAMP to recover or RETREAT with the cargo.");
    }
    if run.map.is_empty() {
        return Err("No dungeon map is available. Tap Return to Town and re-enter the tower.");
    }
    let nx: i64 = run.map.player_x as i64 + dx as i64;
    let ny: i64 = run.map.player_y as i64 + dy as i64;
    if nx < 0 || ny < 0 || nx > u32::MAX as i64 || ny > u32::MAX as i64 || !run.map.is_passable(nx as u32, ny as u32) {
        return Err("A wall blocks the way. Tap a highlighted adjacent tile.");
    }
    let effect = anomaly_effect(run, data);
    let base: u32 = match effect {
        Some(TowerAnomalyEffect::EchoingRain) => 3,
        Some(TowerAnomalyEffect::QuietVeil) => 8,
        _ => 4,
    };
    let every: u32 = if run.has_blessing(TowerBlessing::QuietSteps) { base * 2 } else { base };
    run.map.player_x = nx as u32;
    run.map.player_y = ny as u32;
    run.rooms_explored = sat_add_u32(run.rooms_explored, 1);
    run.camp_cooldown = if run.camp_cooldown > 0 { run.camp_cooldown - 1 } else { 0 };
    if run.rooms_explored % every == 0 {
        let raised = sat_add_u32(run.pressure, 1);
        run.pressure = if raised < run.pressure_limit { raised } else { run.pressure_limit };
    }
    reveal_current_area(&mut run.map);
    match run.map.object_index_at(run.map.player_x, run.map.player_y) {
        Some(i) => Ok(Some(run.map.objects.remove(i))),
        None => Ok(None),
    }
}

/// Moves the party one tile. Walls and a fully awake tower stop it; otherwise
/// the step is counted, pressure rises on the floor's beat, the fog lifts,
/// whatever lay on the tile is met, pressure stages are announced, wandering
/// enemies close in, and a contract just met pays out.
/// The part of a step that follows the party onto its tile, given as the
/// states and results in between: things in sight enter the guide, the
/// pressure stage is brought up to date, the first wandering enemy moves
/// when it hunts on this step, the tile's object is met (or the party
/// simply advances, with a warning near the top of the pressure), the
/// pressure note is added, and a wandering enemy that caught the party
/// starts a fight when nothing else did.
pub open spec fn step_chain(
    s2: GameState,
    s3: GameState,
    s4: GameState,
    s5: GameState,
    s6: GameState,
    data: GameData,
    object: Option<TowerMapObject>,
    note: Option<String>,
    adv: Option<WanderingAdvance>,
    raw: TowerResult,
    out: TowerResult,
) -> bool {
    let run2 = s2.tower_run.unwrap();
    let hunts = spec_anomaly_effect(run2, data) == Some(TowerAnomalyEffect::HunterTracks) || run2.rooms_explored % 2 == 0;
    let noted = raw.summary@ + match note { Some(n) => " "@ + n@, None => Seq::empty() };
    &&& discoveries_recorded(s2, s3, data, object)
    &&& pressure_refreshed(s3, s4, data, note)
    &&& s4.tower_run is Some
    &&& if hunts {
        &&& s5 == (GameState { tower_run: s5.tower_run, ..s4 })
        &&& s5.tower_run matches Some(r5) && r5 == (TowerRunState { map: r5.map, ..s4.tower_run.unwrap() })
        &&& hunter_advanced(s4.tower_run.unwrap().map, s5.tower_run.unwrap().map, adv)
    } else {
        s5 == s4 && adv is None
    }
    &&& match object {
        None => {
            &&& s6 == s5
            &&& raw.summary@ == "The party advances through the dungeon."@ + pressure_warning_line(s5.tower_run.unwrap())
            &&& raw.encounter is None
            &&& !raw.returned_to_town
        },
        Some(o) => object_met(s5, s6, data, o, raw),
    }
    &&& out.returned_to_town == raw.returned_to_town
    &&& match adv {
        Some(WanderingAdvance::Encounter(e)) if raw.encounter is None && !raw.returned_to_town => {
            &&& out.summary@ == noted + " A wandering "@ + enemy_name(data, e.enemy_id@) + " catches up with the party. Combat starts."@
            &&& out.encounter == Some(TowerEncounterRequest {
                floor: s5.tower_run.unwrap().current_floor,
                is_boss: false,
                enemy_id: Some(e.enemy_id),
            })
        },
        _ => out.summary@ == noted && out.encounter == raw.encounter,
    }
}

/// The part of a step that follows the party onto its tile (see `step_chain`).
pub open spec fn step_followed(s2: GameState, s6: GameState, data: GameData, object: Option<TowerMapObject>, out: TowerResult) -> bool {
    exists|s3: GameState, s4: GameState, s5: GameState, note: Option<String>, adv: Option<WanderingAdvance>, raw: TowerResult|
        #[trigger] step_chain(s2, s3, s4, s5, s6, data, object, note, adv, raw, out)
}

/// A whole step onto a walkable tile: the map made sure of, the party moved
/// (see `step_begun`), what follows (see `step_chain`) and the contract refresh.
pub open spec fn move_chain(
    s0: GameState,
    s1: GameState,
    s2: GameState,
    object: Option<TowerMapObject>,
    s6: GameState,
    out: TowerResult,
    s7: GameState,
    data: GameData,
    dx: i32,
    dy: i32,
    r: TowerResult,
) -> bool {
    &&& map_ensured(s0, s1, data)
    &&& s1.tower_run is Some
    &&& s2 == (GameState { tower_run: s2.tower_run, ..s1 })
    &&& s2.tower_run is Some
    &&& step_begun(s1.tower_run.unwrap(), s2.tower_run.unwrap(), data, dx, dy, Ok::<Option<TowerMapObject>, &'static str>(object))
    &&& step_followed(s2, s6, data, object, out)
    &&& contract_refreshed(out, s6, s7, data, r)
}

/// Everything a step does after the party has moved onto its tile.
fn follow_step(state: &mut GameState, data: &GameData, object: Option<TowerMapObject>) -> (r: TowerResult)
    requires
        run_wf(*old(state)),
        old(state).tower_run is Some,
    ensures
        run_wf(*final(state)),
        final(state).combat == old(state).combat,
        step_followed(*old(state), *final(state), *data, object, r),
{
    let ghost s2 = *state;
    let run = state.tower_run.as_ref().unwrap();
    let effect = anomaly_effect(run, data);
    let hunters = effect == Some(TowerAnomalyEffect::HunterTracks) || run.rooms_explored % 2 == 0;
    match &object {
        Some(o) => record_visible_discoveries(state, data, Some(o)),
        None => record_visible_discoveries(state, data, None),
    }
    let ghost s3 = *state;
    let pressure_note = refresh_pressure(state, data);
    let ghost s4 = *state;
    let mut caught: Option<String> = None;
    let mut adv: Option<WanderingAdvance> = None;
    if hunters {
        let mut run = state.tower_run.take().unwrap();
        adv = advance_wandering_enemy(&mut run.map);
        match &adv {
            Some(WanderingAdvance::Encounter(e)) => {
                caught = Some(e.enemy_id.clone());
            },
            _ => {},
        }
        state.tower_run = Some(run);
    }
    let ghost s5 = *state;
    let floor = state.tower_run.as_ref().unwrap().current_floor;
    let raw = match object {
        None => {
            let mut s = String::from_str("The party advances through the dungeon.");
            let w = pressure_warning(state.tower_run.as_ref().unwrap());
            s.append(w.as_str());
            result(s)
        },
        Some(o) => resolve_map_object(state, data, o),
    };
    let ghost raw_v = raw;
    let mut outcome = raw;
    match &pressure_note {
        Some(note) => {
            outcome.summary.append(" ");
            outcome.summary.append(note.as_str());
        },
        None => {},
    }
    let ghost noted = raw_v.summary@ + match pressure_note { Some(n) => " "@ + n@, None => Seq::<char>::empty() };
    proof {
        assert(outcome.summary@ =~= noted);
    }
    match caught {
        Some(id) => {
            if outcome.encounter.is_none() && !outcome.returned_to_town {
                outcome.summary.append(" A wandering ");
                match data.enemy(id.as_str()) {
                    Some(e) => outcome.summary.append(e.name.as_str()),
                    None => outcome.summary.append(id.as_str()),
                }
                outcome.summary.append(" catches up with the party. Combat starts.");
                proof {
                    assert(outcome.summary@ =~= noted + " A wandering "@ + enemy_name(*data, id@) + " catches up with the party. Combat starts."@);
                }
                outcome.encounter = Some(TowerEncounterRequest { floor, is_boss: false, enemy_id: Some(id) });
            }
        },
        None => {},
    }
    proof {
        assert(step_chain(s2, s3, s4, s5, *state, *data, object, pressure_note, adv, raw_v, outcome));
    }
    outcome
}

/// What moving the party by `(dx, dy)` does (see `move_party`).
pub open spec fn party_moved(s0: GameState, s1: GameState, data: GameData, dx: i32, dy: i32, r: TowerResult) -> bool {
    &&& (run_wf(s1))
    &&& (s0.tower_run is None ==> s1 == s0 && plain(r, no_run_line()))
    &&& (s0.tower_run is Some && dx == 0 && dy == 0 ==> s1 == s0 && plain(r, "The party waits and listens."@))
    &&& (s1.combat == s0.combat)
    &&& (match s0.tower_run {
        Some(run) => (!(dx == 0 && dy == 0) && run.map.tiles@.len() > 0) ==> {
            let target = step_target(run.map, dx, dy);
            let kept = (s1.tower_run matches Some(r2) && r2.pressure == run.pressure
                && r2.rooms_explored == run.rooms_explored && r2.map.player_x == run.map.player_x
                && r2.map.player_y == run.map.player_y);
            if run.pressure >= run.pressure_limit {
                plain(r, awake_line()) && kept
            } else if target is None || !run.map.spec_passable(target.unwrap().0, target.unwrap().1) {
                plain(r, wall_line()) && kept
            } else {
                exists|m1: GameState, m2: GameState, object: Option<TowerMapObject>, m6: GameState, out: TowerResult|
                    #[trigger] move_chain(s0, m1, m2, object, m6, out, s1, data, dx, dy, r)
            }
        },
        None => true,
    })
}

pub fn move_party(state: &mut GameState, data: &GameData, dx: i32, dy: i32) -> (r: TowerResult)
    requires
        run_wf(*old(state)),
    ensures
        party_moved(*old(state), *final(state), *data, dx, dy, r),
{
    if state.tower_run.is_none() {
        return result_str("No tower run is active. Tap Town to choose a run.");
    }
    if dx == 0 && dy == 0 {
        return result_str("The party waits and listens.");
    }
    ensure_map(state, data);
    let ghost s1 = *state;
    let mut run = state.tower_run.take().unwrap();
    let object = match begin_step(&mut run, data, dx, dy) {
        Err(line) => {
            state.tower_run = Some(run);
            return result_str(line);
        },
        Ok(o) => o,
    };
    state.tower_run = Some(run);
    let ghost s2 = *state;
    let outcome = follow_step(state, data, object);
    let ghost s6 = *state;
    let r = with_contract_refresh(outcome, state, data);
    proof {
        assert(move_chain(*old(state), s1, s2, object, s6, outcome, *state, *data, dx, dy, r));
    }
    r
}

/// Takes one step toward the most attractive reachable tile for the run's goal.
pub fn explore_party(state: &mut GameState, data: &GameData) -> (r: TowerResult)
    requires
        run_wf(*old(state)),
    ensures
        run_wf(*final(state)),
        old(state).tower_run is None ==> *final(state) == *old(state)
            && plain(r, "No unexplored route is reachable. Tap RETREAT or choose a visible room."@),
        final(state).combat == old(state).combat,
        old(state).tower_run is Some ==> exists|s1: GameState| #[trigger] map_ensured(*old(state), s1, *data) && {
            let run = s1.tower_run.unwrap();
            match explore_step(run.map, run.goal) {
                None => *final(state) == s1
                    && plain(r, "No unexplored route is reachable. Tap RETREAT or choose a visible room."@),
                Some(step) => party_moved(s1, *final(state), *data, step.0, step.1, r),
            }
        },
{
    ensure_map(state, data);
    let ghost s1 = *state;
    let direction = match &state.tower_run {
        Some(run) => crate::engine::tower_engine::navigation::explore_direction(&run.map, run.goal),
        None => None,
    };
    match direction {
        Some((dx, dy)) => {
            let r = move_party(state, data, dx, dy);
            proof {
                assert(party_moved(s1, *state, *data, dx, dy, r));
            }
            r
        },
        None => result_str("No unexplored route is reachable. Tap RETREAT or choose a visible room."),
    }
}

} // verus!
