//! Landmarks: choosing an approach, paying its cargo cost, and what it yields.

use vstd::prelude::*;
use crate::arith::{clamp_i32, clamp_u32, max_int, min_int, sat_add_u32};
use crate::data::game_data::GameData;
use crate::data::schema::{Element, PassiveSkill, TowerEventDefinition, ResourceAmount, TowerSpecialLocationDefinition};
use crate::engine::combat_support::{add_rewards_view, reward_entry, reward_list};
use crate::engine::tower_engine::map_gen::fog_grid;
use crate::state::resources::stack_view;
use crate::engine::tower_engine::{TowerEncounterRequest, TowerResult, plain, result, result_str};
use crate::engine::tower_engine::camp::{heal_party, heal_party_members};
use crate::engine::tower_engine::contracts::amounts_view;
use crate::engine::tower_engine::movement::{contract_refreshed, no_run_line, with_contract_refresh};
use crate::engine::tower_engine::runs::run_wf;
use crate::engine::tower_engine::pressure::enemy_name;
use crate::state::game::GameState;
use crate::state::roster::MonsterRoster;
use crate::state::records::{holds_name, name_list, with_name};
use crate::state::tower_map::{TowerMapState, TowerTileKind, TowerTileVisibility};
use crate::state::tower_run::{spent_view, TowerFoundEgg, TowerRunState};
use crate::text::{decimal_text, signed_decimal, signed_text};

verus! {

/// Whether the formation slot holds a monster that satisfies `p`.
pub open spec fn slot_has(state: GameState, slot: Option<u64>, p: spec_fn(crate::state::roster::MonsterInstance) -> bool) -> bool {
    match slot {
        Some(id) => match state.monster_roster.spec_monster(id) {
            Some(m) => p(m),
            None => false,
        },
        None => false,
    }
}

/// Whether some formation monster satisfies `p`.
pub open spec fn party_has(state: GameState, slots: Seq<Option<u64>>, p: spec_fn(crate::state::roster::MonsterInstance) -> bool) -> bool {
    exists|i: int| 0 <= i < slots.len() && slot_has(state, #[trigger] slots[i], p)
}

/// What the party lacks for an approach: a required passive, or a required element.
pub open spec fn missing_requirement(state: GameState, e: TowerEventDefinition) -> Option<Seq<char>> {
    let slots = state.monster_roster.party_slots@;
    match e.required_passive {
        Some(passive) if !party_has(state, slots, |m: crate::state::roster::MonsterInstance| m.passive == passive) => Some(passive.spec_label()),
        _ => match e.required_element {
            Some(element) if !party_has(state, slots, |m: crate::state::roster::MonsterInstance| m.element == element) =>
                Some(element.spec_label() + " affinity"@),
            _ => None,
        },
    }
}

fn party_has_passive(state: &GameState, passive: PassiveSkill) -> (r: bool)
    ensures
        r == party_has(*state, state.monster_roster.party_slots@, |m: crate::state::roster::MonsterInstance| m.passive == passive),
{
    let ghost p = |m: crate::state::roster::MonsterInstance| m.passive == passive;
    let slots = &state.monster_roster.party_slots;
    let mut i: usize = 0;
    while i < slots.len()
        invariant
            i <= slots@.len(),
            slots@ == state.monster_roster.party_slots@,
            forall|j: int| 0 <= j < i ==> !slot_has(*state, #[trigger] slots@[j], p),
            p == (|m: crate::state::roster::MonsterInstance| m.passive == passive),
        decreases slots.len() - i,
    {
        match slots[i] {
            Some(id) => match state.monster_roster.monster(id) {
                Some(m) => {
                    if m.passive == passive {
                        return true;
                    }
                },
                None => {},
            },
            None => {},
        }
        i += 1;
    }
    false
}

fn party_has_element(state: &GameState, element: Element) -> (r: bool)
    ensures
        r == party_has(*state, state.monster_roster.party_slots@, |m: crate::state::roster::MonsterInstance| m.element == element),
{
    let ghost p = |m: crate::state::roster::MonsterInstance| m.element == element;
    let slots = &state.monster_roster.party_slots;
    let mut i: usize = 0;
    while i < slots.len()
        invariant
            i <= slots@.len(),
            slots@ == state.monster_roster.party_slots@,
            forall|j: int| 0 <= j < i ==> !slot_has(*state, #[trigger] slots@[j], p),
            p == (|m: crate::state::roster::MonsterInstance| m.element == element),
        decreases slots.len() - i,
    {
        match slots[i] {
            Some(id) => match state.monster_roster.monster(id) {
                Some(m) => {
                    if m.element == element {
                        return true;
                    }
                },
                None => {},
            },
            None => {},
        }
        i += 1;
    }
    false
}

fn requirement_missing(state: &GameState, e: &TowerEventDefinition) -> (r: Option<String>)
    ensures
        match missing_requirement(*state, *e) {
            Some(text) => r matches Some(s) && s@ == text,
            None => r is None,
        },
{
    match e.required_passive {
        Some(passive) => {
            if !party_has_passive(state, passive) {
                return Some(String::from_str(passive.label()));
            }
        },
        None => {},
    }
    match e.required_element {
        Some(element) => {
            if !party_has_element(state, element) {
                let mut s = String::from_str(element.label());
                s.append(" affinity");
                return Some(s);
            }
        },
        None => {},
    }
    None
}

/// The cost entries the hold cannot cover, as (shortfall, resource id).
pub open spec fn shortfalls(run: TowerRunState, costs: Seq<ResourceAmount>) -> Seq<(Seq<char>, i32)>
    decreases costs.len(),
{
    if costs.len() == 0 {
        Seq::empty()
    } else {
        let rest = shortfalls(run, costs.drop_last());
        let c = costs.last();
        let missing = c.amount - run.spec_cargo_for(c.resource_id@);
        if missing > 0 { rest.push((c.resource_id@, clamp_i32(missing) as i32)) } else { rest }
    }
}

pub open spec fn shortfall_line(data: GameData, run: TowerRunState, e: TowerEventDefinition) -> Seq<char> {
    e.name@ + " needs "@ + reward_list(data, shortfalls(run, e.cargo_costs@))
        + " more in expedition cargo. Choose another approach or tap LEAVE."@
}

fn shortfall_text(run: &TowerRunState, data: &GameData, e: &TowerEventDefinition) -> (s: String)
    ensures
        s@ == shortfall_line(*data, *run, *e),
{
    let mut labels = String::new();
    let mut any = false;
    let mut i: usize = 0;
    while i < e.cargo_costs.len()
        invariant
            i <= e.cargo_costs@.len(),
            labels@ == reward_list(*data, shortfalls(*run, e.cargo_costs@.take(i as int))),
            any == (shortfalls(*run, e.cargo_costs@.take(i as int)).len() > 0),
        decreases e.cargo_costs.len() - i,
    {
        assert(e.cargo_costs@.take(i as int + 1).drop_last() =~= e.cargo_costs@.take(i as int));
        let c = &e.cargo_costs[i];
        let missing: i64 = c.amount as i64 - run.cargo_amount_for(c.resource_id.as_str()) as i64;
        let ghost prev = shortfalls(*run, e.cargo_costs@.take(i as int));
        if missing > 0 {
            let shown = crate::arith::saturate_i32(missing);
            if any {
                labels.append(", ");
            }
            let n = signed_text(shown as i64);
            labels.append(n.as_str());
            labels.append(" ");
            labels.append(data.resource_name(c.resource_id.as_str()));
            any = true;
            proof {
                let next = prev.push((c.resource_id@, shown));
                assert(next.drop_last() =~= prev);
            }
        }
        i += 1;
    }
    assert(e.cargo_costs@.take(e.cargo_costs@.len() as int) =~= e.cargo_costs@);
    let mut s = e.name.clone();
    s.append(" needs ");
    s.append(labels.as_str());
    s.append(" more in expedition cargo. Choose another approach or tap LEAVE.");
    s
}

/// An approach can be taken when it is recorded, the party meets its
/// requirement, and the run's hold covers its cost.
pub open spec fn spec_choice_available(state: GameState, data: GameData, event_id: Seq<char>) -> bool {
    match data.spec_tower_event(event_id) {
        Some(e) => missing_requirement(state, e) is None && match state.tower_run {
            Some(run) => run.spec_can_afford(e.cargo_costs@),
            None => false,
        },
        None => false,
    }
}

pub fn event_choice_available(state: &GameState, data: &GameData, event_id: &str) -> (r: bool)
    ensures
        r == spec_choice_available(*state, *data, event_id@),
{
    match data.tower_event(event_id) {
        Some(e) => {
            requirement_missing(state, e).is_none() && match &state.tower_run {
                Some(run) => run.can_afford_cargo(&e.cargo_costs),
                None => false,
            }
        },
        None => false,
    }
}

pub open spec fn leave_line(name: Seq<char>) -> Seq<char> {
    "The party leaves "@ + name + " undisturbed."@
}

/// Walks away from a waiting landmark.
pub fn leave_special_event(state: &mut GameState, data: &GameData) -> (r: TowerResult)
    ensures
        match old(state).tower_run {
            Some(run) if run.pending_event is Some => {
                let p = run.pending_event.unwrap();
                let name = match data.spec_special_location(p.special_location_id@) {
                    Some(l) => l.name@,
                    None => "the landmark"@,
                };
                &&& *final(state) == (GameState { tower_run: final(state).tower_run, ..*old(state) })
                &&& final(state).tower_run matches Some(r2)
                    && r2 == (TowerRunState { pending_event: None, event_log: r2.event_log, ..run })
                    && r2.event_log@ == run.event_log@.push(r.summary)
                &&& plain(r, leave_line(name))
            },
            _ => *final(state) == *old(state) && plain(r, "No landmark decision is waiting. Tap EXPLORE."@),
        },
{
    let mut run = match state.tower_run.take() {
        Some(run) => run,
        None => {
            return result_str("No landmark decision is waiting. Tap EXPLORE.");
        },
    };
    let pending = match run.pending_event.take() {
        Some(p) => p,
        None => {
            state.tower_run = Some(run);
            return result_str("No landmark decision is waiting. Tap EXPLORE.");
        },
    };
    let mut s = String::from_str("The party leaves ");
    match data.tower_special_location(pending.special_location_id.as_str()) {
        Some(l) => s.append(l.name.as_str()),
        None => s.append("the landmark"),
    }
    s.append(" undisturbed.");
    run.add_event(s.clone());
    state.tower_run = Some(run);
    result(s)
}

/// `x` rotated left by 7 bits.
pub open spec fn rotl7(x: u64) -> u64 {
    (x << 7u64) | (x >> 57u64)
}

pub open spec fn seed_bytes(seed: u64, bytes: Seq<u8>) -> u64
    decreases bytes.len(),
{
    if bytes.len() == 0 {
        seed
    } else {
        rotl7(seed_bytes(seed, bytes.drop_last())) ^ (bytes.last() as u64)
    }
}

/// The look of an egg an approach yields: the map's seed folded with the approach's id.
pub open spec fn spec_event_seed(map_seed: u64, event_id: Seq<char>) -> u64 {
    seed_bytes(map_seed ^ 0xE7E7_5EEDu64, vstd::utf8::encode_utf8(event_id))
}

pub fn event_seed(map_seed: u64, event_id: &String) -> (s: u64)
    ensures
        s == spec_event_seed(map_seed, event_id@),
{
    let bytes = event_id.as_str().as_bytes();
    let mut h: u64 = map_seed ^ 0xE7E7_5EEDu64;
    let mut i: usize = 0;
    while i < bytes.len()
        invariant
            i <= bytes@.len(),
            bytes@ == vstd::utf8::encode_utf8(event_id@),
            h == seed_bytes(map_seed ^ 0xE7E7_5EEDu64, bytes@.take(i as int)),
        decreases bytes.len() - i,
    {
        assert(bytes@.take(i as int + 1).drop_last() =~= bytes@.take(i as int));
        h = ((h << 7u64) | (h >> 57u64)) ^ (bytes[i] as u64);
        i += 1;
    }
    assert(bytes@.take(bytes@.len() as int) =~= bytes@);
    h
}

/// The fog after a floor's routes are charted: every walkable tile the party
/// has never seen becomes explored.
pub open spec fn charted_fog(map: TowerMapState) -> Seq<TowerTileVisibility> {
    let fog = fog_grid(map);
    Seq::new(fog.len(), |i: int| if map.tiles@[i] != TowerTileKind::Wall && fog[i] == TowerTileVisibility::Hidden {
        TowerTileVisibility::Explored
    } else {
        fog[i]
    })
}

/// Charts every walkable tile the party has not seen.
fn chart_routes(map: &mut TowerMapState)
    requires
        old(map).wf(),
    ensures
        final(map).wf(),
        *final(map) == (TowerMapState { visibility: final(map).visibility, ..*old(map) }),
        final(map).visibility@ == charted_fog(*old(map)),
{
    map.ensure_visibility();
    let ghost fog = map.visibility@;
    assert(fog =~= fog_grid(*old(map)));
    let mut i: usize = 0;
    while i < map.tiles.len()
        invariant
            map.wf(),
            *map == (TowerMapState { visibility: map.visibility, ..*old(map) }),
            map.visibility@.len() == map.tiles@.len(),
            fog.len() == map.tiles@.len(),
            fog == fog_grid(*old(map)),
            i <= map.tiles@.len(),
            forall|j: int| 0 <= j < i ==> #[trigger] map.visibility@[j] == charted_fog(*old(map))[j],
            forall|j: int| i <= j < fog.len() ==> #[trigger] map.visibility@[j] == fog[j],
        decreases map.tiles.len() - i,
    {
        if map.tiles[i] != TowerTileKind::Wall && map.visibility[i] == TowerTileVisibility::Hidden {
            map.visibility.set(i, TowerTileVisibility::Explored);
        }
        i += 1;
    }
    assert(map.visibility@ =~= charted_fog(*old(map)));
}

/// The pressure after an approach: lowered (not below zero) or raised (not
/// past the limit) by the approach's change.
pub open spec fn event_pressure(run: TowerRunState, e: TowerEventDefinition) -> u32 {
    if e.pressure_delta < 0 {
        if run.pressure + e.pressure_delta > 0 { (run.pressure + e.pressure_delta) as u32 } else { 0 }
    } else {
        min_int(clamp_u32(run.pressure + e.pressure_delta), run.pressure_limit as int) as u32
    }
}

/// An approach moves pressure by its change, never below zero and, when it
/// raises it, never past the limit; charting the floor makes every walkable
/// tile that was hidden explored and leaves every other tile's fog alone.
pub proof fn law_event_pressure_and_charting(run: TowerRunState, e: TowerEventDefinition, map: TowerMapState, i: int)
    requires
        run.pressure <= run.pressure_limit,
    ensures
        e.pressure_delta < 0 ==> event_pressure(run, e) == max_int(run.pressure + e.pressure_delta, 0),
        e.pressure_delta >= 0 ==> event_pressure(run, e) == min_int(run.pressure + e.pressure_delta, run.pressure_limit as int),
        event_pressure(run, e) <= run.pressure_limit,
        0 <= i < map.tiles@.len() && map.visibility@.len() == map.tiles@.len() ==> {
            let fog = charted_fog(map);
            &&& fog.len() == map.tiles@.len()
            &&& (map.tiles@[i] != TowerTileKind::Wall && map.visibility@[i] == TowerTileVisibility::Hidden
                ==> fog[i] == TowerTileVisibility::Explored)
            &&& (!(map.tiles@[i] != TowerTileKind::Wall && map.visibility@[i] == TowerTileVisibility::Hidden)
                ==> fog[i] == map.visibility@[i])
        },
{
    if 0 <= i < map.tiles@.len() && map.visibility@.len() == map.tiles@.len() {
        assert(fog_grid(map) =~= map.visibility@);
    }
}

/// What an approach does to the run: its rewards go to the cargo, the
/// pressure changes, the camp is refreshed, the floor charted, a blessing
/// granted and an egg found, as the approach grants.
pub open spec fn event_applied(run: TowerRunState, r2: TowerRunState, data: GameData, e: TowerEventDefinition) -> bool {
    &&& stack_view(r2.cargo@) == add_rewards_view(stack_view(run.cargo@), e.rewards@)
    &&& r2.pressure == event_pressure(run, e)
    &&& r2.camp_cooldown == if e.refresh_camp { 0 } else { run.camp_cooldown }
    &&& r2.map == (TowerMapState { visibility: r2.map.visibility, ..run.map })
    &&& r2.map.visibility@ == if e.reveal_map { charted_fog(run.map) } else { run.map.visibility@ }
    &&& match data.spec_egg_type(e.egg_type_id@) {
        Some(t) => {
            let egg = r2.found_eggs@.last();
            &&& r2.found_eggs@ == run.found_eggs@.push(egg)
            &&& egg.egg_type_id@ == t.id@
            &&& egg.hatch_days == t.hatch_days
            &&& egg.origin_floor == run.current_floor
            &&& egg.palette_seed == spec_event_seed(run.map.seed, e.id@)
        },
        None => r2.found_eggs == run.found_eggs,
    }
    &&& r2.blessings@ == match e.blessing {
        Some(b) => if run.spec_has_blessing(b) { run.blessings@ } else { run.blessings@.push(b) },
        None => run.blessings@,
    }
    &&& r2 == (TowerRunState {
        cargo: r2.cargo,
        pressure: r2.pressure,
        camp_cooldown: r2.camp_cooldown,
        map: r2.map,
        found_eggs: r2.found_eggs,
        blessings: r2.blessings,
        ..run
    })
}

fn apply_event_to_run(run: &mut TowerRunState, data: &GameData, e: &TowerEventDefinition) -> (egg_name: Option<String>)
    requires
        old(run).map.wf(),
    ensures
        final(run).map.wf(),
        event_applied(*old(run), *final(run), *data, *e),
        match data.spec_egg_type(e.egg_type_id@) {
            Some(t) => egg_name matches Some(n) && n@ == t.name@,
            None => egg_name is None,
        },
{
    let ghost run0 = *run;
    let mut j: usize = 0;
    while j < e.rewards.len()
        invariant
            j <= e.rewards@.len(),
            run.map.wf(),
            *run == (TowerRunState { cargo: run.cargo, ..run0 }),
            stack_view(run.cargo@) == add_rewards_view(stack_view(run0.cargo@), e.rewards@.take(j as int)),
        decreases e.rewards.len() - j,
    {
        assert(e.rewards@.take(j as int + 1).drop_last() =~= e.rewards@.take(j as int));
        run.add_cargo(e.rewards[j].resource_id.as_str(), e.rewards[j].amount);
        j += 1;
    }
    assert(e.rewards@.take(j as int) =~= e.rewards@);
    if e.pressure_delta < 0 {
        let drop: u64 = (0i64 - e.pressure_delta as i64) as u64;
        run.pressure = if (run.pressure as u64) > drop { run.pressure - drop as u32 } else { 0 };
    } else {
        let raised = sat_add_u32(run.pressure, e.pressure_delta as u32);
        run.pressure = if raised < run.pressure_limit { raised } else { run.pressure_limit };
    }
    if e.refresh_camp {
        run.camp_cooldown = 0;
    }
    if e.reveal_map {
        chart_routes(&mut run.map);
    }
    match e.blessing {
        Some(b) => run.add_blessing(b),
        None => {},
    }
    match data.egg_type(e.egg_type_id.as_str()) {
        Some(t) => {
            let palette_seed = event_seed(run.map.seed, &e.id);
            run.found_eggs.push(TowerFoundEgg {
                egg_type_id: t.id.clone(),
                hatch_days: t.hatch_days,
                origin_floor: run.current_floor,
                palette_seed,
            });
            Some(t.name.clone())
        },
        None => None,
    }
}

/// Records an enemy in the field guide; the run logs it when it is new.
pub fn record_enemy_discovery(state: &mut GameState, data: &GameData, enemy_id: &String)
    ensures
        *final(state) == (GameState { tower_discoveries: final(state).tower_discoveries, tower_run: final(state).tower_run, ..*old(state) }),
        name_list(final(state).tower_discoveries.enemies@) == with_name(name_list(old(state).tower_discoveries.enemies@), enemy_id@),
        final(state).tower_discoveries.events == old(state).tower_discoveries.events,
        final(state).tower_discoveries.special_locations == old(state).tower_discoveries.special_locations,
        final(state).tower_discoveries.hazards == old(state).tower_discoveries.hazards,
        final(state).tower_run is Some == old(state).tower_run is Some,
        final(state).tower_run matches Some(r2) ==> r2 == (TowerRunState { event_log: r2.event_log, ..old(state).tower_run.unwrap() })
            && (r2.event_log@ == old(state).tower_run.unwrap().event_log@
                || r2.event_log@ == old(state).tower_run.unwrap().event_log@.push(r2.event_log@.last())),
        final(state).tower_run matches Some(r2) ==> if holds_name(old(state).tower_discoveries.enemies@, enemy_id@) {
            r2.event_log == old(state).tower_run.unwrap().event_log
        } else {
            r2.event_log@ == old(state).tower_run.unwrap().event_log@.push(r2.event_log@.last())
                && r2.event_log@.last()@ == "Field guide updated: "@ + enemy_name(*data, enemy_id@) + "."@
        },
{
    if state.tower_discoveries.discover_enemy(enemy_id.as_str()) {
        let mut s = String::from_str("Field guide updated: ");
        match data.enemy(enemy_id.as_str()) {
            Some(e) => s.append(e.name.as_str()),
            None => s.append(enemy_id.as_str()),
        }
        s.append(".");
        match state.tower_run.take() {
            Some(mut run) => {
                run.add_event(s);
                state.tower_run = Some(run);
            },
            None => {},
        }
    }
}

pub open spec fn rewards_part(data: GameData, e: TowerEventDefinition, has_run: bool) -> Seq<char> {
    if has_run && e.rewards@.len() > 0 { " Recovered "@ + reward_list(data, amounts_view(e.rewards@)) + "."@ } else { ""@ }
}

pub open spec fn healed_part(healed: int) -> Seq<char> {
    if healed > 0 { " Restored "@ + signed_decimal(healed) + " total HP."@ } else { ""@ }
}

pub open spec fn egg_part(data: GameData, e: TowerEventDefinition, has_run: bool) -> Seq<char> {
    if has_run && data.spec_egg_type(e.egg_type_id@) is Some {
        " Recovered a "@ + data.spec_egg_type(e.egg_type_id@).unwrap().name@ + "."@
    } else {
        ""@
    }
}

pub open spec fn chart_part(e: TowerEventDefinition) -> Seq<char> {
    if e.reveal_map { " The floor's passable routes are now charted."@ } else { ""@ }
}

pub open spec fn blessing_part(e: TowerEventDefinition, has_run: bool) -> Seq<char> {
    match e.blessing {
        Some(b) if has_run => " Gained "@ + b.spec_label() + "."@,
        _ => ""@,
    }
}

pub open spec fn camp_part(e: TowerEventDefinition) -> Seq<char> {
    if e.refresh_camp { " The party can CAMP again immediately."@ } else { ""@ }
}

/// How an approach reads: the landmark and the approach, then what it
/// recovered, healed, found, charted and refreshed, and the blessing it grants.
pub open spec fn event_line(
    data: GameData,
    l: TowerSpecialLocationDefinition,
    e: TowerEventDefinition,
    has_run: bool,
    healed: int,
) -> Seq<char> {
    l.name@ + " — "@ + e.name@ + ": "@ + e.narrative@ + rewards_part(data, e, has_run) + healed_part(healed)
        + egg_part(data, e, has_run) + chart_part(e) + camp_part(e) + blessing_part(e, has_run)
}

fn reward_labels(data: &GameData, rewards: &Vec<ResourceAmount>) -> (s: String)
    ensures
        s@ == reward_list(*data, amounts_view(rewards@)),
{
    let ghost sv = amounts_view(rewards@);
    let mut s = String::new();
    let mut i: usize = 0;
    while i < rewards.len()
        invariant
            i <= rewards@.len(),
            sv == amounts_view(rewards@),
            s@ == reward_list(*data, sv.take(i as int)),
        decreases rewards.len() - i,
    {
        assert(sv.take(i as int + 1).drop_last() =~= sv.take(i as int));
        if i > 0 {
            s.append(", ");
        } else {
            assert(sv.take(0).len() == 0);
            assert(s@.len() == 0);
        }
        let ghost mid = s@;
        let n = signed_text(rewards[i].amount as i64);
        s.append(n.as_str());
        s.append(" ");
        s.append(data.resource_name(rewards[i].resource_id.as_str()));
        proof {
            assert(sv[i as int] == (rewards@[i as int].resource_id@, rewards@[i as int].amount));
            if i == 0 {
                assert(sv.take(1).len() == 1);
                assert(mid + reward_entry(*data, sv[0]) =~= reward_entry(*data, sv[0]));
            }
        }
        i += 1;
    }
    assert(sv.take(i as int) =~= sv);
    s
}

fn rewards_text(data: &GameData, e: &TowerEventDefinition, has_run: bool) -> (s: String)
    ensures
        s@ == rewards_part(*data, *e, has_run),
{
    proof {
        reveal_strlit("");
    }
    if has_run && e.rewards.len() > 0 {
        let mut s = String::from_str(" Recovered ");
        let labels = reward_labels(data, &e.rewards);
        s.append(labels.as_str());
        s.append(".");
        s
    } else {
        String::new()
    }
}

fn healed_text(healed: i64) -> (s: String)
    ensures
        s@ == healed_part(healed as int),
{
    proof {
        reveal_strlit("");
    }
    if healed > 0 {
        let mut s = String::from_str(" Restored ");
        let h = signed_text(healed);
        s.append(h.as_str());
        s.append(" total HP.");
        s
    } else {
        String::new()
    }
}

fn egg_text(data: &GameData, e: &TowerEventDefinition, has_run: bool, egg_name: &Option<String>) -> (s: String)
    requires
        has_run ==> match data.spec_egg_type(e.egg_type_id@) {
            Some(t) => *egg_name matches Some(n) && n@ == t.name@,
            None => egg_name is None,
        },
        !has_run ==> egg_name is None,
    ensures
        s@ == egg_part(*data, *e, has_run),
{
    proof {
        reveal_strlit("");
    }
    match egg_name {
        Some(name) => {
            let mut s = String::from_str(" Recovered a ");
            s.append(name.as_str());
            s.append(".");
            s
        },
        None => String::new(),
    }
}

fn event_text(
    data: &GameData,
    location: &TowerSpecialLocationDefinition,
    event: &TowerEventDefinition,
    has_run: bool,
    healed: i64,
    egg_name: &Option<String>,
) -> (s: String)
    requires
        has_run ==> match data.spec_egg_type(event.egg_type_id@) {
            Some(t) => *egg_name matches Some(n) && n@ == t.name@,
            None => egg_name is None,
        },
        !has_run ==> egg_name is None,
    ensures
        s@ == event_line(*data, *location, *event, has_run, healed as int),
{
    proof {
        reveal_strlit("");
    }
    let mut s = location.name.clone();
    s.append(" — ");
    s.append(event.name.as_str());
    s.append(": ");
    s.append(event.narrative.as_str());
    let a = rewards_text(data, event, has_run);
    s.append(a.as_str());
    let b = healed_text(healed);
    s.append(b.as_str());
    let c = egg_text(data, event, has_run, egg_name);
    s.append(c.as_str());
    let d: &str = if event.reveal_map { " The floor's passable routes are now charted." } else { "" };
    s.append(d);
    let f: &str = if event.refresh_camp { " The party can CAMP again immediately." } else { "" };
    s.append(f);
    if has_run {
        match event.blessing {
            Some(b) => {
                s.append(" Gained ");
                s.append(b.label());
                s.append(".");
            },
            None => {},
        }
    }
    s
}

/// Carries out an approach at a landmark: rewards to the cargo, the pressure
/// change, a refreshed camp, a charted floor, a found egg and healing, as the
/// approach grants; an approach with an enemy requests combat with it.
pub fn apply_tower_event(state: &mut GameState, data: &GameData, location_id: &String, event_id: &String) -> (r: TowerResult)
    requires
        run_wf(*old(state)),
    ensures
        run_wf(*final(state)),
        final(state).tower_discoveries.events == old(state).tower_discoveries.events,
        data.spec_special_location(location_id@) is None ==> *final(state) == *old(state)
            && plain(r, "The party finds an unrecorded tower landmark."@),
        data.spec_special_location(location_id@) is Some && data.spec_tower_event(event_id@) is None
            ==> *final(state) == *old(state) && plain(r, data.spec_special_location(location_id@).unwrap().name@ + " stands silent."@),
        data.spec_special_location(location_id@) is Some && data.spec_tower_event(event_id@) is Some ==> {
            let l = data.spec_special_location(location_id@).unwrap();
            let e = data.spec_tower_event(event_id@).unwrap();
            let (ms, healed) = heal_party(
                old(state).monster_roster.monsters@,
                old(state).monster_roster.party_slots@,
                old(state).monster_roster.party_slots@.len() as int,
                e.party_healing,
            );
            &&& final(state).monster_roster.monsters@ == ms
            &&& r.summary@ == event_line(*data, l, e, old(state).tower_run is Some, healed)
            &&& !r.returned_to_town
            &&& match old(state).tower_run {
                None => final(state).tower_run is None,
                Some(run) => final(state).tower_run matches Some(r2)
                    && event_applied(run, TowerRunState { event_log: run.event_log, ..r2 }, *data, e)
                    && r2.event_log@.len() > run.event_log@.len()
                    && r2.event_log@.take(run.event_log@.len() as int) == run.event_log@
                    && r2.event_log@[run.event_log@.len() as int]@ == r.summary@,
            }
            &&& if e.enemy_id@.len() == 0 {
                r.encounter is None && final(state).tower_discoveries == old(state).tower_discoveries
            } else {
                &&& r.encounter is Some
                &&& !r.encounter.unwrap().is_boss
                &&& r.encounter.unwrap().enemy_id matches Some(id) && id@ == e.enemy_id@
                &&& r.encounter.unwrap().floor == match old(state).tower_run { Some(run) => run.current_floor, None => 1u32 }
                &&& name_list(final(state).tower_discoveries.enemies@) == with_name(name_list(old(state).tower_discoveries.enemies@), e.enemy_id@)
                &&& final(state).tower_discoveries.special_locations == old(state).tower_discoveries.special_locations
                &&& final(state).tower_discoveries.hazards == old(state).tower_discoveries.hazards
            }
            &&& *final(state) == (GameState {
                monster_roster: MonsterRoster { monsters: final(state).monster_roster.monsters, ..old(state).monster_roster },
                tower_run: final(state).tower_run,
                tower_discoveries: final(state).tower_discoveries,
                ..*old(state)
            })
        },
{
    let location = match data.tower_special_location(location_id.as_str()) {
        Some(l) => l,
        None => {
            return result_str("The party finds an unrecorded tower landmark.");
        },
    };
    let event = match data.tower_event(event_id.as_str()) {
        Some(e) => e,
        None => {
            let mut s = location.name.clone();
            s.append(" stands silent.");
            return result(s);
        },
    };
    let has_run = state.tower_run.is_some();
    let mut egg_name: Option<String> = None;
    match state.tower_run.take() {
        Some(mut run) => {
            egg_name = apply_event_to_run(&mut run, data, event);
            state.tower_run = Some(run);
        },
        None => {},
    }
    let healed = heal_party_members(state, event.party_healing);
    let s = event_text(data, location, event, has_run, healed, &egg_name);
    match state.tower_run.take() {
        Some(mut run) => {
            run.add_event(s.clone());
            state.tower_run = Some(run);
        },
        None => {},
    }
    if event.enemy_id.as_str().unicode_len() == 0 {
        return result(s);
    }
    let ghost logged = *state;
    record_enemy_discovery(state, data, &event.enemy_id);
    proof {
        match (old(state).tower_run, logged.tower_run) {
            (Some(run), Some(mid)) => {
                let r2 = state.tower_run.unwrap();
                let n = run.event_log@.len() as int;
                assert(mid.event_log@.take(n) =~= run.event_log@);
                if r2.event_log@ != mid.event_log@ {
                    assert(r2.event_log@.take(n) =~= mid.event_log@.take(n));
                    assert(r2.event_log@[n] == mid.event_log@[n]);
                }
            },
            _ => {},
        }
    }
    let floor = match &state.tower_run {
        Some(run) => run.current_floor,
        None => 1,
    };
    TowerResult {
        summary: s,
        encounter: Some(TowerEncounterRequest { floor, is_boss: false, enemy_id: Some(event.enemy_id.clone()) }),
        returned_to_town: false,
    }
}

/// Whether every cost of every approach can be negated.
pub open spec fn event_costs_ok(data: GameData) -> bool {
    forall|i: int, j: int| 0 <= i < data.tower_events@.len() && 0 <= j < data.tower_events@[i].cargo_costs@.len()
        ==> #[trigger] data.tower_events@[i].cargo_costs@[j].amount > i32::MIN
}

/// Takes an approach at the waiting landmark: it must be offered, recorded,
/// within the party's means and paid for from the cargo; the first time an
/// approach is taken it enters the field guide and adds a survey flare (up to five).
/// The note a first recorded approach adds: a bonus survey flare while the
/// kit holds fewer than five, otherwise just the guide entry.
pub open spec fn first_approach_note(run: TowerRunState, first: bool) -> Seq<char> {
    if !first {
        Seq::empty()
    } else if run.survey_charges < 5 {
        " First approach recorded: prepared 1 bonus survey flare."@
    } else {
        " First approach recorded in the Field Guide."@
    }
}

/// What taking an affordable approach `eid` of the waiting landmark does,
/// before the contract is looked at: its cargo costs are paid, the decision
/// is settled and counted, the approach enters the guide (a first one brings
/// a bonus flare), and the approach's effects apply: rewards, pressure, camp,
/// charting, an egg, healing of the party, and an ambush by its enemy.
pub open spec fn approach_taken(s0: GameState, s1: GameState, data: GameData, eid: Seq<char>, out: TowerResult) -> bool {
    let run = s0.tower_run.unwrap();
    let p = run.pending_event.unwrap();
    let e = data.spec_tower_event(eid).unwrap();
    let first = !holds_name(s0.tower_discoveries.events@, eid);
    let paid = spent_view(stack_view(run.cargo@), e.cargo_costs@);
    &&& name_list(s1.tower_discoveries.events@) == with_name(name_list(s0.tower_discoveries.events@), eid)
    &&& !out.returned_to_town
    &&& s1.combat == s0.combat
    &&& s1.tower_run matches Some(r2) && {
        &&& r2.pending_event is None
        &&& r2.stats.landmarks_resolved == clamp_u32(run.stats.landmarks_resolved + 1)
        &&& r2.survey_charges == if first { min_int(clamp_u32(run.survey_charges + 1), 5) as u32 } else { run.survey_charges }
        &&& r2.current_floor == run.current_floor
        &&& match data.spec_special_location(p.special_location_id@) {
            None => {
                &&& stack_view(r2.cargo@) == paid
                &&& s1.monster_roster == s0.monster_roster
                &&& out.encounter is None
                &&& out.summary@ == "The party finds an unrecorded tower landmark."@ + first_approach_note(run, first)
            },
            Some(l) => {
                let (ms, healed) = heal_party(
                    s0.monster_roster.monsters@,
                    s0.monster_roster.party_slots@,
                    s0.monster_roster.party_slots@.len() as int,
                    e.party_healing,
                );
                &&& s1.monster_roster.monsters@ == ms
                &&& stack_view(r2.cargo@) == add_rewards_view(paid, e.rewards@)
                &&& r2.pressure == event_pressure(run, e)
                &&& r2.camp_cooldown == if e.refresh_camp { 0 } else { run.camp_cooldown }
                &&& r2.map == (TowerMapState { visibility: r2.map.visibility, ..run.map })
                &&& r2.map.visibility@ == if e.reveal_map { charted_fog(run.map) } else { run.map.visibility@ }
                &&& match data.spec_egg_type(e.egg_type_id@) {
                    Some(t) => {
                        let egg = r2.found_eggs@.last();
                        &&& r2.found_eggs@ == run.found_eggs@.push(egg)
                        &&& egg.egg_type_id@ == t.id@
                        &&& egg.hatch_days == t.hatch_days
                        &&& egg.origin_floor == run.current_floor
                        &&& egg.palette_seed == spec_event_seed(run.map.seed, e.id@)
                    },
                    None => r2.found_eggs == run.found_eggs,
                }
                &&& out.summary@ == event_line(data, l, e, true, healed) + first_approach_note(run, first)
                &&& if e.enemy_id@.len() == 0 {
                    out.encounter is None
                } else {
                    out.encounter matches Some(enc) && !enc.is_boss && enc.floor == run.current_floor
                        && (enc.enemy_id matches Some(id) && id@ == e.enemy_id@)
                }
            },
        }
    }
}

/// Pays for and takes an approach the party can afford.
fn take_approach(state: &mut GameState, data: &GameData, location_id: &String, event_id: &str, e: &TowerEventDefinition) -> (r: TowerResult)
    requires
        run_wf(*old(state)),
        old(state).tower_run matches Some(run) && run.pending_event matches Some(p)
            && p.special_location_id@ == location_id@ && run.spec_can_afford(e.cargo_costs@),
        data.spec_tower_event(event_id@) == Some(*e),
        forall|j: int| 0 <= j < e.cargo_costs@.len() ==> e.cargo_costs@[j].amount > i32::MIN,
    ensures
        run_wf(*final(state)),
        approach_taken(*old(state), *final(state), *data, event_id@, r),
        holds_name(final(state).tower_discoveries.events@, event_id@),
        data.spec_special_location(location_id@) is Some ==> (r.encounter is None <==> e.enemy_id@.len() == 0),
{
    let mut run = state.tower_run.take().unwrap();
    let ghost run0 = run;
    run.spend_cargo(&e.cargo_costs);
    run.pending_event = None;
    run.stats.landmarks_resolved = sat_add_u32(run.stats.landmarks_resolved, 1);
    state.tower_run = Some(run);
    let first_record = state.tower_discoveries.discover_event(event_id);
    let ghost paid_state = *state;
    let eid = String::from_str(event_id);
    let mut outcome = apply_tower_event(state, data, location_id, &eid);
    let ghost applied = *state;
    let ghost out0 = outcome.summary@;
    if first_record {
        let mut added = false;
        match state.tower_run.take() {
            Some(mut run) => {
                let before = run.survey_charges;
                let raised = sat_add_u32(run.survey_charges, 1);
                run.survey_charges = if raised < 5 { raised } else { 5 };
                added = run.survey_charges > before;
                run.add_event(String::from_str(if added {
                    "First approach recorded: prepared 1 bonus survey flare."
                } else {
                    "First approach recorded in the Field Guide."
                }));
                state.tower_run = Some(run);
            },
            None => {},
        }
        outcome.summary.append(if added {
            " First approach recorded: prepared 1 bonus survey flare."
        } else {
            " First approach recorded in the Field Guide."
        });
    }
    proof {
        assert(data.spec_tower_event(eid@) == Some(*e));
        assert(outcome.summary@ == out0 + first_approach_note(run0, first_record));
    }
    outcome
}

/// What `choose_special_event` does to the state `s0`, giving `s1` and the answer `r`.
pub open spec fn special_event_chosen(s0: GameState, s1: GameState, data: GameData, event_id: Seq<char>, r: TowerResult) -> bool {
    &&& (run_wf(s1))
    &&& (s1.combat == s0.combat)
    &&& (match s0.tower_run {
        Some(run) if run.pending_event is Some => {
            let p = run.pending_event.unwrap();
            if !holds_name(p.event_ids@, event_id) {
                s1 == s0 && plain(r, "That landmark approach is unavailable. Tap a visible choice."@)
            } else {
                match data.spec_tower_event(event_id) {
                    None => s1 == s0 && plain(r, "That landmark approach is no longer recorded."@),
                    Some(e) => match missing_requirement(s0, e) {
                        Some(req) => s1 == s0 && plain(r,
                            e.name@ + " needs a party monster with "@ + req + ". Choose another approach or tap LEAVE."@),
                        None => if !run.spec_can_afford(e.cargo_costs@) {
                            s1 == s0 && plain(r, shortfall_line(data, run, e))
                        } else {
                            &&& s1.tower_run matches Some(r2) && r2.pending_event is None
                                && r2.stats.landmarks_resolved == clamp_u32(run.stats.landmarks_resolved + 1)
                                && r2.survey_charges == if holds_name(s0.tower_discoveries.events@, event_id) {
                                    run.survey_charges
                                } else {
                                    min_int(clamp_u32(run.survey_charges + 1), 5) as u32
                                }
                            &&& holds_name(s1.tower_discoveries.events@, event_id)
                            &&& data.spec_special_location(p.special_location_id@) is Some
                                ==> (r.encounter is None <==> e.enemy_id@.len() == 0)
                            &&& exists|mid: GameState, out: TowerResult|
                                #[trigger] approach_taken(s0, mid, data, event_id, out)
                                && contract_refreshed(out, mid, s1, data, r)
                        },
                    },
                }
            }
        },
        _ => s1 == s0 && plain(r, "No landmark decision is waiting. Tap EXPLORE."@),
    })
}

pub fn choose_special_event(state: &mut GameState, data: &GameData, event_id: &str) -> (r: TowerResult)
    requires
        run_wf(*old(state)),
        event_costs_ok(*data),
    ensures
        special_event_chosen(*old(state), *final(state), *data, event_id@, r),
{
    let (location_id, offered) = match &state.tower_run {
        Some(run) => match &run.pending_event {
            Some(p) => (p.special_location_id.clone(), crate::state::records::contains_name(&p.event_ids, event_id)),
            None => {
                return result_str("No landmark decision is waiting. Tap EXPLORE.");
            },
        },
        None => {
            return result_str("No landmark decision is waiting. Tap EXPLORE.");
        },
    };
    if !offered {
        return result_str("That landmark approach is unavailable. Tap a visible choice.");
    }
    let e = match data.tower_event(event_id) {
        Some(e) => e,
        None => {
            return result_str("That landmark approach is no longer recorded.");
        },
    };
    match requirement_missing(state, e) {
        Some(req) => {
            let mut s = e.name.clone();
            s.append(" needs a party monster with ");
            s.append(req.as_str());
            s.append(". Choose another approach or tap LEAVE.");
            return result(s);
        },
        None => {},
    }
    let affordable = state.tower_run.as_ref().unwrap().can_afford_cargo(&e.cargo_costs);
    if !affordable {
        let s = shortfall_text(state.tower_run.as_ref().unwrap(), data, e);
        return result(s);
    }
    proof {
        crate::data::game_data::lemma_first_keyed(data.tower_events@, event_id@);
        let k = crate::data::game_data::first_keyed(data.tower_events@, event_id@).unwrap();
        assert forall|j: int| 0 <= j < e.cargo_costs@.len() implies e.cargo_costs@[j].amount > i32::MIN by {
            assert(data.tower_events@[k].cargo_costs@[j].amount > i32::MIN);
        }
    }
    let ghost s0 = *state;
    let outcome = take_approach(state, data, &location_id, event_id, e);
    let ghost mid = *state;
    let r = with_contract_refresh(outcome, state, data);
    proof {
        assert(approach_taken(s0, mid, *data, event_id@, outcome) && contract_refreshed(outcome, mid, *state, *data, r));
    }
    r
}

/// An approach that is not open to the party (its event unknown, a required
/// passive or element missing from the party, no run, or cargo short of its
/// costs) leaves the game exactly as it was when chosen.
pub proof fn law_unavailable_approach_changes_nothing(s0: GameState, s1: GameState, data: GameData, event_id: Seq<char>, r: TowerResult)
    requires
        special_event_chosen(s0, s1, data, event_id, r),
        !spec_choice_available(s0, data, event_id),
    ensures
        s1 == s0,
{
}

} // verus!
