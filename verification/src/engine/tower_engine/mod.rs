//! Tower runs: entering, walking the map, meeting what lies on it, and
//! coming home with the cargo.

use vstd::prelude::*;
use crate::data::game_data::GameData;
use crate::engine::combat_support::{spec_floor_reached, record_floor_reached, reward_entry, reward_list};
use crate::engine::town_engine::{spec_egg_capacity, egg_capacity};
use crate::state::eggs::{EggCareFocus, EggInstance, EggInventory};
use crate::state::game::GameState;
use crate::state::records::{ActivityEntry, ActivityLog};
use crate::state::resources::{ResourceLedger, ResourceStack, stack_view, add_stacks_view};
use crate::state::roster::MonsterInstance;
use crate::state::tower_run::{TowerFoundEgg, TowerRunState};
use crate::text::{decimal, decimal_text, signed_text};

pub mod anomalies;
pub mod camp;
pub mod contracts;
pub mod discovery;
pub mod event_choices;
pub mod map_gen;
pub mod map_objects;
pub mod movement;
pub mod navigation;
pub mod pressure;
pub mod runs;
pub mod survey;
pub mod walks;

verus! {

pub struct TowerEncounterRequest {
    pub floor: u32,
    pub is_boss: bool,
    pub enemy_id: Option<String>,
}

pub struct TowerResult {
    pub summary: String,
    pub encounter: Option<TowerEncounterRequest>,
    pub returned_to_town: bool,
}

/// A plain outcome: a message, no encounter, still in the tower.
pub open spec fn plain(r: TowerResult, text: Seq<char>) -> bool {
    r.summary@ == text && r.encounter is None && !r.returned_to_town
}

pub fn result(summary: String) -> (r: TowerResult)
    ensures
        plain(r, summary@),
        r.summary == summary,
{
    TowerResult { summary, encounter: None, returned_to_town: false }
}

pub fn result_str(summary: &str) -> (r: TowerResult)
    ensures
        plain(r, summary@),
{
    result(String::from_str(summary))
}

// ---------------------------------------------------------------- party

/// How many formation slots hold a monster.
pub open spec fn filled_slots(slots: Seq<Option<u64>>) -> int
    decreases slots.len(),
{
    if slots.len() == 0 {
        0
    } else {
        filled_slots(slots.drop_last()) + if slots.last() is Some { 1int } else { 0int }
    }
}

pub fn party_count(state: &GameState) -> (n: usize)
    ensures
        n == filled_slots(state.monster_roster.party_slots@),
{
    let slots = &state.monster_roster.party_slots;
    let mut n: usize = 0;
    let mut i: usize = 0;
    while i < slots.len()
        invariant
            i <= slots@.len(),
            n == filled_slots(slots@.take(i as int)),
            n <= i,
        decreases slots.len() - i,
    {
        assert(slots@.take(i as int + 1).drop_last() =~= slots@.take(i as int));
        if slots[i].is_some() {
            n += 1;
        }
        i += 1;
    }
    assert(slots@.take(slots@.len() as int) =~= slots@);
    n
}

/// Whether formation slot entry `slot` names a monster that is battle ready
/// and has no town job.
pub open spec fn ready_in_slot(state: GameState, slot: Option<u64>) -> bool {
    match slot {
        Some(id) => match state.monster_roster.spec_monster(id) {
            Some(m) => m.spec_battle_ready() && state.town.spec_monster_job(m.id) is None,
            None => false,
        },
        None => false,
    }
}

pub open spec fn ready_slots(state: GameState, slots: Seq<Option<u64>>) -> int
    decreases slots.len(),
{
    if slots.len() == 0 {
        0
    } else {
        ready_slots(state, slots.drop_last()) + if ready_in_slot(state, slots.last()) { 1int } else { 0int }
    }
}

pub fn battle_ready_party_count(state: &GameState) -> (n: usize)
    ensures
        n == ready_slots(*state, state.monster_roster.party_slots@),
{
    let slots = &state.monster_roster.party_slots;
    let mut n: usize = 0;
    let mut i: usize = 0;
    while i < slots.len()
        invariant
            i <= slots@.len(),
            slots@ == state.monster_roster.party_slots@,
            n == ready_slots(*state, slots@.take(i as int)),
            n <= i,
        decreases slots.len() - i,
    {
        assert(slots@.take(i as int + 1).drop_last() =~= slots@.take(i as int));
        match slots[i] {
            Some(id) => match state.monster_roster.monster(id) {
                Some(m) => {
                    if m.is_battle_ready() && state.town.monster_job(m.id).is_none() {
                        n += 1;
                    }
                },
                None => {},
            },
            None => {},
        }
        i += 1;
    }
    assert(slots@.take(slots@.len() as int) =~= slots@);
    n
}

// ---------------------------------------------------------------- cargo

/// The stacks of a cargo view that hold a positive amount.
pub open spec fn positive_entries(sv: Seq<(Seq<char>, i32)>) -> Seq<(Seq<char>, i32)>
    decreases sv.len(),
{
    if sv.len() == 0 {
        Seq::empty()
    } else {
        let rest = positive_entries(sv.drop_last());
        if sv.last().1 > 0 { rest.push(sv.last()) } else { rest }
    }
}

/// How a hold reads: "no materials" when empty, else its positive stacks as
/// "amount name" joined with ", ".
pub open spec fn spec_cargo_text(data: GameData, sv: Seq<(Seq<char>, i32)>) -> Seq<char> {
    if sv.len() == 0 { "no materials"@ } else { reward_list(data, positive_entries(sv)) }
}

pub fn cargo_text(data: &GameData, cargo: &Vec<ResourceStack>) -> (s: String)
    ensures
        s@ == spec_cargo_text(*data, stack_view(cargo@)),
{
    if cargo.len() == 0 {
        return String::from_str("no materials");
    }
    let ghost sv = stack_view(cargo@);
    let mut s = String::new();
    let mut any = false;
    let mut i: usize = 0;
    while i < cargo.len()
        invariant
            i <= cargo@.len(),
            sv == stack_view(cargo@),
            s@ == reward_list(*data, positive_entries(sv.take(i as int))),
            any == (positive_entries(sv.take(i as int)).len() > 0),
        decreases cargo.len() - i,
    {
        assert(sv.take(i as int + 1).drop_last() =~= sv.take(i as int));
        let ghost pe = positive_entries(sv.take(i as int));
        let ghost e = sv[i as int];
        proof {
            assert(pe.push(e).drop_last() =~= pe);
            assert(e == (cargo@[i as int].resource_id@, cargo@[i as int].amount));
        }
        if cargo[i].amount > 0 {
            if any {
                s.append(", ");
            }
            let n = signed_text(cargo[i].amount as i64);
            s.append(n.as_str());
            s.append(" ");
            s.append(data.resource_name(cargo[i].resource_id.as_str()));
            any = true;
        }
        i += 1;
    }
    assert(sv.take(sv.len() as int) =~= sv);
    s
}

// ---------------------------------------------------------------- coming home

/// A found egg as it is stored in the hatchery under `id`.
pub open spec fn stored_egg(id: u64, f: TowerFoundEgg) -> EggInstance {
    EggInstance {
        id,
        egg_type_id: f.egg_type_id,
        days_remaining: f.hatch_days,
        origin_floor: f.origin_floor,
        palette_seed: f.palette_seed,
        care_focus: EggCareFocus::Idle,
        care_points: 0,
        last_care_day: 0,
        studied: false,
        stabilised: false,
        inheritance: None,
    }
}

/// The id counter after `i` more eggs, stopping at the largest id.
pub open spec fn id_after(next: u64, i: int) -> u64 {
    if next + i <= u64::MAX { (next + i) as u64 } else { u64::MAX }
}

/// How many found eggs the hatchery takes: as many as it has room for.
pub open spec fn eggs_taken(state: GameState, run: TowerRunState) -> int {
    let cap = spec_egg_capacity(state.town.spec_building_level("hatchery"@));
    let room = if cap > state.egg_inventory.eggs@.len() { cap - state.egg_inventory.eggs@.len() } else { 0 };
    if room < run.found_eggs@.len() { room } else { run.found_eggs@.len() as int }
}

pub open spec fn return_line(data: GameData, state: GameState, run: TowerRunState) -> Seq<char> {
    let taken = eggs_taken(state, run);
    let left = run.found_eggs@.len() - taken;
    let cap = spec_egg_capacity(state.town.spec_building_level("hatchery"@));
    "Returned from floor "@ + decimal(run.current_floor as nat) + " with "@
        + spec_cargo_text(data, stack_view(run.cargo@)) + " and "@ + decimal(taken as nat) + " egg(s)."@
        + if left > 0 {
            " Hatchery capacity left "@ + decimal(left as nat) + " egg(s) behind ("@
                + decimal((state.egg_inventory.eggs@.len() + taken) as nat) + "/"@ + decimal(cap as nat) + ")."@
        } else {
            Seq::<char>::empty()
        }
}

/// Coming home from the run in `s0`: progress is recorded, the cargo is added
/// to the town's stores and the found eggs go to the hatchery as far as it has
/// room. Says nothing of the roster, the encounter or the activity log.
pub open spec fn returned_home(s0: GameState, s1: GameState, data: GameData) -> bool {
    match s0.tower_run {
        None => false,
        Some(run) => {
            let taken = eggs_taken(s0, run);
            &&& s1 == (GameState {
                tower_run: None,
                tower_progress: spec_floor_reached(s0.tower_progress, data, run.current_floor),
                resources: s1.resources,
                egg_inventory: s1.egg_inventory,
                activity_log: s1.activity_log,
                monster_roster: s1.monster_roster,
                combat: s1.combat,
                ..s0
            })
            &&& stack_view(s1.resources.stacks@) == add_stacks_view(stack_view(s0.resources.stacks@), stack_view(run.cargo@))
            &&& s1.egg_inventory.eggs@ == s0.egg_inventory.eggs@ + Seq::new(
                taken as nat,
                |i: int| stored_egg(id_after(s0.egg_inventory.next_id, i), run.found_eggs@[i]),
            )
            &&& s1.egg_inventory.next_id == id_after(s0.egg_inventory.next_id, taken)
        },
    }
}

/// Coming home brings the run's found eggs into the hatchery, in the order
/// they were found, as far as its room allows (all of them when it has room
/// for all), each a fresh egg with its full incubation; a hatchery within
/// its capacity stays within it, and the run ends.
pub proof fn law_return_brings_eggs_home(s0: GameState, s1: GameState, data: GameData)
    requires
        returned_home(s0, s1, data),
    ensures
        s1.tower_run is None,
        ({
            let run = s0.tower_run.unwrap();
            let cap = spec_egg_capacity(s0.town.spec_building_level("hatchery"@));
            let n0 = s0.egg_inventory.eggs@.len() as int;
            let found = run.found_eggs@.len() as int;
            &&& n0 + found <= cap ==> s1.egg_inventory.eggs@.len() == n0 + found
            &&& n0 <= cap ==> s1.egg_inventory.eggs@.len() <= cap
            &&& s1.egg_inventory.eggs@.len() >= n0
            &&& forall|i: int| 0 <= i < n0 ==> s1.egg_inventory.eggs@[i] == s0.egg_inventory.eggs@[i]
            &&& forall|i: int| n0 <= i < s1.egg_inventory.eggs@.len() ==> {
                let e = #[trigger] s1.egg_inventory.eggs@[i];
                let f = run.found_eggs@[i - n0];
                &&& e.egg_type_id == f.egg_type_id
                &&& e.days_remaining == f.hatch_days
                &&& e.origin_floor == f.origin_floor
                &&& e.care_points == 0 && !e.stabilised && !e.studied && e.inheritance is None
            }
        }),
{
    let run = s0.tower_run.unwrap();
    let n0 = s0.egg_inventory.eggs@.len() as int;
    let taken = eggs_taken(s0, run);
    assert forall|i: int| n0 <= i < s1.egg_inventory.eggs@.len() implies {
        let e = #[trigger] s1.egg_inventory.eggs@[i];
        let f = run.found_eggs@[i - n0];
        &&& e.egg_type_id == f.egg_type_id
        &&& e.days_remaining == f.hatch_days
        &&& e.origin_floor == f.origin_floor
        &&& e.care_points == 0 && !e.stabilised && !e.studied && e.inheritance is None
    } by {
        assert(s1.egg_inventory.eggs@[i] == stored_egg(id_after(s0.egg_inventory.next_id, i - n0), run.found_eggs@[i - n0]));
    }
}

/// What leaving the tower does: cargo and eggs go home, as far as the hatchery holds them.
pub open spec fn return_outcome(old_state: GameState, new_state: GameState, data: GameData, r: TowerResult) -> bool {
    &&& (match old_state.tower_run {
        None => new_state == old_state && plain(r, "No tower run is active. Tap Town to choose a run."@),
        Some(run) => {
            &&& returned_home(old_state, new_state, data)
            &&& new_state.monster_roster == old_state.monster_roster
            &&& new_state.combat == old_state.combat
            &&& r.summary@ == return_line(data, old_state, run)
            &&& new_state.activity_log.entries@ == old_state.activity_log.entries@.push(
                ActivityEntry { day: old_state.day, text: r.summary },
            )
            &&& r.encounter is None
            &&& r.returned_to_town
        },
    })
}

/// Ends the run: progress is recorded, cargo goes to the town's stores, found
/// eggs go to the hatchery as far as it has room, and the trip is logged.
pub fn return_to_town(state: &mut GameState, data: &GameData) -> (r: TowerResult)
    ensures
        return_outcome(*old(state), *final(state), *data, r),
{
    proof { reveal_strlit("hatchery"); }
    let run = match state.tower_run.take() {
        Some(run) => run,
        None => {
            return result_str("No tower run is active. Tap Town to choose a run.");
        },
    };
    let ghost s0 = *old(state);
    record_floor_reached(state, data, run.current_floor);
    crate::state::resources::add_all_stacks(&mut state.resources.stacks, &run.cargo);
    let cap = egg_capacity(state);
    let stored = state.egg_inventory.eggs.len() as u64;
    let room: u64 = if cap > stored { cap - stored } else { 0 };
    let found = run.found_eggs.len();
    let taken: usize = if room < found as u64 { room as usize } else { found };
    let ghost start_eggs = state.egg_inventory.eggs@;
    let ghost start_next = state.egg_inventory.next_id;
    assert(taken == eggs_taken(s0, run));
    let mut j: usize = 0;
    while j < taken
        invariant
            j <= taken,
            taken <= run.found_eggs@.len(),
            state.egg_inventory.eggs@ == start_eggs + Seq::new(
                j as nat,
                |i: int| stored_egg(id_after(start_next, i), run.found_eggs@[i]),
            ),
            state.egg_inventory.next_id == id_after(start_next, j as int),
            state.day == s0.day,
            state.town == s0.town,
            state.activity_log == s0.activity_log,
            state.monster_roster == s0.monster_roster,
            state.tower_run is None,
            state.combat == s0.combat,
            state.story_flags == s0.story_flags,
            state.tower_discoveries == s0.tower_discoveries,
            state.tower_progress == spec_floor_reached(s0.tower_progress, *data, run.current_floor),
            stack_view(state.resources.stacks@) == add_stacks_view(stack_view(s0.resources.stacks@), stack_view(run.cargo@)),
        decreases taken - j,
    {
        let f = &run.found_eggs[j];
        state.egg_inventory.add_egg(f.egg_type_id.clone(), f.hatch_days, f.origin_floor, f.palette_seed);
        proof {
            assert(state.egg_inventory.eggs@.last() == stored_egg(id_after(start_next, j as int), run.found_eggs@[j as int]));
            assert(state.egg_inventory.eggs@ =~= start_eggs + Seq::new(
                (j + 1) as nat,
                |i: int| stored_egg(id_after(start_next, i), run.found_eggs@[i]),
            ));
        }
        j += 1;
    }
    let left = found - taken;
    let mut summary = String::from_str("Returned from floor ");
    let f = decimal_text(run.current_floor as u64);
    summary.append(f.as_str());
    summary.append(" with ");
    let c = cargo_text(data, &run.cargo);
    summary.append(c.as_str());
    summary.append(" and ");
    let t = decimal_text(taken as u64);
    summary.append(t.as_str());
    summary.append(" egg(s).");
    let ghost head = summary@;
    if left > 0 {
        summary.append(" Hatchery capacity left ");
        let l = decimal_text(left as u64);
        summary.append(l.as_str());
        summary.append(" egg(s) behind (");
        let n = decimal_text(state.egg_inventory.eggs.len() as u64);
        summary.append(n.as_str());
        summary.append("/");
        let k = decimal_text(cap);
        summary.append(k.as_str());
        summary.append(").");
    }
    proof {
        if left == 0 {
            assert(head + Seq::<char>::empty() =~= head);
        }
        assert(summary@ =~= return_line(*data, *old(state), run));
    }
    state.activity_log.add(state.day, summary.clone());
    TowerResult { summary, encounter: None, returned_to_town: true }
}

} // verus!
