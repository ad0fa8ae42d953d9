//! Egg care and hatching in the town hatchery.

use vstd::prelude::*;
use crate::arith::{clamp_i32, clamp_u32, sat_add_i32, sat_add_u32};
use crate::data::game_data::GameData;
use crate::data::schema::{Element, MonsterRole, MonsterSpeciesDefinition, EggTypeDefinition, Temperament, PassiveSkill};
use crate::engine::monster_engine::{species_name, species_name_text};
use crate::engine::town_engine::{has_monster_capacity, monster_capacity, spec_monster_capacity};
use crate::state::eggs::{EggCareFocus, EggInheritance, EggInstance, EggInventory};
use crate::state::game::GameState;
use crate::state::keyed::first_numbered;
use crate::state::records::ActivityEntry;
use crate::state::resources::{affordable, cost_for};
use crate::state::roster::{DailyCommitment, MonsterCondition, MonsterInstance, MonsterRoster};
use crate::text::{decimal, decimal_text};

verus! {

/// What an egg action reports.
pub struct EggResult {
    pub summary: String,
}

/// Whether a care action costs one herb.
pub open spec fn needs_herb(focus: EggCareFocus) -> bool {
    focus == EggCareFocus::Warm || focus == EggCareFocus::Soothe || focus == EggCareFocus::Stabilise
}

/// What care of one kind leaves on the egg.
pub open spec fn spec_apply_care(egg: EggInstance, focus: EggCareFocus, day: u32) -> EggInstance {
    EggInstance {
        care_focus: focus,
        care_points: clamp_u32(egg.care_points + 1) as u32,
        last_care_day: day,
        days_remaining: if focus == EggCareFocus::Warm && egg.days_remaining > 0 {
            (egg.days_remaining - 1) as u32
        } else {
            egg.days_remaining
        },
        studied: egg.studied || focus == EggCareFocus::Study,
        stabilised: egg.stabilised || focus == EggCareFocus::Stabilise,
        ..egg
    }
}

/// How the care an egg last received reads.
pub open spec fn spec_care_bonus(egg: EggInstance) -> Seq<char> {
    match egg.care_focus {
        EggCareFocus::Idle => "No care bonus yet."@,
        EggCareFocus::Warm => "Care: warmed; "@ + decimal(egg.days_remaining as nat) + " day(s) remain."@,
        EggCareFocus::Soothe => "Care: soothed; better gentle, loyal, or patient odds."@,
        EggCareFocus::Study => "Care: studied; species and trait hints improved."@,
        EggCareFocus::Stabilise => "Care: stabilised; mutation risk suppressed."@,
    }
}

/// The line that describes the care an egg last received.
pub fn care_bonus(egg: &EggInstance) -> (s: String)
    ensures
        s@ == spec_care_bonus(*egg),
{
    match egg.care_focus {
        EggCareFocus::Idle => String::from_str("No care bonus yet."),
        EggCareFocus::Warm => {
            let mut s = String::from_str("Care: warmed; ");
            let n = decimal_text(egg.days_remaining as u64);
            s.append(n.as_str());
            s.append(" day(s) remain.");
            s
        },
        EggCareFocus::Soothe => String::from_str("Care: soothed; better gentle, loyal, or patient odds."),
        EggCareFocus::Study => String::from_str("Care: studied; species and trait hints improved."),
        EggCareFocus::Stabilise => String::from_str("Care: stabilised; mutation risk suppressed."),
    }
}

fn apply_care(egg: &mut EggInstance, focus: EggCareFocus, day: u32)
    ensures
        *final(egg) == spec_apply_care(*old(egg), focus, day),
{
    egg.care_focus = focus;
    egg.care_points = sat_add_u32(egg.care_points, 1);
    egg.last_care_day = day;
    match focus {
        EggCareFocus::Warm => {
            if egg.days_remaining > 0 {
                egg.days_remaining = egg.days_remaining - 1;
            }
        },
        EggCareFocus::Study => {
            egg.studied = true;
        },
        EggCareFocus::Stabilise => {
            egg.stabilised = true;
        },
        _ => {},
    }
}

/// The entry `seed` picks from `pool`: the seed taken modulo the pool's length.
pub open spec fn pick<T>(seed: u64, pool: Seq<T>) -> Option<T> {
    if pool.len() == 0 { None } else { Some(pool[(seed as int) % (pool.len() as int)]) }
}

fn pick_index(seed: u64, len: usize) -> (r: Option<usize>)
    ensures
        len == 0 ==> r is None,
        len > 0 ==> r == Some(((seed as int) % (len as int)) as usize),
{
    if len == 0 {
        None
    } else {
        Some((seed % (len as u64)) as usize)
    }
}

fn select_by_seed<T: Copy>(seed: u64, values: &Vec<T>) -> (r: Option<T>)
    ensures
        r == pick(seed, values@),
{
    match pick_index(seed, values.len()) {
        Some(i) => Some(values[i]),
        None => None,
    }
}

/// The bits of `x` rotated left by `k` places.
pub open spec fn rotl(x: u64, k: u64) -> u64 {
    (x << k) | (x >> (64 - k) as u64)
}

fn rotate(x: u64, k: u64) -> (r: u64)
    requires
        0 < k < 64,
    ensures
        r == rotl(x, k),
{
    (x << k) | (x >> (64 - k))
}

/// The name list hatchlings are named from.
pub open spec fn hatchling_names() -> Seq<&'static str> {
    seq!["Momo", "Nix", "Tula", "Bramble", "Pico", "Lumi", "Rook", "Fenn", "Saff", "Peb", "Clover", "Kip"]
}

pub open spec fn spec_generated_name(seed: u64) -> Seq<char> {
    hatchling_names()[(seed as int) % 12]@
}

fn generated_name(seed: u64) -> (s: String)
    ensures
        s@ == spec_generated_name(seed),
{
    let names: [&str; 12] = ["Momo", "Nix", "Tula", "Bramble", "Pico", "Lumi", "Rook", "Fenn", "Saff", "Peb", "Clover", "Kip"];
    let i = (seed % 12) as usize;
    proof {
        assert(names@ =~= hatchling_names());
    }
    String::from_str(names[i])
}

/// The egg type's name, or the id itself when no such type is defined.
pub open spec fn egg_type_name(data: GameData, id: Seq<char>) -> Seq<char> {
    match data.spec_egg_type(id) {
        Some(et) => et.name@,
        None => id,
    }
}

/// The line that reports care given to an egg.
pub open spec fn care_line(data: GameData, focus: EggCareFocus, cared: EggInstance) -> Seq<char> {
    focus.spec_label() + " "@ + egg_type_name(data, cared.egg_type_id@) + " #"@ + decimal(cared.id as nat) + ". "@
        + spec_care_bonus(cared)
}

/// The line that refuses care the ledger cannot pay for.
pub open spec fn care_cost_line(data: GameData, focus: EggCareFocus) -> Seq<char> {
    focus.spec_label() + " needs 1 "@ + data.spec_resource_name("herbs"@) + "."@
}

fn egg_type_name_text(data: &GameData, id: &String) -> (s: String)
    ensures
        s@ == egg_type_name(*data, id@),
{
    match data.egg_type(id.as_str()) {
        Some(et) => et.name.clone(),
        None => id.clone(),
    }
}

/// What caring for the egg `egg_id` does, case by case.
pub open spec fn care_outcome(old_state: GameState, new_state: GameState, data: GameData, egg_id: u64, care_focus: EggCareFocus, summary: Seq<char>) -> bool {
    &&& (old_state.town.spec_building_level("hatchery"@) == 0 ==> new_state == old_state
        && summary == "Build the hatchery before caring for eggs."@)
    &&& (old_state.town.spec_building_level("hatchery"@) != 0 ==> match first_numbered(old_state.egg_inventory.eggs@, egg_id) {
        None => new_state == old_state && summary == "That egg is no longer in the hatchery."@,
        Some(i) => {
            let egg = old_state.egg_inventory.eggs@[i];
            if egg.last_care_day == old_state.day {
                new_state == old_state && summary == "That egg has already received care today."@
            } else if care_focus == EggCareFocus::Warm && egg.days_remaining == 0 {
                new_state == old_state && summary == "That egg is already ready to hatch."@
            } else if needs_herb(care_focus) && old_state.resources.spec_amount("herbs"@) < 1 {
                new_state == old_state && summary == care_cost_line(data, care_focus)
            } else {
                let cared = spec_apply_care(egg, care_focus, old_state.day);
                &&& summary == care_line(data, care_focus, cared)
                &&& new_state.egg_inventory.eggs@ == old_state.egg_inventory.eggs@.update(i, cared)
                &&& new_state.egg_inventory.next_id == old_state.egg_inventory.next_id
                &&& forall|k: Seq<char>| #[trigger] new_state.resources.spec_amount(k) == old_state.resources.spec_amount(k)
                    - if needs_herb(care_focus) && k == "herbs"@ { 1int } else { 0int }
                &&& new_state.activity_log.entries@ == old_state.activity_log.entries@.push(
                    ActivityEntry { day: old_state.day, text: new_state.activity_log.entries@.last().text })
                &&& new_state.activity_log.entries@.last().text@ == summary
                &&& new_state == (GameState {
                    resources: new_state.resources,
                    egg_inventory: new_state.egg_inventory,
                    activity_log: new_state.activity_log,
                    ..old_state
                })
            }
        },
    })
}

/// Care is given exactly when the hatchery stands, the egg is in it, it has
/// not been cared for today, it is not a ready egg asked to be warmed, and a
/// herb is at hand for the kinds of care that cost one; otherwise nothing
/// changes.
pub proof fn law_care_given_when(s0: GameState, s1: GameState, data: GameData, egg_id: u64, focus: EggCareFocus, summary: Seq<char>)
    requires
        care_outcome(s0, s1, data, egg_id, focus, summary),
    ensures
        ({
            let ok = s0.town.spec_building_level("hatchery"@) != 0
                && (first_numbered(s0.egg_inventory.eggs@, egg_id) matches Some(i) && {
                    let egg = s0.egg_inventory.eggs@[i];
                    &&& egg.last_care_day != s0.day
                    &&& !(focus == EggCareFocus::Warm && egg.days_remaining == 0)
                    &&& ((focus == EggCareFocus::Warm || focus == EggCareFocus::Soothe || focus == EggCareFocus::Stabilise)
                        ==> s0.resources.spec_amount("herbs"@) >= 1)
                });
            &&& !ok ==> s1 == s0
            &&& ok ==> (first_numbered(s0.egg_inventory.eggs@, egg_id) matches Some(i)
                && s1.egg_inventory.eggs@ == s0.egg_inventory.eggs@.update(i, spec_apply_care(s0.egg_inventory.eggs@[i], focus, s0.day)))
        }),
{
}

/// Gives the egg `egg_id` one day's care of the chosen kind. Warm, Soothe and
/// Stabilise cost one herb; an egg takes care once a day, and a ready egg
/// needs no warming.
pub fn care_for_egg(state: &mut GameState, data: &GameData, egg_id: u64, care_focus: EggCareFocus) -> (r: EggResult)
    ensures
        care_outcome(*old(state), *final(state), *data, egg_id, care_focus, r.summary@),
{
    proof {
        reveal_strlit("hatchery");
        reveal_strlit("herbs");
    }
    if state.town.building_level("hatchery") == 0 {
        return EggResult { summary: String::from_str("Build the hatchery before caring for eggs.") };
    }
    let i = match state.egg_inventory.position(egg_id) {
        Some(i) => i,
        None => {
            return EggResult { summary: String::from_str("That egg is no longer in the hatchery.") };
        },
    };
    if state.egg_inventory.eggs[i].last_care_day == state.day {
        return EggResult { summary: String::from_str("That egg has already received care today.") };
    }
    if care_focus == EggCareFocus::Warm && state.egg_inventory.eggs[i].days_remaining == 0 {
        return EggResult { summary: String::from_str("That egg is already ready to hatch.") };
    }
    let needs = care_focus == EggCareFocus::Warm || care_focus == EggCareFocus::Soothe
        || care_focus == EggCareFocus::Stabilise;
    if needs && state.resources.amount("herbs") < 1 {
        let mut s = String::from_str(care_focus.label());
        s.append(" needs 1 ");
        s.append(data.resource_name("herbs"));
        s.append(".");
        return EggResult { summary: s };
    }
    if needs {
        let cost: Vec<(String, i32)> = vec![(String::from_str("herbs"), 1i32)];
        let ghost before = state.resources;
        let paid = state.resources.spend(cost.as_slice());
        proof {
            assert(cost@.len() == 1);
            assert(cost@[0].0@ == "herbs"@);
            assert(affordable(before.stacks@, cost@));
            assert(cost@.drop_last() =~= Seq::<(String, i32)>::empty());
            assert forall|k: Seq<char>| cost_for(cost@, k) == if k == "herbs"@ { 1int } else { 0int } by {
                assert(cost@.last() == cost@[0]);
                assert(cost_for(cost@.drop_last(), k) == 0);
            }
        }
    }
    let day = state.day;
    let mut egg = state.egg_inventory.eggs.remove(i);
    apply_care(&mut egg, care_focus, day);
    let mut s = String::from_str(care_focus.label());
    s.append(" ");
    let name = egg_type_name_text(data, &egg.egg_type_id);
    s.append(name.as_str());
    s.append(" #");
    let n = decimal_text(egg.id);
    s.append(n.as_str());
    s.append(". ");
    let bonus = care_bonus(&egg);
    s.append(bonus.as_str());
    state.egg_inventory.eggs.insert(i, egg);
    proof {
        assert(state.egg_inventory.eggs@ =~= old(state).egg_inventory.eggs@.update(i as int, egg));
    }
    let summary = s.clone();
    state.activity_log.add(day, s);
    EggResult { summary }
}

/// What one day's care does to an egg, by kind: warming takes a day off its
/// incubation (none once it is ready), studying marks it studied,
/// stabilising marks it stabilised so that no tower mutation stays active
/// in it, and soothing changes neither; every kind records the care, counts
/// one more point of it, and leaves the egg's id, type and lineage alone.
pub proof fn law_care_effects(egg: EggInstance, focus: EggCareFocus, day: u32)
    ensures
        ({
            let cared = spec_apply_care(egg, focus, day);
            &&& cared.stabilised == (egg.stabilised || focus == EggCareFocus::Stabilise)
            &&& cared.studied == (egg.studied || focus == EggCareFocus::Study)
            &&& focus == EggCareFocus::Stabilise ==> !mutation_active(cared)
            &&& cared.days_remaining == if focus == EggCareFocus::Warm && egg.days_remaining > 0 {
                egg.days_remaining - 1
            } else {
                egg.days_remaining as int
            }
            &&& cared.care_focus == focus
            &&& cared.last_care_day == day
            &&& (egg.care_points < u32::MAX ==> cared.care_points == egg.care_points + 1)
            &&& cared.id == egg.id
            &&& cared.egg_type_id == egg.egg_type_id
            &&& cared.inheritance == egg.inheritance
        }),
{
}

/// Stabilising care that is given leaves the egg stabilised, so its tower

/// An egg whose tower mutation is active (bred with a mutation and never
/// stabilised) hatches the first of its species options, the mutation's
/// species, and draws its traits from a fixed seed; an egg without one, a
/// stabilised egg among them, draws its species from its own palette seed.
pub proof fn law_mutation_decides_hatchling(egg: EggInstance, et: EggTypeDefinition)
    ensures
        mutation_active(egg) <==> (egg.inheritance matches Some(inh) && inh.mutated && !egg.stabilised),
        mutation_active(egg) && species_pool(egg, et).len() > 0
            ==> pick(species_seed(egg), species_pool(egg, et)) == Some(species_pool(egg, et)[0]),
        mutation_active(egg) ==> trait_seed(egg) == 0,
        !mutation_active(egg) ==> species_seed(egg) == egg.palette_seed && trait_seed(egg) == hatch_seed(egg),
        egg.stabilised ==> !mutation_active(egg),
{
}

/// mutation no longer takes effect when it hatches.
pub proof fn law_stabilise_care_suppresses_mutation(
    s0: GameState,
    s1: GameState,
    data: GameData,
    egg_id: u64,
    summary: Seq<char>,
)
    requires
        care_outcome(s0, s1, data, egg_id, EggCareFocus::Stabilise, summary),
        s1 != s0,
    ensures
        first_numbered(s1.egg_inventory.eggs@, egg_id) matches Some(i) && {
            let egg = s1.egg_inventory.eggs@[i];
            &&& egg.stabilised
            &&& !mutation_active(egg)
            &&& egg.inheritance == s0.egg_inventory.eggs@[i].inheritance
        },
{
    crate::state::keyed::lemma_first_numbered(s0.egg_inventory.eggs@, egg_id);
    let i = first_numbered(s0.egg_inventory.eggs@, egg_id).unwrap();
    let egg = s0.egg_inventory.eggs@[i];
    let cared = spec_apply_care(egg, EggCareFocus::Stabilise, s0.day);
    crate::state::keyed::lemma_first_numbered_update(s0.egg_inventory.eggs@, i, cared, egg_id);
    assert(s1.egg_inventory.eggs@[i] == cared);
}

/// Whether a bred egg still carries an unstabilised tower mutation.
pub open spec fn mutation_active(egg: EggInstance) -> bool {
    egg.inheritance matches Some(inh) && inh.mutated && !egg.stabilised
}

/// The species a hatching egg chooses from: the inherited options when there
/// are any, otherwise the egg type's list.
pub open spec fn species_pool(egg: EggInstance, et: EggTypeDefinition) -> Seq<String> {
    match egg.inheritance {
        Some(inh) => if inh.species_options@.len() > 0 { inh.species_options@ } else { et.possible_species@ },
        None => et.possible_species@,
    }
}

pub open spec fn element_pool(egg: EggInstance, et: EggTypeDefinition) -> Seq<Element> {
    match egg.inheritance {
        Some(inh) => if inh.element_options@.len() > 0 { inh.element_options@ } else { et.element_bias@ },
        None => et.element_bias@,
    }
}

pub open spec fn temperament_pool(egg: EggInstance, et: EggTypeDefinition) -> Seq<Temperament> {
    match egg.inheritance {
        Some(inh) => if inh.temperament_options@.len() > 0 { inh.temperament_options@ } else { et.temperament_bias@ },
        None => et.temperament_bias@,
    }
}

/// The seed that picks the species: none at all while a mutation is active.
pub open spec fn species_seed(egg: EggInstance) -> u64 {
    if mutation_active(egg) { 0 } else { egg.palette_seed }
}

/// The seed a hatchling is named and drawn from.
pub open spec fn hatch_seed(egg: EggInstance) -> u64 {
    egg.palette_seed ^ (egg.id << 16u64) ^ 0xA7C4u64
}

/// The seed its traits are drawn from.
pub open spec fn trait_seed(egg: EggInstance) -> u64 {
    if mutation_active(egg) { 0 } else { hatch_seed(egg) }
}

/// The temperaments soothing care leans towards.
pub open spec fn soothed_temperaments() -> Seq<Temperament> {
    seq![Temperament::Gentle, Temperament::Loyal, Temperament::Patient]
}

/// The stat bonus of a lineage: one less than its quality, at most four.
pub open spec fn lineage_bonus(quality: u32) -> int {
    if quality <= 1 { 0 } else if quality - 1 > 4 { 4 } else { quality - 1 }
}

/// A hatchling strengthened by its lineage: bond and health rise by the bonus,
/// and so does the stat of its role (health again for supports); it starts
/// fully healed.
pub open spec fn spec_lineage(m: MonsterInstance, quality: u32) -> MonsterInstance {
    let b = lineage_bonus(quality);
    if b == 0 {
        m
    } else {
        let max_hp = clamp_i32(m.max_hp + b) as i32;
        let m1 = MonsterInstance { bond: clamp_u32(m.bond + b) as u32, max_hp, ..m };
        let m2 = match m.role {
            MonsterRole::Scout => MonsterInstance { speed: clamp_i32(m.speed + b) as i32, ..m1 },
            MonsterRole::Tank => MonsterInstance { defense: clamp_i32(m.defense + b) as i32, ..m1 },
            MonsterRole::Support => MonsterInstance { max_hp: clamp_i32(max_hp + b) as i32, ..m1 },
            MonsterRole::Striker => MonsterInstance { attack: clamp_i32(m.attack + b) as i32, ..m1 },
        };
        MonsterInstance { hp: m2.max_hp, ..m2 }
    }
}

/// A hatchling's lineage bonus is its quality less one, at most four (none
/// for a plain lineage): it adds that much bond and max HP, and that much
/// again to the role's strength (speed for a scout, defense for a tank, max
/// HP for a support, attack for a striker), and the hatchling starts at full
/// health.
pub proof fn law_lineage_bonus(m: MonsterInstance, quality: u32)
    requires
        0 <= m.max_hp <= 1000000, 0 <= m.attack <= 1000000, 0 <= m.defense <= 1000000, 0 <= m.speed <= 1000000,
        m.bond <= 1000000,
    ensures
        ({
            let b: int = if quality <= 1 { 0 } else if quality - 1 > 4 { 4 } else { quality - 1 };
            let r = spec_lineage(m, quality);
            &&& b == 0 ==> r == m
            &&& b > 0 ==> {
                &&& r.bond == m.bond + b
                &&& r.max_hp == m.max_hp + b + if m.role == MonsterRole::Support { b } else { 0 }
                &&& r.hp == r.max_hp
                &&& r.speed == m.speed + if m.role == MonsterRole::Scout { b } else { 0 }
                &&& r.defense == m.defense + if m.role == MonsterRole::Tank { b } else { 0 }
                &&& r.attack == m.attack + if m.role == MonsterRole::Striker { b } else { 0 }
                &&& r.id == m.id && r.species_id == m.species_id && r.level == m.level
            }
        }),
{
}

fn apply_lineage_quality(m: MonsterInstance, quality: u32) -> (r: MonsterInstance)
    ensures
        r == spec_lineage(m, quality),
{
    let bonus: i32 = if quality <= 1 { 0 } else if quality - 1 > 4 { 4 } else { (quality - 1) as i32 };
    if bonus == 0 {
        return m;
    }
    let max_hp = sat_add_i32(m.max_hp, bonus);
    let m1 = MonsterInstance { bond: sat_add_u32(m.bond, bonus as u32), max_hp, ..m };
    let m2 = match m1.role {
        MonsterRole::Scout => {
            let speed = sat_add_i32(m1.speed, bonus);
            MonsterInstance { speed, ..m1 }
        },
        MonsterRole::Tank => {
            let defense = sat_add_i32(m1.defense, bonus);
            MonsterInstance { defense, ..m1 }
        },
        MonsterRole::Support => {
            let hp = sat_add_i32(max_hp, bonus);
            MonsterInstance { max_hp: hp, ..m1 }
        },
        MonsterRole::Striker => {
            let attack = sat_add_i32(m1.attack, bonus);
            MonsterInstance { attack, ..m1 }
        },
    };
    let hp = m2.max_hp;
    MonsterInstance { hp, ..m2 }
}

/// A freshly hatched monster after its egg's traits are drawn: element and
/// temperament from the pools, a soothed egg's temperament from the gentle
/// three, and a bred egg's passive and lineage bonus.
pub open spec fn spec_hatchling(base: MonsterInstance, egg: EggInstance, et: EggTypeDefinition) -> MonsterInstance {
    let ts = trait_seed(egg);
    let m1 = match pick(ts, element_pool(egg, et)) {
        Some(e) => MonsterInstance { element: e, ..base },
        None => base,
    };
    let m2 = match pick(rotl(ts, 7), temperament_pool(egg, et)) {
        Some(t) => MonsterInstance { temperament: t, ..m1 },
        None => m1,
    };
    let m3 = if egg.care_focus == EggCareFocus::Soothe && egg.care_points > 0 {
        MonsterInstance { temperament: soothed_temperaments()[(rotl(ts, 19) as int) % 3], ..m2 }
    } else {
        m2
    };
    match egg.inheritance {
        Some(inh) => {
            let m4 = match pick(rotl(ts, 13), inh.passive_options@) {
                Some(p) => MonsterInstance { passive: p, ..m3 },
                None => m3,
            };
            spec_lineage(m4, inh.lineage_quality)
        },
        None => m3,
    }
}

fn element_choices<'a>(egg: &'a EggInstance, et: &'a EggTypeDefinition) -> (r: &'a Vec<Element>)
    ensures
        r@ == element_pool(*egg, *et),
{
    match &egg.inheritance {
        Some(inh) => if inh.element_options.len() > 0 { &inh.element_options } else { &et.element_bias },
        None => &et.element_bias,
    }
}

fn temperament_choices<'a>(egg: &'a EggInstance, et: &'a EggTypeDefinition) -> (r: &'a Vec<Temperament>)
    ensures
        r@ == temperament_pool(*egg, *et),
{
    match &egg.inheritance {
        Some(inh) => if inh.temperament_options.len() > 0 { &inh.temperament_options } else { &et.temperament_bias },
        None => &et.temperament_bias,
    }
}

fn species_choices<'a>(egg: &'a EggInstance, et: &'a EggTypeDefinition) -> (r: &'a Vec<String>)
    ensures
        r@ == species_pool(*egg, *et),
{
    match &egg.inheritance {
        Some(inh) => if inh.species_options.len() > 0 { &inh.species_options } else { &et.possible_species },
        None => &et.possible_species,
    }
}

fn is_mutation_active(egg: &EggInstance) -> (r: bool)
    ensures
        r == mutation_active(*egg),
{
    match &egg.inheritance {
        Some(inh) => inh.mutated && !egg.stabilised,
        None => false,
    }
}

fn shape_hatchling(base: MonsterInstance, egg: &EggInstance, et: &EggTypeDefinition) -> (r: MonsterInstance)
    ensures
        r == spec_hatchling(base, *egg, *et),
{
    let ts: u64 = if is_mutation_active(egg) { 0 } else { egg.palette_seed ^ (egg.id << 16u64) ^ 0xA7C4u64 };
    let mut m = base;
    match select_by_seed(ts, element_choices(egg, et)) {
        Some(e) => {
            m = MonsterInstance { element: e, ..m };
        },
        None => {},
    }
    match select_by_seed(rotate(ts, 7), temperament_choices(egg, et)) {
        Some(t) => {
            m = MonsterInstance { temperament: t, ..m };
        },
        None => {},
    }
    if egg.care_focus == EggCareFocus::Soothe && egg.care_points > 0 {
        let soothed: Vec<Temperament> = vec![Temperament::Gentle, Temperament::Loyal, Temperament::Patient];
        proof {
            assert(soothed@ =~= soothed_temperaments());
        }
        match select_by_seed(rotate(ts, 19), &soothed) {
            Some(t) => {
                m = MonsterInstance { temperament: t, ..m };
            },
            None => {},
        }
    }
    match &egg.inheritance {
        Some(inh) => {
            match select_by_seed(rotate(ts, 13), &inh.passive_options) {
                Some(p) => {
                    m = MonsterInstance { passive: p, ..m };
                },
                None => {},
            }
            apply_lineage_quality(m, inh.lineage_quality)
        },
        None => m,
    }
}

/// The note a hatching adds about the egg's lineage.
pub open spec fn lineage_note(egg: EggInstance) -> Seq<char> {
    if (egg.inheritance matches Some(inh) && inh.mutated) && egg.stabilised {
        " Care stabilised its tower mutation."@
    } else if mutation_active(egg) {
        " A tower-borne mutation shows in its markings."@
    } else if egg.inheritance is Some {
        " Its inherited traits carried through."@
    } else {
        ""@
    }
}

fn lineage_note_text(egg: &EggInstance) -> (s: &'static str)
    ensures
        s@ == lineage_note(*egg),
{
    let mutated = match &egg.inheritance {
        Some(inh) => inh.mutated,
        None => false,
    };
    if mutated && egg.stabilised {
        " Care stabilised its tower mutation."
    } else if is_mutation_active(egg) {
        " A tower-borne mutation shows in its markings."
    } else if egg.inheritance.is_some() {
        " Its inherited traits carried through."
    } else {
        ""
    }
}

/// A level-one monster of `species`, as the roster first records it.
pub open spec fn fresh_monster(id: u64, name: String, species_id: String, species: MonsterSpeciesDefinition, seed: u64) -> MonsterInstance {
    MonsterInstance {
        id,
        name,
        species_id,
        element: species.element,
        temperament: species.temperament,
        role: species.role,
        passive: species.passive,
        town_skill: species.town_skill,
        level: 1,
        xp: 0,
        hp: species.base_hp,
        max_hp: species.base_hp,
        attack: species.base_attack,
        defense: species.base_defense,
        speed: species.base_speed,
        bond: 1,
        visual_seed: seed,
        condition: MonsterCondition { fatigue: 0, injury_days: 0, commitment: DailyCommitment::Free },
    }
}

/// A hatchling joins the roster fresh: level one, no experience, no fatigue
/// or injury, free for the day, at full health, of the species the egg
/// yields, and with at least one bond.
pub proof fn law_fresh_hatchling(base: MonsterInstance, egg: EggInstance, et: EggTypeDefinition, id: u64, name: String, species_id: String, sp: MonsterSpeciesDefinition, seed: u64)
    requires
        0 <= sp.base_hp <= 1000000, 0 <= sp.base_attack <= 1000000, 0 <= sp.base_defense <= 1000000, 0 <= sp.base_speed <= 1000000,
    ensures
        ({
            let m = spec_hatchling(fresh_monster(id, name, species_id, sp, seed), egg, et);
            &&& m.id == id
            &&& m.species_id == species_id
            &&& m.level == 1 && m.xp == 0
            &&& m.condition.fatigue == 0 && m.condition.injury_days == 0
            &&& m.condition.commitment == DailyCommitment::Free
            &&& m.hp == m.max_hp
            &&& m.bond >= 1
            &&& m.max_hp >= sp.base_hp
        }),
{
}

/// The line that refuses a hatching for want of stable room.
pub open spec fn stable_full_line(current: nat, capacity: nat) -> Seq<char> {
    "Stable capacity is full ("@ + decimal(current) + "/"@ + decimal(capacity)
        + "). Build or upgrade the Stable before hatching."@
}

pub open spec fn hatch_line(et: EggTypeDefinition, name: Seq<char>, species: MonsterSpeciesDefinition, egg: EggInstance) -> Seq<char> {
    et.name@ + " hatched into "@ + name + " the "@ + species.name@ + "."@ + lineage_note(egg)
}

/// What hatching an egg already taken from the hatchery leaves: nothing
/// changes where its type, its species choice or that species is missing.
pub open spec fn hatched(old_state: GameState, new_state: GameState, data: GameData, egg: EggInstance, summary: Seq<char>) -> bool {
    match data.spec_egg_type(egg.egg_type_id@) {
        None => new_state == old_state && summary == "Missing egg definition '"@ + egg.egg_type_id@ + "'."@,
        Some(et) => match pick(species_seed(egg), species_pool(egg, et)) {
            None => new_state == old_state && summary == et.name@ + " has no possible species."@,
            Some(sid) => match data.spec_species(sid@) {
                None => new_state == old_state && summary == "Missing species definition '"@ + sid@ + "'."@,
                Some(sp) => {
                    let old_roster = old_state.monster_roster;
                    let m = new_state.monster_roster.monsters@.last();
                    &&& new_state.monster_roster.monsters@ == old_roster.monsters@.push(m)
                    &&& m.name@ == spec_generated_name(hatch_seed(egg))
                    &&& m.species_id@ == sp.id@
                    &&& m == spec_hatchling(fresh_monster(old_roster.next_id, m.name, m.species_id, sp, hatch_seed(egg)), egg, et)
                    &&& new_state.monster_roster.party_slots == old_roster.party_slots
                    &&& new_state.monster_roster.next_id == if old_roster.next_id == u64::MAX { u64::MAX } else { (old_roster.next_id + 1) as u64 }
                    &&& summary == hatch_line(et, m.name@, sp, egg)
                    &&& new_state.activity_log.entries@ == old_state.activity_log.entries@.push(
                        ActivityEntry { day: old_state.day, text: new_state.activity_log.entries@.last().text })
                    &&& new_state.activity_log.entries@.last().text@ == summary
                    &&& new_state == (GameState {
                        monster_roster: new_state.monster_roster,
                        activity_log: new_state.activity_log,
                        ..old_state
                    })
                },
            },
        },
    }
}

/// Adds the hatchling of `egg` of type `et` and species `sp` to the roster.
fn add_hatchling(roster: &mut MonsterRoster, sp: &MonsterSpeciesDefinition, egg: &EggInstance, et: &EggTypeDefinition)
    ensures
        ({
            let m = final(roster).monsters@.last();
            &&& final(roster).monsters@ == old(roster).monsters@.push(m)
            &&& m.name@ == spec_generated_name(hatch_seed(*egg))
            &&& m.species_id@ == sp.id@
            &&& m == spec_hatchling(fresh_monster(old(roster).next_id, m.name, m.species_id, *sp, hatch_seed(*egg)), *egg, *et)
            &&& final(roster).party_slots == old(roster).party_slots
            &&& final(roster).next_id == if old(roster).next_id == u64::MAX { u64::MAX } else { (old(roster).next_id + 1) as u64 }
        }),
{
    let seed: u64 = egg.palette_seed ^ (egg.id << 16u64) ^ 0xA7C4u64;
    let name = generated_name(seed);
    roster.add_monster(name, sp, seed);
    let base = roster.monsters.pop().unwrap();
    proof {
        assert(base == fresh_monster(old(roster).next_id, base.name, base.species_id, *sp, seed));
    }
    let hatchling = shape_hatchling(base, egg, et);
    roster.monsters.push(hatchling);
    proof {
        assert(roster.monsters@ =~= old(roster).monsters@.push(hatchling));
    }
}

fn hatch_taken_egg(state: &mut GameState, data: &GameData, egg: EggInstance) -> (r: EggResult)
    ensures
        hatched(*old(state), *final(state), *data, egg, r.summary@),
{
    let et = match data.egg_type(egg.egg_type_id.as_str()) {
        Some(et) => et,
        None => {
            let mut s = String::from_str("Missing egg definition '");
            s.append(egg.egg_type_id.as_str());
            s.append("'.");
            return EggResult { summary: s };
        },
    };
    let sseed: u64 = if is_mutation_active(&egg) { 0 } else { egg.palette_seed };
    let pool = species_choices(&egg, et);
    let k = match pick_index(sseed, pool.len()) {
        Some(k) => k,
        None => {
            let mut s = et.name.clone();
            s.append(" has no possible species.");
            return EggResult { summary: s };
        },
    };
    let sid = &pool[k];
    let sp = match data.species(sid.as_str()) {
        Some(sp) => sp,
        None => {
            let mut s = String::from_str("Missing species definition '");
            s.append(sid.as_str());
            s.append("'.");
            return EggResult { summary: s };
        },
    };
    add_hatchling(&mut state.monster_roster, sp, &egg, et);
    let m = state.monster_roster.monsters.last().unwrap();
    let mut s = et.name.clone();
    s.append(" hatched into ");
    s.append(m.name.as_str());
    s.append(" the ");
    s.append(sp.name.as_str());
    s.append(".");
    s.append(lineage_note_text(&egg));
    let summary = s.clone();
    state.activity_log.add(state.day, s);
    EggResult { summary }
}

/// What hatching the egg `egg_id` does, case by case.
pub open spec fn hatch_outcome(old_state: GameState, new_state: GameState, data: GameData, egg_id: u64, summary: Seq<char>) -> bool {
    &&& (old_state.town.spec_building_level("hatchery"@) == 0 ==> new_state == old_state
        && summary == "Build the hatchery before hatching eggs."@)
    &&& (old_state.town.spec_building_level("hatchery"@) != 0 ==> match first_numbered(old_state.egg_inventory.eggs@, egg_id) {
        None => new_state == old_state && summary == "That egg is no longer in the hatchery."@,
        Some(i) => {
            let egg = old_state.egg_inventory.eggs@[i];
            let current = old_state.monster_roster.monsters@.len();
            let capacity = spec_monster_capacity(old_state.town.spec_building_level("stable"@));
            if egg.days_remaining > 0 {
                new_state == old_state
                    && summary == "That egg needs "@ + decimal(egg.days_remaining as nat) + " more day(s)."@
            } else if current >= capacity {
                new_state == old_state && summary == stable_full_line(current, capacity as nat)
            } else {
                let taken = GameState {
                    egg_inventory: EggInventory { eggs: new_state.egg_inventory.eggs, ..old_state.egg_inventory },
                    ..old_state
                };
                &&& new_state.egg_inventory.eggs@ == old_state.egg_inventory.eggs@.remove(i)
                &&& hatched(taken, new_state, data, egg, summary)
            }
        },
    })
}

/// Hatches the ready egg `egg_id` into a new monster when the stable has room.
/// The egg leaves the hatchery once the checks on the hatchery, the egg and
/// the stable pass, even where its definition turns out to be missing.
pub fn hatch_egg(state: &mut GameState, data: &GameData, egg_id: u64) -> (r: EggResult)
    ensures
        hatch_outcome(*old(state), *final(state), *data, egg_id, r.summary@),
{
    proof {
        reveal_strlit("hatchery");
    }
    if state.town.building_level("hatchery") == 0 {
        return EggResult { summary: String::from_str("Build the hatchery before hatching eggs.") };
    }
    let i = match state.egg_inventory.position(egg_id) {
        Some(i) => i,
        None => {
            return EggResult { summary: String::from_str("That egg is no longer in the hatchery.") };
        },
    };
    let days = state.egg_inventory.eggs[i].days_remaining;
    if days > 0 {
        let mut s = String::from_str("That egg needs ");
        let n = decimal_text(days as u64);
        s.append(n.as_str());
        s.append(" more day(s).");
        return EggResult { summary: s };
    }
    if !has_monster_capacity(state) {
        let current = state.monster_roster.monsters.len();
        let capacity = monster_capacity(state);
        let mut s = String::from_str("Stable capacity is full (");
        let a = decimal_text(current as u64);
        s.append(a.as_str());
        s.append("/");
        let b = decimal_text(capacity);
        s.append(b.as_str());
        s.append("). Build or upgrade the Stable before hatching.");
        return EggResult { summary: s };
    }
    let egg = state.egg_inventory.eggs.remove(i);
    hatch_taken_egg(state, data, egg)
}

/// The first two entries of a list joined with `sep`.
pub open spec fn first_two(names: Seq<Seq<char>>, sep: Seq<char>) -> Seq<char> {
    if names.len() == 0 {
        ""@
    } else if names.len() == 1 {
        names[0]
    } else {
        names[0] + sep + names[1]
    }
}

pub open spec fn element_labels(es: Seq<Element>) -> Seq<Seq<char>> {
    es.map_values(|e: Element| e.spec_label())
}

pub open spec fn temperament_labels(ts: Seq<Temperament>) -> Seq<Seq<char>> {
    ts.map_values(|t: Temperament| t.spec_label())
}

pub open spec fn species_names(data: GameData, ids: Seq<String>) -> Seq<Seq<char>> {
    ids.map_values(|id: String| species_name(data, id@))
}

fn element_pair(es: &Vec<Element>) -> (s: String)
    ensures
        s@ == first_two(element_labels(es@), "/"@),
{
    proof {
        reveal_strlit("");
        assert(element_labels(es@).len() == es@.len());
    }
    if es.len() == 0 {
        String::new()
    } else if es.len() == 1 {
        String::from_str(es[0].label())
    } else {
        let mut s = String::from_str(es[0].label());
        s.append("/");
        s.append(es[1].label());
        s
    }
}

fn temperament_pair(ts: &Vec<Temperament>) -> (s: String)
    ensures
        s@ == first_two(temperament_labels(ts@), "/"@),
{
    proof {
        reveal_strlit("");
        assert(temperament_labels(ts@).len() == ts@.len());
    }
    if ts.len() == 0 {
        String::new()
    } else if ts.len() == 1 {
        String::from_str(ts[0].label())
    } else {
        let mut s = String::from_str(ts[0].label());
        s.append("/");
        s.append(ts[1].label());
        s
    }
}

fn species_pair(data: &GameData, ids: &Vec<String>) -> (s: String)
    ensures
        s@ == first_two(species_names(*data, ids@), " / "@),
{
    proof {
        reveal_strlit("");
        assert(species_names(*data, ids@).len() == ids@.len());
    }
    if ids.len() == 0 {
        String::new()
    } else if ids.len() == 1 {
        species_name_text(data, &ids[0])
    } else {
        let mut s = species_name_text(data, &ids[0]);
        s.append(" / ");
        let b = species_name_text(data, &ids[1]);
        s.append(b.as_str());
        s
    }
}

/// The species an egg may hatch into: its inherited options when it has any,
/// otherwise its type's list; none when its type is unknown.
pub open spec fn likely_options(egg: EggInstance, data: GameData) -> Option<Seq<String>> {
    if egg.inheritance matches Some(inh) && inh.species_options@.len() > 0 {
        Some(egg.inheritance->Some_0.species_options@)
    } else {
        match data.spec_egg_type(egg.egg_type_id@) {
            Some(et) => Some(et.possible_species@),
            None => None,
        }
    }
}

pub open spec fn spec_likely_species_text(egg: EggInstance, data: GameData) -> Seq<char> {
    match likely_options(egg, data) {
        None => "Likely: unknown"@,
        Some(ids) => "Likely: "@ + first_two(species_names(data, ids), " / "@),
    }
}

/// The first two species an egg may hatch into, by name.
pub fn likely_species_text(egg: &EggInstance, data: &GameData) -> (s: String)
    ensures
        s@ == spec_likely_species_text(*egg, *data),
{
    let ids: &Vec<String> = match &egg.inheritance {
        Some(inh) if inh.species_options.len() > 0 => &inh.species_options,
        _ => match data.egg_type(egg.egg_type_id.as_str()) {
            Some(et) => &et.possible_species,
            None => {
                return String::from_str("Likely: unknown");
            },
        },
    };
    let mut s = String::from_str("Likely: ");
    let names = species_pair(data, ids);
    s.append(names.as_str());
    s
}

pub open spec fn mutation_mark(egg: EggInstance, inh: EggInheritance) -> Seq<char> {
    if inh.mutated && !egg.stabilised {
        "  Mutation risk"@
    } else if inh.mutated {
        "  Stabilised"@
    } else {
        ""@
    }
}

pub open spec fn spec_trait_preview_text(egg: EggInstance, data: GameData) -> Seq<char> {
    match egg.inheritance {
        Some(inh) => "Traits: "@ + first_two(element_labels(inh.element_options@), "/"@) + " "@
            + first_two(temperament_labels(inh.temperament_options@), "/"@) + mutation_mark(egg, inh),
        None => if !egg.studied {
            "Traits: study for hints"@
        } else {
            match data.spec_egg_type(egg.egg_type_id@) {
                None => "Traits: unknown"@,
                Some(et) => "Traits: "@ + first_two(element_labels(et.element_bias@), "/"@) + " "@
                    + first_two(temperament_labels(et.temperament_bias@), "/"@),
            }
        },
    }
}

/// The traits an egg hints at: what it inherited, or once studied, its type's
/// leanings.
pub fn trait_preview_text(egg: &EggInstance, data: &GameData) -> (s: String)
    ensures
        s@ == spec_trait_preview_text(*egg, *data),
{
    if !egg.studied && egg.inheritance.is_none() {
        return String::from_str("Traits: study for hints");
    }
    match &egg.inheritance {
        Some(inh) => {
            let mut s = String::from_str("Traits: ");
            let e = element_pair(&inh.element_options);
            s.append(e.as_str());
            s.append(" ");
            let t = temperament_pair(&inh.temperament_options);
            s.append(t.as_str());
            let mark = if inh.mutated && !egg.stabilised {
                "  Mutation risk"
            } else if inh.mutated {
                "  Stabilised"
            } else {
                ""
            };
            s.append(mark);
            s
        },
        None => match data.egg_type(egg.egg_type_id.as_str()) {
            None => String::from_str("Traits: unknown"),
            Some(et) => {
                let mut s = String::from_str("Traits: ");
                let e = element_pair(&et.element_bias);
                s.append(e.as_str());
                s.append(" ");
                let t = temperament_pair(&et.temperament_bias);
                s.append(t.as_str());
                s
            },
        },
    }
}

/// Hatching never overfills the stable: a roster within the stable's
/// capacity stays within it.
pub proof fn law_hatching_respects_stable(old_state: GameState, new_state: GameState, data: GameData, egg_id: u64, summary: Seq<char>)
    requires
        hatch_outcome(old_state, new_state, data, egg_id, summary),
        old_state.monster_roster.monsters@.len() <= spec_monster_capacity(old_state.town.spec_building_level("stable"@)),
    ensures
        new_state.town == old_state.town,
        new_state.monster_roster.monsters@.len() <= spec_monster_capacity(new_state.town.spec_building_level("stable"@)),
{
}

/// Only a ready egg hatches: while it needs more days, hatching changes
/// nothing. When the state changes, the egg had no days left, it leaves the
/// hatchery, and the roster gains at most the one hatchling.
pub proof fn law_hatch_needs_ready_egg(old_state: GameState, new_state: GameState, data: GameData, egg_id: u64, summary: Seq<char>)
    requires
        hatch_outcome(old_state, new_state, data, egg_id, summary),
    ensures
        (first_numbered(old_state.egg_inventory.eggs@, egg_id) matches Some(i)
            && old_state.egg_inventory.eggs@[i].days_remaining > 0) ==> new_state == old_state,
        new_state != old_state ==> (first_numbered(old_state.egg_inventory.eggs@, egg_id) matches Some(i) && {
            &&& old_state.egg_inventory.eggs@[i].days_remaining == 0
            &&& new_state.egg_inventory.eggs@ == old_state.egg_inventory.eggs@.remove(i)
            &&& new_state.monster_roster.monsters@.len() <= old_state.monster_roster.monsters@.len() + 1
            &&& old_state.monster_roster.monsters@.len() < spec_monster_capacity(old_state.town.spec_building_level("stable"@))
        }),
{
}

/// Care that is given costs one herb for warming, soothing or stabilising
/// and nothing for study.
pub proof fn law_care_cost(s0: GameState, s1: GameState, data: GameData, egg_id: u64, focus: EggCareFocus, summary: Seq<char>)
    requires
        care_outcome(s0, s1, data, egg_id, focus, summary),
        s1 != s0,
    ensures
        s1.resources.spec_amount("herbs"@) == s0.resources.spec_amount("herbs"@)
            - if focus == EggCareFocus::Warm || focus == EggCareFocus::Soothe || focus == EggCareFocus::Stabilise { 1int } else { 0int },
        s0.resources.spec_amount("herbs"@) >= 1 || focus == EggCareFocus::Study || focus == EggCareFocus::Idle,
{
}

/// An egg takes care at most once a day: after care has been given, a
/// second request on the same day changes nothing and says so.
pub proof fn law_care_once_a_day(
    s0: GameState,
    s1: GameState,
    s2: GameState,
    data: GameData,
    egg_id: u64,
    first: EggCareFocus,
    second: EggCareFocus,
    m1: Seq<char>,
    m2: Seq<char>,
)
    requires
        care_outcome(s0, s1, data, egg_id, first, m1),
        care_outcome(s1, s2, data, egg_id, second, m2),
        s1 != s0,
    ensures
        s2 == s1,
        m2 == "That egg has already received care today."@,
{
    assert(s0.town.spec_building_level("hatchery"@) != 0);
    assert(first_numbered(s0.egg_inventory.eggs@, egg_id) is Some);
    crate::state::keyed::lemma_first_numbered(s0.egg_inventory.eggs@, egg_id);
    let i = first_numbered(s0.egg_inventory.eggs@, egg_id).unwrap();
    let egg = s0.egg_inventory.eggs@[i];
    let cared = spec_apply_care(egg, first, s0.day);
    crate::state::keyed::lemma_first_numbered_update(s0.egg_inventory.eggs@, i, cared, egg_id);
    assert(s1.egg_inventory.eggs@[i] == cared);
    assert(s1.town == s0.town);
    assert(s1.day == s0.day);
}

proof fn lemma_pick_in<T>(seed: u64, pool: Seq<T>)
    requires
        pool.len() > 0,
    ensures
        pick(seed, pool) matches Some(x) && pool.contains(x),
{
    let k = (seed as int) % (pool.len() as int);
    assert(0 <= k < pool.len());
    assert(pool[k] == pick(seed, pool).unwrap());
}

/// A bred egg hatches into its lineage: the element, passive and (unless
/// soothing care steered it) temperament come from what the parents passed
/// on, and the hatchling's bond reaches the lineage quality.
pub proof fn law_hatchling_inherits(base: MonsterInstance, egg: EggInstance, et: EggTypeDefinition)
    requires
        egg.inheritance is Some,
        egg.inheritance.unwrap().element_options@.len() > 0,
        egg.inheritance.unwrap().temperament_options@.len() > 0,
        egg.inheritance.unwrap().passive_options@.len() > 0,
        1 <= egg.inheritance.unwrap().lineage_quality <= 5,
        base.bond == 1,
    ensures
        ({
            let inh = egg.inheritance.unwrap();
            let m = spec_hatchling(base, egg, et);
            &&& inh.element_options@.contains(m.element)
            &&& inh.passive_options@.contains(m.passive)
            &&& !(egg.care_focus == EggCareFocus::Soothe && egg.care_points > 0) ==> inh.temperament_options@.contains(m.temperament)
            &&& m.bond >= inh.lineage_quality
        }),
{
    let inh = egg.inheritance.unwrap();
    let ts = trait_seed(egg);
    lemma_pick_in(ts, inh.element_options@);
    lemma_pick_in(rotl(ts, 7), inh.temperament_options@);
    lemma_pick_in(rotl(ts, 13), inh.passive_options@);
}

/// A bred egg's species is one the parents passed on.
pub proof fn law_hatched_species_inherited(egg: EggInstance, et: EggTypeDefinition)
    requires
        egg.inheritance is Some,
        egg.inheritance.unwrap().species_options@.len() > 0,
    ensures
        pick(species_seed(egg), species_pool(egg, et)) matches Some(sid)
            && egg.inheritance.unwrap().species_options@.contains(sid),
{
    lemma_pick_in(species_seed(egg), egg.inheritance.unwrap().species_options@);
}

} // verus!
