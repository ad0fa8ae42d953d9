//! Breeding pairs of monsters in the grove into eggs that carry their lineage.

use vstd::prelude::*;
use crate::arith::{clamp_u32, max_int, min_int, sat_add_u32};
use crate::data::game_data::GameData;
use crate::data::schema::{EggTypeDefinition, Element, PassiveSkill, Temperament};
use crate::engine::egg_engine::{rotl, pick};
use crate::state::eggs::EggInheritance;
use crate::state::records::holds_name;
use crate::engine::monster_engine::{add_fatigue, can_take_daily_action, spec_add_fatigue, spec_daily_action_refusal};
use crate::engine::town_engine::{egg_capacity, has_egg_capacity, spec_egg_capacity};
use crate::text::{decimal, decimal_text};
use crate::state::game::GameState;
use crate::state::keyed::{first_numbered, lemma_first_numbered};
use crate::state::eggs::EggCareFocus;
use crate::state::resources::{affordable, cost_for};
use crate::state::records::ActivityEntry;
use crate::state::roster::{DailyCommitment, MonsterCondition, MonsterInstance, MonsterRoster};
use crate::text::same_text;

verus! {

/// What a breeding action reports.
pub struct BreedingResult {
    pub summary: String,
}

/// What a pair would pass on, shown before the player commits to it.
pub struct BreedingForecast {
    pub egg_options: Vec<(String, u32)>,
    pub species_options: Vec<String>,
    pub element_options: Vec<Element>,
    pub temperament_options: Vec<Temperament>,
    pub passive_options: Vec<PassiveSkill>,
    pub mutation_chance: u32,
    pub lineage_quality: u32,
}

/// The bonds of two monsters added together.
pub open spec fn bond_sum(a: MonsterInstance, b: MonsterInstance) -> int {
    a.bond + b.bond
}

/// Two monsters can breed when they share an element or a role, or when
/// their bonds add up to six or more.
pub open spec fn spec_pair_compatible(a: MonsterInstance, b: MonsterInstance) -> bool {
    a.element == b.element || a.role == b.role || bond_sum(a, b) >= 6
}

pub fn pair_is_compatible(first: &MonsterInstance, second: &MonsterInstance) -> (r: bool)
    ensures
        r == spec_pair_compatible(*first, *second),
{
    first.element == second.element || first.role == second.role || first.bond as u64 + second.bond as u64 >= 6
}

pub open spec fn spec_compatibility_label(a: MonsterInstance, b: MonsterInstance) -> Seq<char> {
    if a.element == b.element {
        "Shared "@ + a.element.spec_label() + " element"@
    } else if a.role == b.role {
        "Shared "@ + a.role.spec_label() + " role"@
    } else if bond_sum(a, b) >= 6 {
        "Bonded pair"@
    } else {
        "Needs shared trait or bond 6+"@
    }
}

/// Names what makes a pair compatible, or what it lacks.
pub fn compatibility_label(first: &MonsterInstance, second: &MonsterInstance) -> (s: String)
    ensures
        s@ == spec_compatibility_label(*first, *second),
{
    if first.element == second.element {
        let mut s = String::from_str("Shared ");
        s.append(first.element.label());
        s.append(" element");
        s
    } else if first.role == second.role {
        let mut s = String::from_str("Shared ");
        s.append(first.role.label());
        s.append(" role");
        s
    } else if first.bond as u64 + second.bond as u64 >= 6 {
        String::from_str("Bonded pair")
    } else {
        String::from_str("Needs shared trait or bond 6+")
    }
}

/// Breeding compatibility: two monsters that share an element or a role are
/// compatible whatever their bonds, as are two whose bonds add up to six or
/// more; two that share neither and hold less bond are not. Compatibility
/// does not depend on the order of the pair, and it holds exactly when the
/// pair's label does not ask for a shared trait or more bond.
pub proof fn law_pair_compatibility(a: MonsterInstance, b: MonsterInstance)
    ensures
        a.role == b.role ==> spec_pair_compatible(a, b),
        a.element == b.element ==> spec_pair_compatible(a, b),
        a.bond + b.bond >= 6 ==> spec_pair_compatible(a, b),
        a.role != b.role && a.element != b.element && a.bond + b.bond < 6 ==> !spec_pair_compatible(a, b),
        spec_pair_compatible(a, b) == spec_pair_compatible(b, a),
        spec_pair_compatible(a, b) <==> spec_compatibility_label(a, b) != "Needs shared trait or bond 6+"@,
{
    reveal_strlit("Needs shared trait or bond 6+");
    reveal_strlit("Shared ");
    reveal_strlit("Bonded pair");
    let label = spec_compatibility_label(a, b);
    if a.element == b.element || a.role == b.role {
        assert(label[0] == 'S');
    } else if bond_sum(a, b) >= 6 {
        assert(label[0] == 'B');
    }
}

/// The percent chance of a tower mutation: four per floor of origin (at
/// least one floor), at most 35.
pub open spec fn spec_mutation_chance(origin_floor: u32) -> int {
    min_int(max_int(origin_floor as int, 1) * 4, 35)
}

pub fn mutation_chance(origin_floor: u32) -> (r: u32)
    ensures
        r == spec_mutation_chance(origin_floor),
{
    let floor: u64 = if origin_floor < 1 { 1 } else { origin_floor as u64 };
    if floor * 4 < 35 { (floor * 4) as u32 } else { 35 }
}

/// The odds of a tower mutation grow by four percent per floor of origin (a
/// floor below the first counts as the first) until they stop at 35.
pub proof fn law_mutation_chance(floor: u32)
    ensures
        spec_mutation_chance(0) == 4,
        1 <= floor <= 8 ==> spec_mutation_chance(floor) == 4 * floor,
        floor >= 9 ==> spec_mutation_chance(floor) == 35,
        floor < u32::MAX ==> spec_mutation_chance(floor) <= spec_mutation_chance((floor + 1) as u32),
        4 <= spec_mutation_chance(floor) <= 35,
{
}

/// Lineage quality starts at one and gains one for a shared element, one
/// for a shared role, one for bonds adding up to six or more and one for
/// bonds of ten or more or an origin on the sixth floor or deeper, up to
/// five. It does not depend on the order of the pair.
pub proof fn law_lineage_quality(a: MonsterInstance, b: MonsterInstance, floor: u32)
    ensures
        1 <= spec_lineage_quality(a, b, floor) <= 5,
        spec_lineage_quality(a, b, floor) == spec_lineage_quality(b, a, floor),
        a.element != b.element && a.role != b.role && a.bond + b.bond < 6 && floor < 6
            ==> spec_lineage_quality(a, b, floor) == 1,
        a.element == b.element && a.role != b.role && a.bond + b.bond < 6 && floor < 6
            ==> spec_lineage_quality(a, b, floor) == 2,
        a.element != b.element && a.role == b.role && a.bond + b.bond < 6 && floor < 6
            ==> spec_lineage_quality(a, b, floor) == 2,
        a.element != b.element && a.role != b.role && 6 <= a.bond + b.bond < 10 && floor < 6
            ==> spec_lineage_quality(a, b, floor) == 2,
        a.element != b.element && a.role != b.role && a.bond + b.bond < 6 && floor >= 6
            ==> spec_lineage_quality(a, b, floor) == 2,
        a.element == b.element && a.role == b.role && a.bond + b.bond >= 10 ==> spec_lineage_quality(a, b, floor) == 5,
{
}

/// Lineage quality: one, plus one each for a shared element, a shared role,
/// a bond sum of six or more, and a bond sum of ten or more or a floor of six
/// or deeper; at most five.
pub open spec fn spec_lineage_quality(a: MonsterInstance, b: MonsterInstance, origin_floor: u32) -> int {
    let q = 1 + (if a.element == b.element { 1int } else { 0 }) + (if a.role == b.role { 1int } else { 0 })
        + (if bond_sum(a, b) >= 6 { 1int } else { 0 })
        + (if bond_sum(a, b) >= 10 || origin_floor >= 6 { 1int } else { 0 });
    min_int(q, 5)
}

pub fn lineage_quality(first: &MonsterInstance, second: &MonsterInstance, origin_floor: u32) -> (r: u32)
    ensures
        r == spec_lineage_quality(*first, *second, origin_floor),
{
    let bonds: u64 = first.bond as u64 + second.bond as u64;
    let mut quality: u32 = 1;
    if first.element == second.element {
        quality += 1;
    }
    if first.role == second.role {
        quality += 1;
    }
    if bonds >= 6 {
        quality += 1;
    }
    if bonds >= 10 || origin_floor >= 6 {
        quality += 1;
    }
    if quality < 5 { quality } else { 5 }
}

pub open spec fn spec_lineage_quality_label(quality: u32) -> Seq<char> {
    if quality <= 1 {
        "plain"@
    } else if quality == 2 {
        "steady"@
    } else if quality == 3 {
        "resonant"@
    } else if quality == 4 {
        "potent"@
    } else {
        "mythic"@
    }
}

pub fn lineage_quality_label(quality: u32) -> (s: &'static str)
    ensures
        s@ == spec_lineage_quality_label(quality),
{
    if quality <= 1 {
        "plain"
    } else if quality == 2 {
        "steady"
    } else if quality == 3 {
        "resonant"
    } else if quality == 4 {
        "potent"
    } else {
        "mythic"
    }
}

/// Breeding costs two herbs.
pub fn breeding_cost() -> (c: Vec<(String, i32)>)
    ensures
        c@.len() == 1,
        c@[0].0@ == "herbs"@,
        c@[0].1 == 2,
{
    vec![(String::from_str("herbs"), 2i32)]
}

/// The bits of `x` rotated right by `k` places.
pub open spec fn rotr(x: u64, k: u64) -> u64 {
    (x >> k) | (x << (64 - k) as u64)
}

fn rotate_right(x: u64, k: u64) -> (r: u64)
    requires
        0 < k < 64,
    ensures
        r == rotr(x, k),
{
    (x >> k) | (x << (64 - k))
}

fn rotate_left(x: u64, k: u64) -> (r: u64)
    requires
        0 < k < 64,
    ensures
        r == rotl(x, k),
{
    (x << k) | (x >> (64 - k))
}

pub open spec fn all_elements() -> Seq<Element> {
    seq![Element::Water, Element::Fire, Element::Earth]
}

pub open spec fn all_temperaments() -> Seq<Temperament> {
    seq![Temperament::Loyal, Temperament::Patient, Temperament::Curious, Temperament::Brave, Temperament::Restless, Temperament::Gentle]
}

pub open spec fn all_passives() -> Seq<PassiveSkill> {
    seq![
        PassiveSkill::FindsSmallLoot,
        PassiveSkill::ResistsPoison,
        PassiveSkill::DetectsEggs,
        PassiveSkill::FindsStone,
        PassiveSkill::BurnsBrambles,
        PassiveSkill::SoothesInjuries,
    ]
}

pub open spec fn mutation_element(seed: u64) -> Element {
    all_elements()[(rotl(seed, 3) as int) % 3]
}

pub open spec fn mutation_temperament(seed: u64) -> Temperament {
    all_temperaments()[(rotl(seed, 11) as int) % 6]
}

pub open spec fn mutation_passive(seed: u64) -> PassiveSkill {
    all_passives()[(rotl(seed, 17) as int) % 6]
}

fn mutated_element(seed: u64) -> (e: Element)
    ensures
        e == mutation_element(seed),
{
    let all: [Element; 3] = [Element::Water, Element::Fire, Element::Earth];
    proof {
        assert(all@ =~= all_elements());
    }
    all[(rotate_left(seed, 3) % 3) as usize]
}

fn mutated_temperament(seed: u64) -> (t: Temperament)
    ensures
        t == mutation_temperament(seed),
{
    let all: [Temperament; 6] = [
        Temperament::Loyal,
        Temperament::Patient,
        Temperament::Curious,
        Temperament::Brave,
        Temperament::Restless,
        Temperament::Gentle,
    ];
    proof {
        assert(all@ =~= all_temperaments());
    }
    all[(rotate_left(seed, 11) % 6) as usize]
}

fn mutated_passive(seed: u64) -> (p: PassiveSkill)
    ensures
        p == mutation_passive(seed),
{
    let all: [PassiveSkill; 6] = [
        PassiveSkill::FindsSmallLoot,
        PassiveSkill::ResistsPoison,
        PassiveSkill::DetectsEggs,
        PassiveSkill::FindsStone,
        PassiveSkill::BurnsBrambles,
        PassiveSkill::SoothesInjuries,
    ];
    proof {
        assert(all@ =~= all_passives());
    }
    all[(rotate_left(seed, 17) % 6) as usize]
}

/// The parents' values without repeats, first parent first; a mutation's
/// value leads the list and is not repeated after it.
pub open spec fn lineage_options<T>(a: T, b: T, mutation: Option<T>) -> Seq<T> {
    match mutation {
        None => if a == b { seq![a] } else { seq![a, b] },
        Some(m) => if a == b {
            if a == m { seq![m] } else { seq![m, a] }
        } else if a == m {
            seq![m, b]
        } else if b == m {
            seq![m, a]
        } else {
            seq![m, a, b]
        },
    }
}

fn element_options(a: Element, b: Element, mutation: Option<Element>) -> (v: Vec<Element>)
    ensures
        v@ == lineage_options(a, b, mutation),
{
    let mut v: Vec<Element> = Vec::new();
    match mutation {
        Some(m) => {
            v.push(m);
            if a != m {
                v.push(a);
            }
            if b != a && b != m {
                v.push(b);
            }
        },
        None => {
            v.push(a);
            if b != a {
                v.push(b);
            }
        },
    }
    proof {
        assert(v@ =~= lineage_options(a, b, mutation));
    }
    v
}

fn temperament_options(a: Temperament, b: Temperament, mutation: Option<Temperament>) -> (v: Vec<Temperament>)
    ensures
        v@ == lineage_options(a, b, mutation),
{
    let mut v: Vec<Temperament> = Vec::new();
    match mutation {
        Some(m) => {
            v.push(m);
            if a != m {
                v.push(a);
            }
            if b != a && b != m {
                v.push(b);
            }
        },
        None => {
            v.push(a);
            if b != a {
                v.push(b);
            }
        },
    }
    proof {
        assert(v@ =~= lineage_options(a, b, mutation));
    }
    v
}

fn passive_options(a: PassiveSkill, b: PassiveSkill, mutation: Option<PassiveSkill>) -> (v: Vec<PassiveSkill>)
    ensures
        v@ == lineage_options(a, b, mutation),
{
    let mut v: Vec<PassiveSkill> = Vec::new();
    match mutation {
        Some(m) => {
            v.push(m);
            if a != m {
                v.push(a);
            }
            if b != a && b != m {
                v.push(b);
            }
        },
        None => {
            v.push(a);
            if b != a {
                v.push(b);
            }
        },
    }
    proof {
        assert(v@ =~= lineage_options(a, b, mutation));
    }
    v
}

pub open spec fn names_view(v: Seq<String>) -> Seq<Seq<char>> {
    v.map_values(|s: String| s@)
}

fn species_options(a: &String, b: &String, mutation: Option<String>) -> (v: Vec<String>)
    ensures
        names_view(v@) == lineage_options(a@, b@, match mutation { Some(m) => Some(m@), None => None }),
{
    let mut v: Vec<String> = Vec::new();
    let same_ab = same_text(a.as_str(), b.as_str());
    match mutation {
        Some(m) => {
            let same_am = same_text(a.as_str(), m.as_str());
            let same_bm = same_text(b.as_str(), m.as_str());
            v.push(m);
            if !same_am {
                v.push(a.clone());
            }
            if !same_ab && !same_bm {
                v.push(b.clone());
            }
        },
        None => {
            v.push(a.clone());
            if !same_ab {
                v.push(b.clone());
            }
        },
    }
    proof {
        assert(names_view(v@) =~= lineage_options(a@, b@, match mutation { Some(m) => Some(m@), None => None }));
    }
    v
}

/// Whether an egg type can carry a pair's lineage: it has been discovered by
/// `best_floor` (floor one at least) and one of the parents' species hatches
/// from it.
pub open spec fn egg_fits(et: EggTypeDefinition, a: MonsterInstance, b: MonsterInstance, best_floor: u32) -> bool {
    &&& et.discovery_floor <= max_int(best_floor as int, 1)
    &&& holds_name(et.possible_species@, a.species_id@) || holds_name(et.possible_species@, b.species_id@)
}

/// The positions of the egg types that fit, in order.
pub open spec fn fitting_eggs(ets: Seq<EggTypeDefinition>, a: MonsterInstance, b: MonsterInstance, best_floor: u32) -> Seq<int>
    decreases ets.len(),
{
    if ets.len() == 0 {
        Seq::empty()
    } else {
        let rest = fitting_eggs(ets.drop_last(), a, b, best_floor);
        if egg_fits(ets.last(), a, b, best_floor) { rest.push(ets.len() - 1) } else { rest }
    }
}

/// The egg types a pair may nest: those that fit, or failing any, the first
/// egg type of all.
pub open spec fn spec_eligible_eggs(data: GameData, a: MonsterInstance, b: MonsterInstance, best_floor: u32) -> Seq<int> {
    let fit = fitting_eggs(data.egg_types@, a, b, best_floor);
    if fit.len() > 0 {
        fit
    } else if data.egg_types@.len() > 0 {
        seq![0int]
    } else {
        Seq::empty()
    }
}

proof fn lemma_fitting_bounds(ets: Seq<EggTypeDefinition>, a: MonsterInstance, b: MonsterInstance, best_floor: u32)
    ensures
        fitting_eggs(ets, a, b, best_floor).len() <= ets.len(),
        forall|k: int| 0 <= k < fitting_eggs(ets, a, b, best_floor).len()
            ==> 0 <= #[trigger] fitting_eggs(ets, a, b, best_floor)[k] < ets.len(),
    decreases ets.len(),
{
    if ets.len() > 0 {
        lemma_fitting_bounds(ets.drop_last(), a, b, best_floor);
    }
}

proof fn lemma_fitting_choice(ets: Seq<EggTypeDefinition>, a: MonsterInstance, b: MonsterInstance, best_floor: u32)
    ensures
        forall|k: int| 0 <= k < fitting_eggs(ets, a, b, best_floor).len() ==> {
            let j = #[trigger] fitting_eggs(ets, a, b, best_floor)[k];
            0 <= j < ets.len() && egg_fits(ets[j], a, b, best_floor)
        },
        fitting_eggs(ets, a, b, best_floor).len() == 0 ==> forall|j: int| 0 <= j < ets.len() ==> !egg_fits(#[trigger] ets[j], a, b, best_floor),
    decreases ets.len(),
{
    if ets.len() > 0 {
        let prefix = ets.drop_last();
        lemma_fitting_choice(prefix, a, b, best_floor);
        assert forall|j: int| 0 <= j < prefix.len() implies prefix[j] == ets[j] by {}
    }
}

/// The egg type a pair nests was discovered by the best floor reached (the
/// first floor at least) and hatches one of the parents' species; only when
/// no type does is it the first egg type of all.
pub proof fn law_chosen_egg_type(data: GameData, a: MonsterInstance, b: MonsterInstance, best_floor: u32)
    ensures
        spec_select_egg(data, a, b, best_floor) matches Some(k) ==> {
            let et = data.egg_types@[k];
            &&& 0 <= k < data.egg_types@.len()
            &&& ((et.discovery_floor <= max_int(best_floor as int, 1)
                && (holds_name(et.possible_species@, a.species_id@) || holds_name(et.possible_species@, b.species_id@)))
                || (k == 0 && forall|j: int| 0 <= j < data.egg_types@.len() ==> !egg_fits(#[trigger] data.egg_types@[j], a, b, best_floor)))
        },
        spec_select_egg(data, a, b, best_floor) is None <==> data.egg_types@.len() == 0,
{
    lemma_fitting_choice(data.egg_types@, a, b, best_floor);
    let el = spec_eligible_eggs(data, a, b, best_floor);
    if el.len() > 0 {
        let i = (egg_pick_seed(a, b, best_floor) as int) % (el.len() as int);
        assert(0 <= i < el.len());
        assert(spec_select_egg(data, a, b, best_floor) == Some(el[i]));
    }
}

fn names_hold(names: &Vec<String>, name: &String) -> (r: bool)
    ensures
        r == holds_name(names@, name@),
{
    crate::state::records::contains_name(names, name.as_str())
}

fn eligible_egg_types(data: &GameData, a: &MonsterInstance, b: &MonsterInstance, best_floor: u32) -> (v: Vec<usize>)
    ensures
        v@.len() == spec_eligible_eggs(*data, *a, *b, best_floor).len(),
        forall|k: int| 0 <= k < v@.len() ==> v@[k] as int == #[trigger] spec_eligible_eggs(*data, *a, *b, best_floor)[k],
        forall|k: int| 0 <= k < v@.len() ==> #[trigger] v@[k] < data.egg_types@.len(),
{
    let floor: u32 = if best_floor < 1 { 1 } else { best_floor };
    let mut v: Vec<usize> = Vec::new();
    let mut i: usize = 0;
    while i < data.egg_types.len()
        invariant
            i <= data.egg_types@.len(),
            floor as int == max_int(best_floor as int, 1),
            v@.len() == fitting_eggs(data.egg_types@.take(i as int), *a, *b, best_floor).len(),
            forall|k: int| 0 <= k < v@.len() ==> v@[k] as int == #[trigger] fitting_eggs(data.egg_types@.take(i as int), *a, *b, best_floor)[k],
            forall|k: int| 0 <= k < v@.len() ==> #[trigger] v@[k] < i,
        decreases data.egg_types.len() - i,
    {
        assert(data.egg_types@.take(i as int + 1).drop_last() =~= data.egg_types@.take(i as int));
        let et = &data.egg_types[i];
        if et.discovery_floor <= floor && (names_hold(&et.possible_species, &a.species_id) || names_hold(&et.possible_species, &b.species_id)) {
            v.push(i);
        }
        i += 1;
    }
    assert(data.egg_types@.take(i as int) =~= data.egg_types@);
    if v.len() == 0 && data.egg_types.len() > 0 {
        v.push(0);
        proof {
            assert(v@.len() == 1);
        }
    }
    v
}

/// The seed that picks the egg type for a pair.
pub open spec fn egg_pick_seed(a: MonsterInstance, b: MonsterInstance, best_floor: u32) -> u64 {
    a.visual_seed ^ b.visual_seed ^ (best_floor as u64)
}

/// The position of the egg type a pair nests, if any egg type exists.
pub open spec fn spec_select_egg(data: GameData, a: MonsterInstance, b: MonsterInstance, best_floor: u32) -> Option<int> {
    pick(egg_pick_seed(a, b, best_floor), spec_eligible_eggs(data, a, b, best_floor))
}

fn select_egg_type(data: &GameData, a: &MonsterInstance, b: &MonsterInstance, best_floor: u32) -> (r: Option<usize>)
    ensures
        match spec_select_egg(*data, *a, *b, best_floor) {
            Some(k) => r matches Some(x) && x as int == k && k < data.egg_types@.len(),
            None => r is None,
        },
{
    let eligible = eligible_egg_types(data, a, b, best_floor);
    let seed: u64 = a.visual_seed ^ b.visual_seed ^ (best_floor as u64);
    if eligible.len() == 0 {
        None
    } else {
        let k = (seed % (eligible.len() as u64)) as usize;
        Some(eligible[k])
    }
}

/// The species a mutation brings: one the egg type may hatch, else one of all
/// species, else the slime.
pub open spec fn mutation_species(data: GameData, et: EggTypeDefinition, seed: u64) -> Seq<char> {
    if et.possible_species@.len() > 0 {
        et.possible_species@[(rotl(seed, 5) as int) % (et.possible_species@.len() as int)]@
    } else if data.monster_species@.len() > 0 {
        data.monster_species@[(seed as int) % (data.monster_species@.len() as int)].id@
    } else {
        "slime"@
    }
}

fn mutated_species(data: &GameData, et: &EggTypeDefinition, seed: u64) -> (s: String)
    ensures
        s@ == mutation_species(*data, *et, seed),
{
    if et.possible_species.len() > 0 {
        let k = (rotate_left(seed, 5) % (et.possible_species.len() as u64)) as usize;
        et.possible_species[k].clone()
    } else if data.monster_species.len() > 0 {
        let k = (seed % (data.monster_species.len() as u64)) as usize;
        data.monster_species[k].id.clone()
    } else {
        String::from_str("slime")
    }
}

/// Whether a nest from `seed` carries a mutation.
pub open spec fn spec_mutated(seed: u64, origin_floor: u32) -> bool {
    (seed as int) % 100 < spec_mutation_chance(origin_floor)
}

/// What a pair passes on to an egg of type `et` nested at `origin_floor`
/// from `seed`.
pub open spec fn inheritance_of(
    inh: EggInheritance,
    data: GameData,
    a: MonsterInstance,
    b: MonsterInstance,
    et: EggTypeDefinition,
    origin_floor: u32,
    seed: u64,
) -> bool {
    let mutated = spec_mutated(seed, origin_floor);
    &&& inh.parent_ids@ == seq![a.id, b.id]
    &&& names_view(inh.species_options@) == lineage_options(a.species_id@, b.species_id@,
        if mutated { Some(mutation_species(data, et, seed)) } else { None })
    &&& inh.element_options@ == lineage_options(a.element, b.element,
        if mutated { Some(mutation_element(seed)) } else { None })
    &&& inh.temperament_options@ == lineage_options(a.temperament, b.temperament,
        if mutated { Some(mutation_temperament(seed)) } else { None })
    &&& inh.passive_options@ == lineage_options(a.passive, b.passive,
        if mutated { Some(mutation_passive(seed)) } else { None })
    &&& inh.mutation_floor == origin_floor
    &&& inh.mutated == mutated
    &&& inh.lineage_quality == spec_lineage_quality(a, b, origin_floor)
}

fn build_inheritance(
    data: &GameData,
    a: &MonsterInstance,
    b: &MonsterInstance,
    et: &EggTypeDefinition,
    origin_floor: u32,
    seed: u64,
) -> (inh: EggInheritance)
    ensures
        inheritance_of(inh, *data, *a, *b, *et, origin_floor, seed),
{
    let mutated = seed % 100 < mutation_chance(origin_floor) as u64;
    let species = if mutated { Some(mutated_species(data, et, seed)) } else { None };
    let element = if mutated { Some(mutated_element(seed)) } else { None };
    let temperament = if mutated { Some(mutated_temperament(seed)) } else { None };
    let passive = if mutated { Some(mutated_passive(seed)) } else { None };
    let parent_ids: Vec<u64> = vec![a.id, b.id];
    proof {
        assert(parent_ids@ =~= seq![a.id, b.id]);
    }
    EggInheritance {
        parent_ids,
        species_options: species_options(&a.species_id, &b.species_id, species),
        element_options: element_options(a.element, b.element, element),
        temperament_options: temperament_options(a.temperament, b.temperament, temperament),
        passive_options: passive_options(a.passive, b.passive, passive),
        mutation_floor: origin_floor,
        mutated,
        lineage_quality: lineage_quality(a, b, origin_floor),
    }
}

/// The seed a pair nests from, mixed from both parents, the day and the next
/// egg id.
pub open spec fn spec_breeding_seed(day: u32, next_egg_id: u64, a: MonsterInstance, b: MonsterInstance) -> u64 {
    rotl(a.visual_seed, 9) ^ rotr(b.visual_seed, 7) ^ ((day as u64) * 97) as u64 ^ next_egg_id.wrapping_mul(0x9E37u64)
}

fn breeding_seed(state: &GameState, a: &MonsterInstance, b: &MonsterInstance) -> (r: u64)
    ensures
        r == spec_breeding_seed(state.day, state.egg_inventory.next_id, *a, *b),
{
    let parent_mix = rotate_left(a.visual_seed, 9) ^ rotate_right(b.visual_seed, 7);
    parent_mix ^ (state.day as u64) * 97 ^ state.egg_inventory.next_id.wrapping_mul(0x9E37u64)
}

/// A parent's bond after nesting: one more.
pub open spec fn bonded(m: MonsterInstance, a_id: u64, b_id: u64) -> MonsterInstance {
    if m.id == a_id || m.id == b_id {
        MonsterInstance { bond: clamp_u32(m.bond + 1) as u32, ..m }
    } else {
        m
    }
}

pub open spec fn bonded_all(ms: Seq<MonsterInstance>, a_id: u64, b_id: u64) -> Seq<MonsterInstance> {
    ms.map_values(|m: MonsterInstance| bonded(m, a_id, b_id))
}

/// Whether a parent that bears the starter's name reaches a bond of four.
pub open spec fn starter_bond_reached(ms: Seq<MonsterInstance>, starter_name: Seq<char>, a_id: u64, b_id: u64) -> bool {
    exists|i: int| 0 <= i < ms.len() && (ms[i].id == a_id || ms[i].id == b_id) && #[trigger] ms[i].name@ == starter_name
        && clamp_u32(ms[i].bond + 1) >= 4
}

/// The story flag raised when the starter first bonds through breeding.
pub open spec fn starter_flag() -> Seq<char> {
    "starter_slime_breeding_bond"@
}

pub open spec fn nudge_line(starter_name: Seq<char>) -> Seq<char> {
    starter_name + " nudges the new egg closer to the grove brazier."@
}

/// The activity log as (day, text) pairs.
pub open spec fn log_view(entries: Seq<ActivityEntry>) -> Seq<(u32, Seq<char>)> {
    entries.map_values(|e: ActivityEntry| (e.day, e.text@))
}

fn raise_parent_bonds(state: &mut GameState, data: &GameData, a_id: u64, b_id: u64)
    ensures
        final(state).monster_roster.monsters@ == bonded_all(old(state).monster_roster.monsters@, a_id, b_id),
        ({
            let nudge = starter_bond_reached(old(state).monster_roster.monsters@, data.config.starter_name@, a_id, b_id)
                && !holds_name(old(state).story_flags.flags@, starter_flag());
            &&& nudge ==> holds_name(final(state).story_flags.flags@, starter_flag())
                && (forall|f: Seq<char>| f != starter_flag() ==> #[trigger] holds_name(final(state).story_flags.flags@, f)
                    == holds_name(old(state).story_flags.flags@, f))
                && log_view(final(state).activity_log.entries@) == log_view(old(state).activity_log.entries@).push(
                    (old(state).day, nudge_line(data.config.starter_name@)))
            &&& !nudge ==> final(state).story_flags.flags@ == old(state).story_flags.flags@ && final(state).activity_log == old(state).activity_log
        }),
        *final(state) == (GameState {
            monster_roster: MonsterRoster { monsters: final(state).monster_roster.monsters, ..old(state).monster_roster },
            story_flags: final(state).story_flags,
            activity_log: final(state).activity_log,
            ..*old(state)
        }),
{
    let ghost ms = old(state).monster_roster.monsters@;
    let mut reached = false;
    let mut i: usize = 0;
    while i < state.monster_roster.monsters.len()
        invariant
            i <= ms.len(),
            state.monster_roster.monsters@.len() == ms.len(),
            forall|j: int| 0 <= j < i ==> state.monster_roster.monsters@[j] == bonded(ms[j], a_id, b_id),
            forall|j: int| i <= j < ms.len() ==> state.monster_roster.monsters@[j] == ms[j],
            reached == exists|j: int| 0 <= j < i && (ms[j].id == a_id || ms[j].id == b_id)
                && #[trigger] ms[j].name@ == data.config.starter_name@ && clamp_u32(ms[j].bond + 1) >= 4,
            *state == (GameState {
                monster_roster: MonsterRoster { monsters: state.monster_roster.monsters, ..old(state).monster_roster },
                ..*old(state)
            }),
        decreases ms.len() - i,
    {
        let id = state.monster_roster.monsters[i].id;
        if id == a_id || id == b_id {
            let mut m = state.monster_roster.monsters.remove(i);
            m.bond = sat_add_u32(m.bond, 1);
            if m.bond >= 4 && same_text(m.name.as_str(), data.config.starter_name.as_str()) {
                reached = true;
            }
            state.monster_roster.monsters.insert(i, m);
        }
        i += 1;
    }
    proof {
        assert(state.monster_roster.monsters@ =~= bonded_all(ms, a_id, b_id));
        reveal_strlit("starter_slime_breeding_bond");
    }
    if reached {
        if state.story_flags.add("starter_slime_breeding_bond") {
            let mut line = data.config.starter_name.clone();
            line.append(" nudges the new egg closer to the grove brazier.");
            let day = state.day;
            state.activity_log.add(day, line);
            proof {
                assert(log_view(state.activity_log.entries@) =~= log_view(old(state).activity_log.entries@).push(
                    (old(state).day, nudge_line(data.config.starter_name@))));
            }
        }
    }
}

/// A parent after nesting: committed to breeding for the day, one fatigue more.
pub open spec fn committed(m: MonsterInstance) -> MonsterInstance {
    spec_add_fatigue(MonsterInstance {
        condition: MonsterCondition { commitment: DailyCommitment::Breeding, ..m.condition },
        ..m
    }, 1)
}

/// The first monster with id `id` committed to breeding.
pub open spec fn commit_parent(ms: Seq<MonsterInstance>, id: u64) -> Seq<MonsterInstance> {
    match first_numbered(ms, id) {
        Some(i) => ms.update(i, committed(ms[i])),
        None => ms,
    }
}

/// Each parent of a nested egg gains a bond, is committed to breeding for
/// the day and tires by one; no other monster changes.
pub proof fn law_breeding_parents(s0: GameState, s1: GameState, data: GameData, a_id: u64, b_id: u64, summary: Seq<char>, other: int)
    requires
        breed_outcome(s0, s1, data, a_id, b_id, summary),
        breeding_refusal(s0, data, a_id, b_id) is None,
    ensures
        ({
            let ms = s0.monster_roster.monsters@;
            let ns = s1.monster_roster.monsters@;
            &&& ns.len() == ms.len()
            &&& first_numbered(ms, a_id) matches Some(i) && {
                &&& ns[i].bond == clamp_u32(ms[i].bond + 1)
                &&& ns[i].condition.commitment == DailyCommitment::Breeding
                &&& ns[i].condition.fatigue == min_int(ms[i].condition.fatigue + 1, 6)
                &&& ns[i].hp == ms[i].hp
            }
            &&& first_numbered(ms, b_id) matches Some(j) && {
                &&& ns[j].bond == clamp_u32(ms[j].bond + 1)
                &&& ns[j].condition.commitment == DailyCommitment::Breeding
                &&& ns[j].condition.fatigue == min_int(ms[j].condition.fatigue + 1, 6)
            }
            &&& 0 <= other < ms.len() && ms[other].id != a_id && ms[other].id != b_id ==> ns[other] == ms[other]
        }),
{
    let ms = s0.monster_roster.monsters@;
    let bs = bonded_all(ms, a_id, b_id);
    lemma_first_numbered(ms, a_id);
    lemma_first_numbered(ms, b_id);
    assert forall|k: int| 0 <= k < ms.len() implies (#[trigger] ms[k]).id == bs[k].id by {}
    crate::state::keyed::lemma_first_numbered_same_ids(ms, bs, a_id);
    crate::state::keyed::lemma_first_numbered_same_ids(ms, bs, b_id);
    let i = first_numbered(ms, a_id).unwrap();
    let j = first_numbered(ms, b_id).unwrap();
    let c1 = commit_parent(bs, a_id);
    assert(c1 == bs.update(i, committed(bs[i])));
    assert forall|k: int| 0 <= k < bs.len() implies (#[trigger] bs[k]).id == c1[k].id by {}
    crate::state::keyed::lemma_first_numbered_same_ids(bs, c1, b_id);
    assert(i != j);
}

fn commit_one(state: &mut GameState, id: u64)
    ensures
        final(state).monster_roster.monsters@ == commit_parent(old(state).monster_roster.monsters@, id),
        *final(state) == (GameState {
            monster_roster: MonsterRoster { monsters: final(state).monster_roster.monsters, ..old(state).monster_roster },
            ..*old(state)
        }),
{
    match state.monster_roster.position(id) {
        Some(i) => {
            let mut m = state.monster_roster.monsters.remove(i);
            m.condition.commitment = DailyCommitment::Breeding;
            add_fatigue(&mut m, 1);
            state.monster_roster.monsters.insert(i, m);
            proof {
                assert(state.monster_roster.monsters@ =~= old(state).monster_roster.monsters@.update(i as int, m));
            }
        },
        None => {},
    }
}

fn commit_parent_recovery_time(state: &mut GameState, a_id: u64, b_id: u64)
    ensures
        final(state).monster_roster.monsters@ == commit_parent(commit_parent(old(state).monster_roster.monsters@, a_id), b_id),
        *final(state) == (GameState {
            monster_roster: MonsterRoster { monsters: final(state).monster_roster.monsters, ..old(state).monster_roster },
            ..*old(state)
        }),
{
    commit_one(state, a_id);
    commit_one(state, b_id);
}

pub open spec fn egg_full_line(current: nat, capacity: nat) -> Seq<char> {
    "Hatchery egg capacity is full ("@ + decimal(current) + "/"@ + decimal(capacity)
        + "). Build or upgrade the Hatchery before breeding."@
}

pub open spec fn incompatible_line(a: MonsterInstance, b: MonsterInstance) -> Seq<char> {
    a.name@ + " and "@ + b.name@ + " need a shared element, shared role, or stronger bonds."@
}

/// Why a breeding request is refused, checked in this order; none when the
/// pair may nest.
pub open spec fn breeding_refusal(state: GameState, data: GameData, a_id: u64, b_id: u64) -> Option<Seq<char>> {
    let hatchery = state.town.spec_building_level("hatchery"@);
    if state.town.spec_building_level("breeding_grove"@) == 0 {
        Some("Build the Breeding Grove before pairing monsters."@)
    } else if a_id == b_id {
        Some("Choose two different monsters for a breeding pair."@)
    } else if state.egg_inventory.eggs@.len() >= spec_egg_capacity(hatchery) {
        Some(egg_full_line(state.egg_inventory.eggs@.len(), spec_egg_capacity(hatchery) as nat))
    } else {
        match state.monster_roster.spec_monster(a_id) {
            None => Some("The first parent is no longer in the roster."@),
            Some(a) => match state.monster_roster.spec_monster(b_id) {
                None => Some("The second parent is no longer in the roster."@),
                Some(b) => if !spec_pair_compatible(a, b) {
                    Some(incompatible_line(a, b))
                } else if spec_daily_action_refusal(state, a) is Some {
                    spec_daily_action_refusal(state, a)
                } else if spec_daily_action_refusal(state, b) is Some {
                    spec_daily_action_refusal(state, b)
                } else if spec_select_egg(data, a, b, state.tower_progress.best_floor) is None {
                    Some("No egg type can carry that lineage yet."@)
                } else if state.resources.spec_amount("herbs"@) < 2 {
                    Some("Breeding needs 2 "@ + data.spec_resource_name("herbs"@) + "."@)
                } else {
                    None
                },
            },
        }
    }
}

fn breeding_check(state: &GameState, data: &GameData, a_id: u64, b_id: u64) -> (r: Result<(usize, usize, usize), String>)
    ensures
        match breeding_refusal(*state, *data, a_id, b_id) {
            Some(line) => r matches Err(e) && e@ == line,
            None => r matches Ok((ia, ib, k)) && first_numbered(state.monster_roster.monsters@, a_id) == Some(ia as int)
                && first_numbered(state.monster_roster.monsters@, b_id) == Some(ib as int)
                && spec_select_egg(*data, state.monster_roster.monsters@[ia as int], state.monster_roster.monsters@[ib as int],
                    state.tower_progress.best_floor) == Some(k as int)
                && ia < state.monster_roster.monsters@.len() && ib < state.monster_roster.monsters@.len()
                && k < data.egg_types@.len(),
        },
{
    proof {
        reveal_strlit("hatchery");
        reveal_strlit("breeding_grove");
        reveal_strlit("herbs");
    }
    if state.town.building_level("breeding_grove") == 0 {
        return Err(String::from_str("Build the Breeding Grove before pairing monsters."));
    }
    if a_id == b_id {
        return Err(String::from_str("Choose two different monsters for a breeding pair."));
    }
    if !has_egg_capacity(state) {
        let current = state.egg_inventory.eggs.len();
        let capacity = egg_capacity(state);
        let mut s = String::from_str("Hatchery egg capacity is full (");
        let x = decimal_text(current as u64);
        s.append(x.as_str());
        s.append("/");
        let y = decimal_text(capacity);
        s.append(y.as_str());
        s.append("). Build or upgrade the Hatchery before breeding.");
        return Err(s);
    }
    let ia = match state.monster_roster.position(a_id) {
        Some(i) => i,
        None => {
            return Err(String::from_str("The first parent is no longer in the roster."));
        },
    };
    let ib = match state.monster_roster.position(b_id) {
        Some(i) => i,
        None => {
            return Err(String::from_str("The second parent is no longer in the roster."));
        },
    };
    let a = &state.monster_roster.monsters[ia];
    let b = &state.monster_roster.monsters[ib];
    if !pair_is_compatible(a, b) {
        let mut s = a.name.clone();
        s.append(" and ");
        s.append(b.name.as_str());
        s.append(" need a shared element, shared role, or stronger bonds.");
        return Err(s);
    }
    match can_take_daily_action(state, a) {
        Err(e) => {
            return Err(e);
        },
        Ok(()) => {},
    }
    match can_take_daily_action(state, b) {
        Err(e) => {
            return Err(e);
        },
        Ok(()) => {},
    }
    let k = match select_egg_type(data, a, b, state.tower_progress.best_floor) {
        Some(k) => k,
        None => {
            return Err(String::from_str("No egg type can carry that lineage yet."));
        },
    };
    if state.resources.amount("herbs") < 2 {
        let mut s = String::from_str("Breeding needs 2 ");
        s.append(data.resource_name("herbs"));
        s.append(".");
        return Err(s);
    }
    Ok((ia, ib, k))
}

pub open spec fn nest_line(a: MonsterInstance, b: MonsterInstance, et: EggTypeDefinition, egg_id: u64, mutated: bool, quality: u32) -> Seq<char> {
    a.name@ + " and "@ + b.name@ + " nested "@ + et.name@ + " #"@ + decimal(egg_id as nat)
        + (if mutated { " with a tower mutation"@ } else { ""@ }) + " with "@ + spec_lineage_quality_label(quality)
        + " lineage."@
}

/// The floor a nest is recorded at: the best floor reached, one at least.
pub open spec fn origin_floor(state: GameState) -> u32 {
    max_int(state.tower_progress.best_floor as int, 1) as u32
}

/// What a successful nesting leaves: two herbs paid, a bred egg of the
/// selected type with the pair's inheritance, both parents one bond closer,
/// committed to breeding and a little tired, the starter's story beat the
/// first time it bonds this way, and the report in the activity log.
pub open spec fn nested(old_state: GameState, new_state: GameState, data: GameData, a_id: u64, b_id: u64, summary: Seq<char>) -> bool {
    let a = old_state.monster_roster.spec_monster(a_id).unwrap();
    let b = old_state.monster_roster.spec_monster(b_id).unwrap();
    let origin = origin_floor(old_state);
    let seed = spec_breeding_seed(old_state.day, old_state.egg_inventory.next_id, a, b);
    let et = data.egg_types@[spec_select_egg(data, a, b, old_state.tower_progress.best_floor).unwrap()];
    let egg = new_state.egg_inventory.eggs@.last();
    let inh = egg.inheritance.unwrap();
    let nudge = starter_bond_reached(old_state.monster_roster.monsters@, data.config.starter_name@, a_id, b_id)
        && !holds_name(old_state.story_flags.flags@, starter_flag());
    &&& forall|k: Seq<char>| #[trigger] new_state.resources.spec_amount(k) == old_state.resources.spec_amount(k)
        - if k == "herbs"@ { 2int } else { 0int }
    &&& new_state.egg_inventory.eggs@ == old_state.egg_inventory.eggs@.push(egg)
    &&& new_state.egg_inventory.next_id == if old_state.egg_inventory.next_id == u64::MAX { u64::MAX } else { (old_state.egg_inventory.next_id + 1) as u64 }
    &&& egg.id == old_state.egg_inventory.next_id
    &&& egg.egg_type_id@ == et.id@
    &&& egg.days_remaining == et.hatch_days
    &&& egg.origin_floor == origin
    &&& egg.palette_seed == seed
    &&& egg.care_focus == EggCareFocus::Idle && egg.care_points == 0 && egg.last_care_day == 0
    &&& !egg.studied && !egg.stabilised
    &&& egg.inheritance is Some && inheritance_of(inh, data, a, b, et, origin, seed)
    &&& new_state.monster_roster.monsters@ == commit_parent(commit_parent(bonded_all(old_state.monster_roster.monsters@, a_id, b_id), a_id), b_id)
    &&& new_state.monster_roster.party_slots == old_state.monster_roster.party_slots
    &&& new_state.monster_roster.next_id == old_state.monster_roster.next_id
    &&& nudge ==> holds_name(new_state.story_flags.flags@, starter_flag())
        && (forall|f: Seq<char>| f != starter_flag() ==> #[trigger] holds_name(new_state.story_flags.flags@, f)
            == holds_name(old_state.story_flags.flags@, f))
    &&& !nudge ==> new_state.story_flags.flags@ == old_state.story_flags.flags@
    &&& log_view(new_state.activity_log.entries@) == log_view(old_state.activity_log.entries@)
        + (if nudge { seq![(old_state.day, nudge_line(data.config.starter_name@))] } else { Seq::empty() })
        + seq![(old_state.day, summary)]
    &&& summary == nest_line(a, b, et, egg.id, inh.mutated, inh.lineage_quality)
    &&& new_state == (GameState {
        resources: new_state.resources,
        egg_inventory: new_state.egg_inventory,
        monster_roster: new_state.monster_roster,
        story_flags: new_state.story_flags,
        activity_log: new_state.activity_log,
        ..old_state
    })
}

fn nest_egg(state: &mut GameState, data: &GameData, ia: usize, ib: usize, k: usize) -> (summary: String)
    requires
        ia < old(state).monster_roster.monsters@.len(),
        ib < old(state).monster_roster.monsters@.len(),
        k < data.egg_types@.len(),
        old(state).resources.spec_amount("herbs"@) >= 2,
    ensures
        ({
            let a = old(state).monster_roster.monsters@[ia as int];
            let b = old(state).monster_roster.monsters@[ib as int];
            let origin = origin_floor(*old(state));
            let seed = spec_breeding_seed(old(state).day, old(state).egg_inventory.next_id, a, b);
            let et = data.egg_types@[k as int];
            let egg = final(state).egg_inventory.eggs@.last();
            let inh = egg.inheritance.unwrap();
            let nudge = starter_bond_reached(old(state).monster_roster.monsters@, data.config.starter_name@, a.id, b.id)
                && !holds_name(old(state).story_flags.flags@, starter_flag());
            &&& forall|k: Seq<char>| #[trigger] final(state).resources.spec_amount(k) == old(state).resources.spec_amount(k)
                - if k == "herbs"@ { 2int } else { 0int }
            &&& final(state).egg_inventory.eggs@ == old(state).egg_inventory.eggs@.push(egg)
            &&& final(state).egg_inventory.next_id == if old(state).egg_inventory.next_id == u64::MAX { u64::MAX } else { (old(state).egg_inventory.next_id + 1) as u64 }
            &&& egg.id == old(state).egg_inventory.next_id
            &&& egg.egg_type_id@ == et.id@
            &&& egg.days_remaining == et.hatch_days
            &&& egg.origin_floor == origin
            &&& egg.palette_seed == seed
            &&& egg.care_focus == EggCareFocus::Idle && egg.care_points == 0 && egg.last_care_day == 0
            &&& !egg.studied && !egg.stabilised
            &&& egg.inheritance is Some && inheritance_of(inh, *data, a, b, et, origin, seed)
            &&& final(state).monster_roster.monsters@ == commit_parent(commit_parent(bonded_all(old(state).monster_roster.monsters@, a.id, b.id), a.id), b.id)
            &&& final(state).monster_roster.party_slots == old(state).monster_roster.party_slots
            &&& final(state).monster_roster.next_id == old(state).monster_roster.next_id
            &&& nudge ==> holds_name(final(state).story_flags.flags@, starter_flag())
                && (forall|f: Seq<char>| f != starter_flag() ==> #[trigger] holds_name(final(state).story_flags.flags@, f)
                    == holds_name(old(state).story_flags.flags@, f))
            &&& !nudge ==> final(state).story_flags.flags@ == old(state).story_flags.flags@
            &&& log_view(final(state).activity_log.entries@) == log_view(old(state).activity_log.entries@)
                + (if nudge { seq![(old(state).day, nudge_line(data.config.starter_name@))] } else { Seq::empty() })
                + seq![(old(state).day, summary@)]
            &&& summary@ == nest_line(a, b, et, egg.id, inh.mutated, inh.lineage_quality)
            &&& *final(state) == (GameState {
                resources: final(state).resources,
                egg_inventory: final(state).egg_inventory,
                monster_roster: final(state).monster_roster,
                story_flags: final(state).story_flags,
                activity_log: final(state).activity_log,
                ..*old(state)
            })
        }),
{
    let a = state.monster_roster.monsters[ia].duplicate();
    let b = state.monster_roster.monsters[ib].duplicate();
    let et = &data.egg_types[k];
    let cost = breeding_cost();
    let ghost before = state.resources;
    let paid = state.resources.spend(cost.as_slice());
    proof {
        assert(affordable(before.stacks@, cost@));
        assert(cost@.drop_last() =~= Seq::<(String, i32)>::empty());
        assert forall|k: Seq<char>| cost_for(cost@, k) == if k == "herbs"@ { 2int } else { 0int } by {
            assert(cost@.last() == cost@[0]);
            assert(cost_for(cost@.drop_last(), k) == 0);
        }
    }
    let origin: u32 = if state.tower_progress.best_floor < 1 { 1 } else { state.tower_progress.best_floor };
    let seed = breeding_seed(state, &a, &b);
    let inh = build_inheritance(data, &a, &b, et, origin, seed);
    let mutated = inh.mutated;
    let quality = inh.lineage_quality;
    let egg_id = state.egg_inventory.add_bred_egg(et.id.clone(), et.hatch_days, origin, seed, inh);
    raise_parent_bonds(state, data, a.id, b.id);
    commit_parent_recovery_time(state, a.id, b.id);
    let mut s = a.name.clone();
    s.append(" and ");
    s.append(b.name.as_str());
    s.append(" nested ");
    s.append(et.name.as_str());
    s.append(" #");
    let n = decimal_text(egg_id);
    s.append(n.as_str());
    let ghost prefix = s@;
    if mutated {
        s.append(" with a tower mutation");
    }
    proof {
        reveal_strlit("");
        if !mutated {
            assert(prefix + ""@ =~= prefix);
        }
    }
    s.append(" with ");
    s.append(lineage_quality_label(quality));
    s.append(" lineage.");
    let summary = s.clone();
    let ghost logged = state.activity_log.entries@;
    state.activity_log.add(state.day, s);
    proof {
        assert(log_view(state.activity_log.entries@) =~= log_view(logged).push((old(state).day, summary@)));
        if !(starter_bond_reached(old(state).monster_roster.monsters@, data.config.starter_name@, a.id, b.id)
            && !holds_name(old(state).story_flags.flags@, starter_flag())) {
            assert(log_view(old(state).activity_log.entries@) + Seq::empty() =~= log_view(old(state).activity_log.entries@));
        }
    }
    summary
}

/// What asking two monsters to breed does: the first refusal that applies,
/// or a nest.
pub open spec fn breed_outcome(old_state: GameState, new_state: GameState, data: GameData, a_id: u64, b_id: u64, summary: Seq<char>) -> bool {
    match breeding_refusal(old_state, data, a_id, b_id) {
        Some(line) => new_state == old_state && summary == line,
        None => nested(old_state, new_state, data, a_id, b_id, summary),
    }
}

/// Pairs two monsters in the breeding grove. On success the pair nests a bred
/// egg in the hatchery; otherwise nothing changes and the summary says why.
pub fn breed_pair(state: &mut GameState, data: &GameData, first_id: u64, second_id: u64) -> (r: BreedingResult)
    ensures
        breed_outcome(*old(state), *final(state), *data, first_id, second_id, r.summary@),
{
    match breeding_check(state, data, first_id, second_id) {
        Err(e) => BreedingResult { summary: e },
        Ok((ia, ib, k)) => {
            proof {
                reveal_strlit("herbs");
                lemma_first_numbered(state.monster_roster.monsters@, first_id);
                lemma_first_numbered(state.monster_roster.monsters@, second_id);
            }
            let summary = nest_egg(state, data, ia, ib, k);
            BreedingResult { summary }
        },
    }
}

/// The odds shown for the first three eligible egg types: 60, 30 and 10.
pub open spec fn option_weight(i: int) -> u32 {
    if i == 0 { 60 } else if i == 1 { 30 } else { 10 }
}

pub open spec fn egg_option_view(data: GameData, eligible: Seq<int>) -> Seq<(Seq<char>, u32)> {
    eligible.take(min_int(eligible.len() as int, 3)).map(|i: int, k: int| (data.egg_types@[k].name@, option_weight(i)))
}

pub open spec fn option_pairs_view(v: Seq<(String, u32)>) -> Seq<(Seq<char>, u32)> {
    v.map_values(|p: (String, u32)| (p.0@, p.1))
}

/// What a forecast shows of a pair's nest from `seed`.
pub open spec fn forecast_of(
    f: BreedingForecast,
    data: GameData,
    a: MonsterInstance,
    b: MonsterInstance,
    et: EggTypeDefinition,
    origin: u32,
    seed: u64,
) -> bool {
    let mutated = spec_mutated(seed, origin);
    &&& option_pairs_view(f.egg_options@) == egg_option_view(data, spec_eligible_eggs(data, a, b, origin))
    &&& names_view(f.species_options@) == lineage_options(a.species_id@, b.species_id@,
        if mutated { Some(mutation_species(data, et, seed)) } else { None })
    &&& f.element_options@ == lineage_options(a.element, b.element, if mutated { Some(mutation_element(seed)) } else { None })
    &&& f.temperament_options@ == lineage_options(a.temperament, b.temperament,
        if mutated { Some(mutation_temperament(seed)) } else { None })
    &&& f.passive_options@ == lineage_options(a.passive, b.passive, if mutated { Some(mutation_passive(seed)) } else { None })
    &&& f.mutation_chance == spec_mutation_chance(origin)
    &&& f.lineage_quality == spec_lineage_quality(a, b, origin)
}

/// What `forecast_pair` answers for `first` and `second` in `state`.
pub open spec fn pair_forecast(state: GameState, data: GameData, first: MonsterInstance, second: MonsterInstance, r: Option<BreedingForecast>) -> bool {
    &&& (!spec_pair_compatible(first, second) ==> r is None)
    &&& (spec_pair_compatible(first, second) ==> match spec_select_egg(data, first, second, origin_floor(state)) {
        None => r is None,
        Some(k) => r matches Some(f) && forecast_of(f, data, first, second, data.egg_types@[k], origin_floor(state),
            spec_breeding_seed(state.day, state.egg_inventory.next_id, first, second)),
    })
}

/// What a compatible pair would pass on, without nesting; none for an
/// incompatible pair or where no egg type exists.
pub fn forecast_pair(state: &GameState, data: &GameData, first: &MonsterInstance, second: &MonsterInstance) -> (r: Option<BreedingForecast>)
    ensures
        pair_forecast(*state, *data, *first, *second, r),
{
    if !pair_is_compatible(first, second) {
        return None;
    }
    let origin: u32 = if state.tower_progress.best_floor < 1 { 1 } else { state.tower_progress.best_floor };
    let eligible = eligible_egg_types(data, first, second, origin);
    let ghost el = spec_eligible_eggs(*data, *first, *second, origin);
    let n: usize = if eligible.len() < 3 { eligible.len() } else { 3 };
    let mut egg_options: Vec<(String, u32)> = Vec::new();
    let mut i: usize = 0;
    while i < n
        invariant
            n as int == min_int(el.len() as int, 3),
            i <= n,
            egg_options@.len() == i,
            eligible@.len() == el.len(),
            forall|j: int| 0 <= j < eligible@.len() ==> eligible@[j] as int == #[trigger] el[j],
            forall|j: int| 0 <= j < eligible@.len() ==> #[trigger] eligible@[j] < data.egg_types@.len(),
            option_pairs_view(egg_options@) == el.take(i as int).map(|i: int, k: int| (data.egg_types@[k].name@, option_weight(i))),
        decreases n - i,
    {
        let weight: u32 = if i == 0 { 60 } else if i == 1 { 30 } else { 10 };
        let name = data.egg_types[eligible[i]].name.clone();
        let ghost before = egg_options@;
        egg_options.push((name, weight));
        proof {
            let prev = el.take(i as int).map(|i: int, k: int| (data.egg_types@[k].name@, option_weight(i)));
            let next = el.take(i as int + 1).map(|i: int, k: int| (data.egg_types@[k].name@, option_weight(i)));
            assert(option_pairs_view(before) == prev);
            assert forall|j: int| 0 <= j < i + 1 implies option_pairs_view(egg_options@)[j] == next[j] by {
                if j < i {
                    assert(egg_options@[j] == before[j]);
                    assert(option_pairs_view(before)[j] == prev[j]);
                }
            }
            assert(option_pairs_view(egg_options@) =~= next);
        }
        i += 1;
    }
    let k = match select_egg_type(data, first, second, origin) {
        Some(k) => k,
        None => {
            return None;
        },
    };
    let seed = breeding_seed(state, first, second);
    let inh = build_inheritance(data, first, second, &data.egg_types[k], origin, seed);
    Some(BreedingForecast {
        egg_options,
        species_options: inh.species_options,
        element_options: inh.element_options,
        temperament_options: inh.temperament_options,
        passive_options: inh.passive_options,
        mutation_chance: mutation_chance(origin),
        lineage_quality: lineage_quality(first, second, origin),
    })
}

/// Once the tower has been climbed, what a pair's forecast shows is what
/// breeding that pair nests: the same species, element, temperament and
/// passive options, the same lineage quality, and the odds of a mutation
/// at the egg's own floor.
pub proof fn law_forecast_matches_breeding(
    s0: GameState,
    s1: GameState,
    data: GameData,
    a_id: u64,
    b_id: u64,
    summary: Seq<char>,
    forecast: Option<BreedingForecast>,
)
    requires
        breed_outcome(s0, s1, data, a_id, b_id, summary),
        breeding_refusal(s0, data, a_id, b_id) is None,
        pair_forecast(s0, data, s0.monster_roster.spec_monster(a_id).unwrap(), s0.monster_roster.spec_monster(b_id).unwrap(), forecast),
        s0.tower_progress.best_floor >= 1,
    ensures
        forecast matches Some(f) && {
            let inh = s1.egg_inventory.eggs@.last().inheritance.unwrap();
            &&& s1.egg_inventory.eggs@.last().inheritance is Some
            &&& names_view(inh.species_options@) == names_view(f.species_options@)
            &&& inh.element_options@ == f.element_options@
            &&& inh.temperament_options@ == f.temperament_options@
            &&& inh.passive_options@ == f.passive_options@
            &&& inh.lineage_quality == f.lineage_quality
            &&& f.mutation_chance == spec_mutation_chance(inh.mutation_floor)
        },
{
    assert(origin_floor(s0) == s0.tower_progress.best_floor);
}

/// Breeding never overfills the hatchery: eggs within its capacity stay within it.
pub proof fn law_breeding_respects_hatchery(old_state: GameState, new_state: GameState, data: GameData, a_id: u64, b_id: u64, summary: Seq<char>)
    requires
        breed_outcome(old_state, new_state, data, a_id, b_id, summary),
        old_state.egg_inventory.eggs@.len() <= spec_egg_capacity(old_state.town.spec_building_level("hatchery"@)),
    ensures
        new_state.town == old_state.town,
        new_state.egg_inventory.eggs@.len() <= spec_egg_capacity(new_state.town.spec_building_level("hatchery"@)),
{
}

/// A refused breeding request spends nothing and changes nothing.
pub proof fn law_refused_breeding_changes_nothing(old_state: GameState, new_state: GameState, data: GameData, a_id: u64, b_id: u64, summary: Seq<char>)
    requires
        breed_outcome(old_state, new_state, data, a_id, b_id, summary),
        breeding_refusal(old_state, data, a_id, b_id) is Some,
    ensures
        new_state == old_state,
{
}

/// A pair may breed exactly when the Breeding Grove stands, the two are
/// different monsters of the roster with room for one more egg in the
/// hatchery, they are compatible (a shared element or role, or bonds adding
/// up to six), each is uninjured, without a town job and free today, some
/// egg type exists, and two herbs are in store.
pub proof fn law_breeding_allowed_when(state: GameState, data: GameData, a_id: u64, b_id: u64)
    ensures
        breeding_refusal(state, data, a_id, b_id) is None <==> {
            &&& state.town.spec_building_level("breeding_grove"@) != 0
            &&& a_id != b_id
            &&& state.egg_inventory.eggs@.len() < spec_egg_capacity(state.town.spec_building_level("hatchery"@))
            &&& state.monster_roster.spec_monster(a_id) matches Some(a)
            &&& state.monster_roster.spec_monster(b_id) matches Some(b)
            &&& (a.element == b.element || a.role == b.role || a.bond + b.bond >= 6)
            &&& a.condition.injury_days == 0 && state.town.spec_monster_job(a.id) is None && a.condition.commitment == DailyCommitment::Free
            &&& b.condition.injury_days == 0 && state.town.spec_monster_job(b.id) is None && b.condition.commitment == DailyCommitment::Free
            &&& data.egg_types@.len() > 0
            &&& state.resources.spec_amount("herbs"@) >= 2
        },
{
    match (state.monster_roster.spec_monster(a_id), state.monster_roster.spec_monster(b_id)) {
        (Some(a), Some(b)) => {
            law_chosen_egg_type(data, a, b, state.tower_progress.best_floor);
        },
        _ => {},
    }
}

/// A breeding that is not refused spends two herbs, adds one egg (carrying
/// both parents, of the chosen egg type with its full incubation, nested at
/// the pair's origin floor) and leaves the town and the party as they were.
pub proof fn law_breeding_nests_one_egg(s0: GameState, s1: GameState, data: GameData, a_id: u64, b_id: u64, summary: Seq<char>)
    requires
        breed_outcome(s0, s1, data, a_id, b_id, summary),
        breeding_refusal(s0, data, a_id, b_id) is None,
    ensures
        s1.resources.spec_amount("herbs"@) == s0.resources.spec_amount("herbs"@) - 2,
        s1.egg_inventory.eggs@.len() == s0.egg_inventory.eggs@.len() + 1,
        ({
            let egg = s1.egg_inventory.eggs@.last();
            let a = s0.monster_roster.spec_monster(a_id).unwrap();
            let b = s0.monster_roster.spec_monster(b_id).unwrap();
            let et = data.egg_types@[spec_select_egg(data, a, b, s0.tower_progress.best_floor).unwrap()];
            &&& egg.inheritance matches Some(inh) && inh.parent_ids@ == seq![a_id, b_id]
            &&& egg.egg_type_id@ == et.id@
            &&& egg.days_remaining == et.hatch_days
            &&& egg.origin_floor == if s0.tower_progress.best_floor >= 1 { s0.tower_progress.best_floor } else { 1 }
            &&& egg.id == s0.egg_inventory.next_id
        }),
        s1.town == s0.town,
        s1.monster_roster.party_slots == s0.monster_roster.party_slots,
        s1.day == s0.day,
{
    crate::state::keyed::lemma_first_numbered(s0.monster_roster.monsters@, a_id);
    crate::state::keyed::lemma_first_numbered(s0.monster_roster.monsters@, b_id);
}

/// A lineage keeps both parents' values, holds no value twice, and puts a
/// mutation's value first.
pub proof fn law_lineage_keeps_parents<T>(a: T, b: T, mutation: Option<T>)
    ensures
        lineage_options(a, b, mutation).contains(a),
        lineage_options(a, b, mutation).contains(b),
        lineage_options(a, b, mutation).no_duplicates(),
        mutation matches Some(m) ==> lineage_options(a, b, mutation)[0] == m,
{
    let s = lineage_options(a, b, mutation);
    match mutation {
        None => {
            if a == b {
                assert(s[0] == a);
            } else {
                assert(s[0] == a && s[1] == b);
            }
        },
        Some(m) => {
            if a == b {
                if a == m {
                    assert(s[0] == a);
                } else {
                    assert(s[1] == a);
                }
            } else if a == m {
                assert(s[0] == a && s[1] == b);
            } else if b == m {
                assert(s[0] == b && s[1] == a);
            } else {
                assert(s[1] == a && s[2] == b);
            }
        },
    }
}

/// What a nest passes on is never empty and its quality lies between one and five.
pub proof fn law_inheritance_well_formed(
    inh: EggInheritance,
    data: GameData,
    a: MonsterInstance,
    b: MonsterInstance,
    et: EggTypeDefinition,
    origin: u32,
    seed: u64,
)
    requires
        inheritance_of(inh, data, a, b, et, origin, seed),
    ensures
        inh.species_options@.len() > 0,
        inh.element_options@.len() > 0,
        inh.temperament_options@.len() > 0,
        inh.passive_options@.len() > 0,
        1 <= inh.lineage_quality <= 5,
        inh.element_options@.contains(a.element) && inh.element_options@.contains(b.element),
        inh.passive_options@.contains(a.passive) && inh.passive_options@.contains(b.passive),
{
    let mutated = spec_mutated(seed, origin);
    law_lineage_keeps_parents(a.element, b.element, if mutated { Some(mutation_element(seed)) } else { None });
    law_lineage_keeps_parents(a.temperament, b.temperament, if mutated { Some(mutation_temperament(seed)) } else { None });
    law_lineage_keeps_parents(a.passive, b.passive, if mutated { Some(mutation_passive(seed)) } else { None });
    law_lineage_keeps_parents(a.species_id@, b.species_id@, if mutated { Some(mutation_species(data, et, seed)) } else { None });
    assert(names_view(inh.species_options@).len() == inh.species_options@.len());
    assert(names_view(inh.species_options@).contains(a.species_id@));
}

} // verus!
