//! Building both sides of an encounter, and settling what a finished fight
//! leaves behind: rewards, experience, synced hit points and progress.

use vstd::prelude::*;
use crate::arith::{clamp_i32, clamp_u32, max_int, min_int, saturate_i32, sat_add_i32, sat_add_u32};
use crate::data::game_data::{GameData, same_entry};
use crate::data::schema::{EnemyDefinition, ResourceAmount, TowerFloorDefinition};
use crate::state::combat::{CombatView, CombatState, Combatant};
use crate::state::game::GameState;
use crate::state::keyed::{first_numbered, lemma_first_numbered, lemma_first_numbered_update};
use crate::state::records::TowerProgress;
use crate::state::resources::{ResourceStack, stack_view, add_stack_view, add_to_stacks, duplicate_stacks, law_add_stack_view, view_amount};
use crate::state::roster::{DailyCommitment, MonsterInstance, MonsterRoster, spec_fatigue_penalty};
use crate::state::tower_run::{TowerFoundEgg, TowerRunState};
use crate::text::{signed_decimal, signed_text};

verus! {

// ---------------------------------------------------------------- allies

/// How a party monster standing in formation slot `slot` enters combat:
/// fatigue lowers its stats, never below their floors.
pub open spec fn spec_ally_unit(m: MonsterInstance, slot: int) -> Combatant {
    let p = spec_fatigue_penalty(m.condition.fatigue) as int;
    let max_hp = max_int(m.max_hp - 2 * p, 1);
    Combatant {
        name: m.name,
        source_id: m.species_id,
        monster_id: Some(m.id),
        role: Some(m.role),
        slot: slot as usize,
        level: m.level,
        max_hp: max_hp as i32,
        hp: min_int(m.hp as int, max_hp) as i32,
        attack: max_int(m.attack - p, 1) as i32,
        defense: max_int(m.defense - p, 0) as i32,
        speed: max_int(m.speed - p, 1) as i32,
        morale: clamp_i32(50 + m.bond - 4 * m.condition.fatigue) as i32,
        is_defending: false,
        is_guarding: false,
        is_marked: false,
        visual_seed: m.visual_seed,
    }
}

/// A party monster fights with its own stats while fresh (fatigue under
/// three); tired (three or four) it loses 1 attack, defense and speed and
/// 2 max HP, exhausted (five or more) twice that, never below 1 attack,
/// speed and max HP or 0 defense, and never with more HP than its maximum.
/// Its morale is 50 plus its bond, less four per point of fatigue.
pub proof fn law_ally_unit(m: MonsterInstance, slot: int)
    requires
        0 <= slot < 6,
        m.max_hp >= 5 && m.attack >= 3 && m.defense >= 2 && m.speed >= 3,
        m.bond <= 1000,
    ensures
        ({
            let u = spec_ally_unit(m, slot);
            let p: int = if m.condition.fatigue >= 5 { 2 } else if m.condition.fatigue >= 3 { 1 } else { 0 };
            &&& u.monster_id == Some(m.id)
            &&& u.slot == slot
            &&& u.max_hp == m.max_hp - 2 * p
            &&& u.attack == m.attack - p
            &&& u.defense == m.defense - p
            &&& u.speed == m.speed - p
            &&& u.hp == min_int(m.hp as int, m.max_hp - 2 * p)
            &&& u.morale == 50 + m.bond - 4 * m.condition.fatigue || m.condition.fatigue > 1000
            &&& !u.is_marked && !u.is_defending && !u.is_guarding
        }),
{
}

/// A monster may fight when it is battle ready, has no town job, and, during
/// a tower run, is committed to the tower.
pub open spec fn may_fight(state: GameState, m: MonsterInstance) -> bool {
    &&& m.spec_battle_ready()
    &&& state.town.spec_monster_job(m.id) is None
    &&& (state.tower_run is Some ==> m.condition.commitment == DailyCommitment::Tower)
}

/// The combatant that formation slot `slot` contributes, if any.
pub open spec fn spec_ally_at(state: GameState, slot: int) -> Option<Combatant> {
    match state.monster_roster.party_slots@[slot] {
        Some(id) => match state.monster_roster.spec_monster(id) {
            Some(m) => if may_fight(state, m) { Some(spec_ally_unit(m, slot)) } else { None },
            None => None,
        },
        None => None,
    }
}

/// The combatants of the first `n` formation slots, in slot order.
pub open spec fn allies_upto(state: GameState, n: int) -> Seq<Combatant>
    decreases n,
{
    if n <= 0 {
        Seq::empty()
    } else {
        let prev = allies_upto(state, n - 1);
        match spec_ally_at(state, n - 1) {
            Some(c) => prev.push(c),
            None => prev,
        }
    }
}

pub open spec fn spec_build_allies(state: GameState) -> Seq<Combatant> {
    allies_upto(state, state.monster_roster.party_slots@.len() as int)
}

fn ally_unit(m: &MonsterInstance, slot: usize) -> (c: Combatant)
    ensures
        c == spec_ally_unit(*m, slot as int),
{
    let p = m.fatigue_penalty();
    let max_hp_wide: i64 = m.max_hp as i64 - 2 * p as i64;
    let max_hp: i32 = if max_hp_wide < 1 { 1 } else { max_hp_wide as i32 };
    let hp: i32 = if m.hp < max_hp { m.hp } else { max_hp };
    let attack_wide: i64 = m.attack as i64 - p as i64;
    let attack: i32 = if attack_wide < 1 { 1 } else { attack_wide as i32 };
    let defense_wide: i64 = m.defense as i64 - p as i64;
    let defense: i32 = if defense_wide < 0 { 0 } else { defense_wide as i32 };
    let speed_wide: i64 = m.speed as i64 - p as i64;
    let speed: i32 = if speed_wide < 1 { 1 } else { speed_wide as i32 };
    let morale = saturate_i32(50 + m.bond as i64 - 4 * m.condition.fatigue as i64);
    Combatant {
        name: m.name.clone(),
        source_id: m.species_id.clone(),
        monster_id: Some(m.id),
        role: Some(m.role),
        slot,
        level: m.level,
        max_hp,
        hp,
        attack,
        defense,
        speed,
        morale,
        is_defending: false,
        is_guarding: false,
        is_marked: false,
        visual_seed: m.visual_seed,
    }
}

/// The party's side of an encounter, one combatant per formation slot whose
/// monster may fight.
pub fn build_allies(state: &GameState) -> (r: Vec<Combatant>)
    ensures
        r@ == spec_build_allies(*state),
{
    let mut out: Vec<Combatant> = Vec::new();
    let n = state.monster_roster.party_slots.len();
    let mut i: usize = 0;
    while i < n
        invariant
            i <= n,
            n == state.monster_roster.party_slots@.len(),
            out@ == allies_upto(*state, i as int),
        decreases n - i,
    {
        match state.monster_roster.party_slots[i] {
            Some(id) => match state.monster_roster.monster(id) {
                Some(m) => {
                    if m.is_battle_ready() && state.town.monster_job(m.id).is_none() && (state.tower_run.is_none()
                        || m.condition.commitment == DailyCommitment::Tower) {
                        out.push(ally_unit(m, i));
                    }
                },
                None => {},
            },
            None => {},
        }
        i += 1;
    }
    out
}

// ---------------------------------------------------------------- enemies

/// The start value and step of the id hash that seeds an enemy's look.
pub open spec fn hash_bytes(bytes: Seq<u8>) -> u64
    decreases bytes.len(),
{
    if bytes.len() == 0 {
        0xC0B4_7000u64
    } else {
        hash_bytes(bytes.drop_last()).wrapping_mul(37) ^ (bytes.last() as u64)
    }
}

pub open spec fn spec_hash_id(id: Seq<char>) -> u64 {
    hash_bytes(vstd::utf8::encode_utf8(id))
}

fn hash_id(id: &String) -> (h: u64)
    ensures
        h == spec_hash_id(id@),
{
    let bytes = id.as_str().as_bytes();
    let mut h: u64 = 0xC0B4_7000;
    let mut i: usize = 0;
    while i < bytes.len()
        invariant
            i <= bytes@.len(),
            bytes@ == vstd::utf8::encode_utf8(id@),
            h == hash_bytes(bytes@.take(i as int)),
        decreases bytes.len() - i,
    {
        assert(bytes@.take(i as int + 1).drop_last() =~= bytes@.take(i as int));
        h = h.wrapping_mul(37) ^ (bytes[i] as u64);
        i += 1;
    }
    assert(bytes@.take(bytes@.len() as int) =~= bytes@);
    h
}

pub open spec fn enemy_fits(e: EnemyDefinition, floor: u32, is_boss: bool) -> bool {
    e.is_boss == is_boss && e.min_floor <= floor && floor <= e.max_floor
}

/// Positions, among the first `n` enemy definitions, of those that fit the floor.
pub open spec fn eligible_upto(es: Seq<EnemyDefinition>, n: int, floor: u32, is_boss: bool) -> Seq<usize>
    decreases n,
{
    if n <= 0 {
        Seq::empty()
    } else {
        let prev = eligible_upto(es, n - 1, floor, is_boss);
        if enemy_fits(es[n - 1], floor, is_boss) { prev.push((n - 1) as usize) } else { prev }
    }
}

pub open spec fn eligible_enemies(data: GameData, floor: u32, is_boss: bool) -> Seq<usize> {
    eligible_upto(data.enemies@, data.enemies@.len() as int, floor, is_boss)
}

pub proof fn lemma_eligible_bounds(es: Seq<EnemyDefinition>, n: int, floor: u32, is_boss: bool)
    requires
        n <= es.len(),
    ensures
        eligible_upto(es, n, floor, is_boss).len() <= if n < 0 { 0 } else { n },
        forall|k: int| 0 <= k < eligible_upto(es, n, floor, is_boss).len() ==> #[trigger] eligible_upto(es, n, floor, is_boss)[k] < n,
    decreases n,
{
    if n > 0 {
        lemma_eligible_bounds(es, n - 1, floor, is_boss);
    }
}

/// How many enemies an encounter has: one boss, or one more per four floors up to three.
pub open spec fn spec_enemy_count(floor: u32, is_boss: bool) -> int {
    if is_boss { 1 } else { min_int(1 + floor / 4, 3) }
}

/// An enemy definition scaled to `floor`, standing in slot `slot`.
pub open spec fn spec_enemy_unit(e: EnemyDefinition, floor: u32, is_boss: bool, slot: int) -> Combatant {
    Combatant {
        name: e.name,
        source_id: e.id,
        monster_id: None,
        role: None,
        slot: slot as usize,
        level: floor,
        max_hp: clamp_i32(e.max_hp + floor) as i32,
        hp: clamp_i32(e.max_hp + floor) as i32,
        attack: clamp_i32(e.attack + floor / 3) as i32,
        defense: e.defense,
        speed: e.speed,
        morale: if is_boss { 90 } else { clamp_i32(35 + 3 * floor) as i32 },
        is_defending: false,
        is_guarding: false,
        is_marked: false,
        visual_seed: spec_hash_id(e.id@) ^ (floor as u64),
    }
}

/// Enemies grow with the floor: one more HP per floor, one more attack per
/// three floors, morale 35 plus three per floor (90 for a boss), the rest as
/// defined; an encounter holds one more enemy every four floors, up to
/// three, and a boss fights alone.
pub proof fn law_enemy_scaling(e: EnemyDefinition, floor: u32, is_boss: bool, slot: int)
    requires
        0 <= slot < 6,
        -1000000 <= e.max_hp <= 1000000,
        -1000000 <= e.attack <= 1000000,
        floor <= 1000000,
    ensures
        ({
            let u = spec_enemy_unit(e, floor, is_boss, slot);
            &&& u.max_hp == e.max_hp + floor
            &&& u.hp == u.max_hp
            &&& u.attack == e.attack + floor / 3
            &&& u.defense == e.defense
            &&& u.speed == e.speed
            &&& u.morale == if is_boss { 90 } else { 35 + 3 * floor }
            &&& u.level == floor
            &&& u.slot == slot
            &&& u.monster_id is None
            &&& !u.is_marked && !u.is_defending && !u.is_guarding
        }),
        spec_enemy_count(floor, true) == 1,
        floor < 4 ==> spec_enemy_count(floor, false) == 1,
        4 <= floor < 8 ==> spec_enemy_count(floor, false) == 2,
        floor >= 8 ==> spec_enemy_count(floor, false) == 3,
{
}

/// The enemy side of an encounter: slot `k` takes the eligible definition at
/// position `(floor + k)` modulo how many are eligible.
pub open spec fn spec_build_enemies(data: GameData, floor: u32, is_boss: bool) -> Seq<Combatant> {
    let idx = eligible_enemies(data, floor, is_boss);
    if idx.len() == 0 {
        Seq::empty()
    } else {
        Seq::new(
            spec_enemy_count(floor, is_boss) as nat,
            |k: int| spec_enemy_unit(data.enemies@[idx[(floor + k) % (idx.len() as int)] as int], floor, is_boss, k),
        )
    }
}

fn enemy_unit(e: &EnemyDefinition, floor: u32, is_boss: bool, slot: usize) -> (c: Combatant)
    ensures
        c == spec_enemy_unit(*e, floor, is_boss, slot as int),
{
    let hp = saturate_i32(e.max_hp as i64 + floor as i64);
    Combatant {
        name: e.name.clone(),
        source_id: e.id.clone(),
        monster_id: None,
        role: None,
        slot,
        level: floor,
        max_hp: hp,
        hp,
        attack: saturate_i32(e.attack as i64 + (floor / 3) as i64),
        defense: e.defense,
        speed: e.speed,
        morale: if is_boss { 90 } else { saturate_i32(35 + 3 * floor as i64) },
        is_defending: false,
        is_guarding: false,
        is_marked: false,
        visual_seed: hash_id(&e.id) ^ (floor as u64),
    }
}

/// The enemy side of an encounter on `floor`.
pub fn build_enemies(data: &GameData, floor: u32, is_boss: bool) -> (r: Vec<Combatant>)
    ensures
        r@ == spec_build_enemies(*data, floor, is_boss),
{
    let ghost es = data.enemies@;
    let mut eligible: Vec<usize> = Vec::new();
    let mut i: usize = 0;
    while i < data.enemies.len()
        invariant
            i <= es.len(),
            es == data.enemies@,
            eligible@ == eligible_upto(es, i as int, floor, is_boss),
        decreases data.enemies.len() - i,
    {
        let e = &data.enemies[i];
        if e.is_boss == is_boss && e.min_floor <= floor && floor <= e.max_floor {
            eligible.push(i);
        }
        i += 1;
    }
    let mut out: Vec<Combatant> = Vec::new();
    if eligible.len() == 0 {
        return out;
    }
    proof {
        lemma_eligible_bounds(es, es.len() as int, floor, is_boss);
    }
    let count: usize = if is_boss {
        1
    } else if 1 + floor / 4 < 3 {
        (1 + floor / 4) as usize
    } else {
        3
    };
    let len = eligible.len();
    let mut k: usize = 0;
    while k < count
        invariant
            k <= count,
            count == spec_enemy_count(floor, is_boss),
            len == eligible@.len(),
            len > 0,
            es == data.enemies@,
            eligible@ == eligible_enemies(*data, floor, is_boss),
            forall|j: int| 0 <= j < eligible@.len() ==> #[trigger] eligible@[j] < es.len(),
            out@ =~= Seq::new(k as nat, |j: int| spec_enemy_unit(es[eligible@[(floor + j) % (len as int)] as int], floor, is_boss, j)),
        decreases count - k,
    {
        let pos = ((floor as u64 + k as u64) % (len as u64)) as usize;
        let e = &data.enemies[eligible[pos]];
        out.push(enemy_unit(e, floor, is_boss, k));
        k += 1;
    }
    out
}

// ---------------------------------------------------------------- rewards

/// Each reward added to a stack view in turn.
pub open spec fn add_rewards_view(sv: Seq<(Seq<char>, i32)>, rewards: Seq<ResourceAmount>) -> Seq<(Seq<char>, i32)>
    decreases rewards.len(),
{
    if rewards.len() == 0 {
        sv
    } else {
        add_stack_view(add_rewards_view(sv, rewards.drop_last()), rewards.last().resource_id@, rewards.last().amount)
    }
}

/// The rewards of every enemy whose definition is known, merged by resource id.
pub open spec fn spec_combined_rewards(data: GameData, es: Seq<Combatant>) -> Seq<(Seq<char>, i32)>
    decreases es.len(),
{
    if es.len() == 0 {
        Seq::empty()
    } else {
        let prev = spec_combined_rewards(data, es.drop_last());
        match data.spec_enemy(es.last().source_id@) {
            Some(e) => add_rewards_view(prev, e.rewards@),
            None => prev,
        }
    }
}

fn add_rewards(stacks: &mut Vec<ResourceStack>, rewards: &Vec<ResourceAmount>)
    ensures
        stack_view(final(stacks)@) == add_rewards_view(stack_view(old(stacks)@), rewards@),
{
    let ghost start = stack_view(stacks@);
    let mut j: usize = 0;
    while j < rewards.len()
        invariant
            j <= rewards@.len(),
            stack_view(stacks@) == add_rewards_view(start, rewards@.take(j as int)),
        decreases rewards.len() - j,
    {
        assert(rewards@.take(j as int + 1).drop_last() =~= rewards@.take(j as int));
        add_to_stacks(stacks, rewards[j].resource_id.as_str(), rewards[j].amount);
        j += 1;
    }
    assert(rewards@.take(rewards@.len() as int) =~= rewards@);
}

/// The loot an encounter offers: every enemy's rewards, merged by resource id.
pub fn combined_rewards(data: &GameData, enemies: &Vec<Combatant>) -> (r: Vec<ResourceStack>)
    ensures
        stack_view(r@) == spec_combined_rewards(*data, enemies@),
{
    let mut out: Vec<ResourceStack> = Vec::new();
    let mut i: usize = 0;
    proof {
        assert(stack_view(out@) =~= Seq::<(Seq<char>, i32)>::empty());
    }
    while i < enemies.len()
        invariant
            i <= enemies@.len(),
            stack_view(out@) == spec_combined_rewards(*data, enemies@.take(i as int)),
        decreases enemies.len() - i,
    {
        assert(enemies@.take(i as int + 1).drop_last() =~= enemies@.take(i as int));
        match data.enemy(enemies[i].source_id.as_str()) {
            Some(e) => add_rewards(&mut out, &e.rewards),
            None => {},
        }
        i += 1;
    }
    assert(enemies@.take(enemies@.len() as int) =~= enemies@);
    out
}

/// The experience every known enemy is worth, summed.
pub open spec fn xp_total(data: GameData, es: Seq<Combatant>) -> int
    decreases es.len(),
{
    if es.len() == 0 {
        0
    } else {
        xp_total(data, es.drop_last()) + match data.spec_enemy(es.last().source_id@) {
            Some(e) => e.xp_reward as int,
            None => 0,
        }
    }
}

/// The experience an encounter is worth, capped at the largest `u32`.
pub fn encounter_xp(data: &GameData, enemies: &Vec<Combatant>) -> (r: u32)
    ensures
        r == min_int(xp_total(*data, enemies@), u32::MAX as int),
{
    let mut total: u32 = 0;
    let mut i: usize = 0;
    while i < enemies.len()
        invariant
            i <= enemies@.len(),
            total == min_int(xp_total(*data, enemies@.take(i as int)), u32::MAX as int),
            xp_total(*data, enemies@.take(i as int)) >= 0,
        decreases enemies.len() - i,
    {
        assert(enemies@.take(i as int + 1).drop_last() =~= enemies@.take(i as int));
        match data.enemy(enemies[i].source_id.as_str()) {
            Some(e) => {
                total = sat_add_u32(total, e.xp_reward);
            },
            None => {},
        }
        i += 1;
    }
    assert(enemies@.take(enemies@.len() as int) =~= enemies@);
    total
}

/// "amount name" for one stack.
pub open spec fn reward_entry(data: GameData, e: (Seq<char>, i32)) -> Seq<char> {
    signed_decimal(e.1 as int) + " "@ + data.spec_resource_name(e.0)
}

/// The entries of a stack view joined with ", ".
pub open spec fn reward_list(data: GameData, sv: Seq<(Seq<char>, i32)>) -> Seq<char>
    decreases sv.len(),
{
    if sv.len() == 0 {
        Seq::empty()
    } else if sv.len() == 1 {
        reward_entry(data, sv[0])
    } else {
        reward_list(data, sv.drop_last()) + ", "@ + reward_entry(data, sv.last())
    }
}

/// How a list of rewards reads in a summary.
pub open spec fn spec_reward_text(data: GameData, sv: Seq<(Seq<char>, i32)>) -> Seq<char> {
    if sv.len() == 0 { "no materials"@ } else { reward_list(data, sv) }
}

fn append_entry(s: &mut String, data: &GameData, stack: &ResourceStack)
    ensures
        final(s)@ == old(s)@ + reward_entry(*data, (stack.resource_id@, stack.amount)),
{
    let n = signed_text(stack.amount as i64);
    s.append(n.as_str());
    s.append(" ");
    s.append(data.resource_name(stack.resource_id.as_str()));
}

/// The rewards as "amount name" entries joined with ", ", or "no materials".
pub fn reward_text(data: &GameData, rewards: &Vec<ResourceStack>) -> (s: String)
    ensures
        s@ == spec_reward_text(*data, stack_view(rewards@)),
{
    if rewards.len() == 0 {
        return String::from_str("no materials");
    }
    let ghost sv = stack_view(rewards@);
    let mut s = String::new();
    append_entry(&mut s, data, &rewards[0]);
    proof {
        assert(sv.take(1).len() == 1);
        assert(s@ == reward_list(*data, sv.take(1)));
    }
    let mut i: usize = 1;
    while i < rewards.len()
        invariant
            1 <= i <= rewards@.len(),
            sv == stack_view(rewards@),
            s@ == reward_list(*data, sv.take(i as int)),
        decreases rewards.len() - i,
    {
        assert(sv.take(i as int + 1).drop_last() =~= sv.take(i as int));
        s.append(", ");
        append_entry(&mut s, data, &rewards[i]);
        i += 1;
    }
    assert(sv.take(sv.len() as int) =~= sv);
    s
}

/// Whether any enemy was marked during the fight.
pub open spec fn any_marked(es: Seq<Combatant>) -> bool {
    exists|i: int| 0 <= i < es.len() && #[trigger] es[i].is_marked
}

/// What a won fight pays: the encounter's loot, plus coins when an enemy was marked.
pub open spec fn spec_victory_rewards(v: CombatView) -> Seq<(Seq<char>, i32)> {
    if any_marked(v.enemies) {
        add_stack_view(stack_view(v.rewards), "coins"@, clamp_i32(2 + v.floor / 2) as i32)
    } else {
        stack_view(v.rewards)
    }
}

/// A won fight pays the encounter's loot; with an enemy marked it pays
/// 2 more coins plus one per two floors, and nothing else changes.
pub proof fn law_marked_victory_pays_coins(v: CombatView, other: Seq<char>)
    ensures
        any_marked(v.enemies) ==> view_amount(spec_victory_rewards(v), "coins"@)
            == clamp_i32(view_amount(stack_view(v.rewards), "coins"@) + clamp_i32(2 + v.floor / 2)),
        any_marked(v.enemies) && other != "coins"@ ==> view_amount(spec_victory_rewards(v), other)
            == view_amount(stack_view(v.rewards), other),
        !any_marked(v.enemies) ==> spec_victory_rewards(v) == stack_view(v.rewards),
{
    law_add_stack_view(stack_view(v.rewards), "coins"@, clamp_i32(2 + v.floor / 2) as i32, other);
}

fn marked_enemy(es: &Vec<Combatant>) -> (r: bool)
    ensures
        r == any_marked(es@),
{
    let mut i: usize = 0;
    while i < es.len()
        invariant
            i <= es@.len(),
            forall|j: int| 0 <= j < i ==> !(#[trigger] es@[j]).is_marked,
        decreases es.len() - i,
    {
        if es[i].is_marked {
            return true;
        }
        i += 1;
    }
    false
}

pub fn victory_rewards(combat: &CombatState) -> (r: Vec<ResourceStack>)
    ensures
        stack_view(r@) == spec_victory_rewards(combat@),
{
    let mut rewards = duplicate_stacks(&combat.rewards);
    if marked_enemy(&combat.enemies) {
        let bonus = saturate_i32(2 + (combat.floor / 2) as i64);
        add_to_stacks(&mut rewards, "coins", bonus);
    }
    rewards
}

// ---------------------------------------------------------------- settling

/// The hit points a monster keeps from its combatant: at least one, at most its maximum.
pub open spec fn synced_hp(a: Combatant, m: MonsterInstance) -> i32 {
    min_int(max_int(a.hp as int, 1), m.max_hp as int) as i32
}

/// One combatant's hit points written back to its monster, if it has one in the roster.
pub open spec fn sync_one(ms: Seq<MonsterInstance>, a: Combatant) -> Seq<MonsterInstance> {
    match a.monster_id {
        Some(id) => match first_numbered(ms, id) {
            Some(i) => ms.update(i, MonsterInstance { hp: synced_hp(a, ms[i]), ..ms[i] }),
            None => ms,
        },
        None => ms,
    }
}

pub open spec fn sync_all(ms: Seq<MonsterInstance>, allies: Seq<Combatant>) -> Seq<MonsterInstance>
    decreases allies.len(),
{
    if allies.len() == 0 {
        ms
    } else {
        sync_one(sync_all(ms, allies.drop_last()), allies.last())
    }
}

/// The roster after every combatant's hit points are written back.
pub fn sync_allies(state: &mut GameState, combat: &CombatState)
    ensures
        *final(state) == (GameState {
            monster_roster: MonsterRoster { monsters: final(state).monster_roster.monsters, ..old(state).monster_roster },
            ..*old(state)
        }),
        final(state).monster_roster.monsters@ == sync_all(old(state).monster_roster.monsters@, combat.allies@),
{
    let ghost initial = *state;
    let mut i: usize = 0;
    while i < combat.allies.len()
        invariant
            i <= combat.allies@.len(),
            *state == (GameState {
                monster_roster: MonsterRoster { monsters: state.monster_roster.monsters, ..initial.monster_roster },
                ..initial
            }),
            state.monster_roster.monsters@ == sync_all(initial.monster_roster.monsters@, combat.allies@.take(i as int)),
        decreases combat.allies.len() - i,
    {
        assert(combat.allies@.take(i as int + 1).drop_last() =~= combat.allies@.take(i as int));
        let ally = &combat.allies[i];
        match ally.monster_id {
            Some(id) => match state.monster_roster.position(id) {
                Some(p) => {
                    let mut m = state.monster_roster.monsters[p].duplicate();
                    let low: i32 = if ally.hp < 1 { 1 } else { ally.hp };
                    m.hp = if low < m.max_hp { low } else { m.max_hp };
                    state.monster_roster.monsters.set(p, m);
                },
                None => {},
            },
            None => {},
        }
        i += 1;
    }
    assert(combat.allies@.take(combat.allies@.len() as int) =~= combat.allies@);
}

/// One level gained: the experience it cost is spent and the stats grow.
pub open spec fn level_once(m: MonsterInstance) -> MonsterInstance {
    let level = (m.level + 1) as u32;
    let max_hp = clamp_i32(m.max_hp + 3) as i32;
    MonsterInstance {
        xp: (m.xp - m.level * 20) as u32,
        level,
        max_hp,
        hp: max_hp,
        attack: clamp_i32(m.attack + 1) as i32,
        defense: clamp_i32(m.defense + 1) as i32,
        speed: if level % 2 == 0 { clamp_i32(m.speed + 1) as i32 } else { m.speed },
        ..m
    }
}

/// Levels gained while the experience covers twenty per current level.
pub open spec fn spec_level_up(m: MonsterInstance) -> MonsterInstance
    decreases m.xp + (if m.level == 0 { 1int } else { 0int }),
{
    if m.xp >= m.level * 20 {
        spec_level_up(level_once(m))
    } else {
        m
    }
}

/// Levelling up spends twenty experience per current level for each level
/// gained, until what is left falls short of the next; a level gained adds
/// 3 max HP (and restores HP to it), 1 attack and 1 defense, and 1 speed on
/// reaching an even level.
pub proof fn law_level_up(m: MonsterInstance)
    ensures
        spec_level_up(m).xp < spec_level_up(m).level * 20,
        spec_level_up(m).level >= m.level,
        m.xp < m.level * 20 ==> spec_level_up(m) == m,
        m.xp >= m.level * 20 && m.max_hp + 3 <= i32::MAX && m.attack < i32::MAX && m.defense < i32::MAX ==> {
            let n = level_once(m);
            &&& n.level == m.level + 1
            &&& n.xp == m.xp - m.level * 20
            &&& n.max_hp == m.max_hp + 3
            &&& n.hp == n.max_hp
            &&& n.attack == m.attack + 1
            &&& n.defense == m.defense + 1
            &&& (m.speed < i32::MAX ==> n.speed == if n.level % 2 == 0 { m.speed + 1 } else { m.speed as int })
            &&& spec_level_up(m) == spec_level_up(n)
        },
    decreases m.xp + (if m.level == 0 { 1int } else { 0int }),
{
    if m.xp >= m.level * 20 {
        law_level_up(level_once(m));
    }
}

fn level_up(m: &mut MonsterInstance)
    ensures
        *final(m) == spec_level_up(*old(m)),
{
    while m.xp as u64 >= m.level as u64 * 20
        invariant
            spec_level_up(*m) == spec_level_up(*old(m)),
        decreases m.xp + (if m.level == 0 { 1int } else { 0int }),
    {
        m.xp = m.xp - m.level * 20;
        m.level = m.level + 1;
        m.max_hp = sat_add_i32(m.max_hp, 3);
        m.hp = m.max_hp;
        m.attack = sat_add_i32(m.attack, 1);
        m.defense = sat_add_i32(m.defense, 1);
        if m.level % 2 == 0 {
            m.speed = sat_add_i32(m.speed, 1);
        }
    }
}

/// Experience for one formation slot: its monster gains it, and levels, only
/// when committed to the tower.
pub open spec fn award_one(ms: Seq<MonsterInstance>, slot: Option<u64>, xp: u32) -> Seq<MonsterInstance> {
    match slot {
        Some(id) => match first_numbered(ms, id) {
            Some(i) => if ms[i].condition.commitment == DailyCommitment::Tower {
                ms.update(i, spec_level_up(MonsterInstance { xp: clamp_u32(ms[i].xp + xp) as u32, ..ms[i] }))
            } else {
                ms
            },
            None => ms,
        },
        None => ms,
    }
}

/// Experience from an encounter reaches a party monster only when it went up
/// the tower today: such a monster gains the experience (and the levels it
/// pays for), and no other monster changes.
pub proof fn law_experience_for_climbers(ms: Seq<MonsterInstance>, slot: Option<u64>, xp: u32)
    ensures
        slot matches Some(id) ==> (first_numbered(ms, id) matches Some(i) ==> {
            let after = award_one(ms, slot, xp);
            &&& after.len() == ms.len()
            &&& (ms[i].condition.commitment != DailyCommitment::Tower ==> after == ms)
            &&& (ms[i].condition.commitment == DailyCommitment::Tower ==> {
                &&& after[i] == spec_level_up(MonsterInstance { xp: clamp_u32(ms[i].xp + xp) as u32, ..ms[i] })
                &&& after[i].level >= ms[i].level
                &&& forall|j: int| 0 <= j < ms.len() && j != i ==> after[j] == ms[j]
            })
        }),
        slot is None ==> award_one(ms, slot, xp) == ms,
{
    if slot is Some {
        crate::state::keyed::lemma_first_numbered(ms, slot.unwrap());
        if first_numbered(ms, slot.unwrap()) is Some {
            let i = first_numbered(ms, slot.unwrap()).unwrap();
            law_level_up(MonsterInstance { xp: clamp_u32(ms[i].xp + xp) as u32, ..ms[i] });
        }
    }
}

pub open spec fn award_upto(ms: Seq<MonsterInstance>, slots: Seq<Option<u64>>, n: int, xp: u32) -> Seq<MonsterInstance>
    decreases n,
{
    if n <= 0 {
        ms
    } else {
        award_one(award_upto(ms, slots, n - 1, xp), slots[n - 1], xp)
    }
}

/// Every formation slot in turn receives the encounter's experience.
pub fn award_xp(state: &mut GameState, xp_reward: u32)
    ensures
        *final(state) == (GameState {
            monster_roster: MonsterRoster { monsters: final(state).monster_roster.monsters, ..old(state).monster_roster },
            ..*old(state)
        }),
        final(state).monster_roster.monsters@ == award_upto(
            old(state).monster_roster.monsters@,
            old(state).monster_roster.party_slots@,
            old(state).monster_roster.party_slots@.len() as int,
            xp_reward,
        ),
{
    let ghost initial = *state;
    let n = state.monster_roster.party_slots.len();
    let mut i: usize = 0;
    while i < n
        invariant
            i <= n,
            n == initial.monster_roster.party_slots@.len(),
            *state == (GameState {
                monster_roster: MonsterRoster { monsters: state.monster_roster.monsters, ..initial.monster_roster },
                ..initial
            }),
            state.monster_roster.monsters@ == award_upto(
                initial.monster_roster.monsters@,
                initial.monster_roster.party_slots@,
                i as int,
                xp_reward,
            ),
        decreases n - i,
    {
        match state.monster_roster.party_slots[i] {
            Some(id) => match state.monster_roster.position(id) {
                Some(p) => {
                    if state.monster_roster.monsters[p].condition.commitment == DailyCommitment::Tower {
                        let mut m = state.monster_roster.monsters[p].duplicate();
                        m.xp = sat_add_u32(m.xp, xp_reward);
                        level_up(&mut m);
                        state.monster_roster.monsters.set(p, m);
                    }
                },
                None => {},
            },
            None => {},
        }
        i += 1;
    }
}

/// The highest floor in the tower data, or one when there is none.
pub open spec fn top_floor(fs: Seq<TowerFloorDefinition>) -> Option<u32>
    decreases fs.len(),
{
    if fs.len() == 0 {
        None
    } else {
        match top_floor(fs.drop_last()) {
            Some(x) => Some(if x >= fs.last().floor { x } else { fs.last().floor }),
            None => Some(fs.last().floor),
        }
    }
}

pub open spec fn spec_max_floor(data: GameData) -> u32 {
    match top_floor(data.tower_floors@) {
        Some(x) => x,
        None => 1,
    }
}

pub fn max_floor(data: &GameData) -> (r: u32)
    ensures
        r == spec_max_floor(*data),
{
    let mut top: Option<u32> = None;
    let mut i: usize = 0;
    while i < data.tower_floors.len()
        invariant
            i <= data.tower_floors@.len(),
            top == top_floor(data.tower_floors@.take(i as int)),
        decreases data.tower_floors.len() - i,
    {
        assert(data.tower_floors@.take(i as int + 1).drop_last() =~= data.tower_floors@.take(i as int));
        let f = data.tower_floors[i].floor;
        top = match top {
            Some(x) => Some(if x >= f { x } else { f }),
            None => Some(f),
        };
        i += 1;
    }
    assert(data.tower_floors@.take(data.tower_floors@.len() as int) =~= data.tower_floors@);
    match top {
        Some(x) => x,
        None => 1,
    }
}

/// Tower progress after the party reaches `floor`: the best floor rises to it,
/// and a known floor unlocks what it unlocks, never past the top floor.
pub open spec fn spec_floor_reached(p: TowerProgress, data: GameData, floor: u32) -> TowerProgress {
    let best = if p.best_floor >= floor { p.best_floor } else { floor };
    match data.spec_tower_floor(floor) {
        Some(fd) => {
            let opened = if fd.unlocks_floor >= floor { fd.unlocks_floor } else { floor };
            let raised = if p.unlocked_floor >= opened { p.unlocked_floor } else { opened };
            let top = spec_max_floor(data);
            TowerProgress { best_floor: best, unlocked_floor: if raised <= top { raised } else { top } }
        },
        None => TowerProgress { best_floor: best, unlocked_floor: p.unlocked_floor },
    }
}

/// Reaching a floor raises the best floor to it (never lowers it) and, for a
/// known floor, opens the floors it unlocks and the floor itself, never
/// past the top of the tower and never closing one already open.
pub proof fn law_floor_reached(p: TowerProgress, data: GameData, floor: u32)
    ensures
        ({
            let q = spec_floor_reached(p, data, floor);
            let top = spec_max_floor(data);
            &&& q.best_floor == max_int(p.best_floor as int, floor as int)
            &&& data.spec_tower_floor(floor) is None ==> q.unlocked_floor == p.unlocked_floor
            &&& data.spec_tower_floor(floor) matches Some(fd) ==> {
                &&& q.unlocked_floor == min_int(max_int(max_int(p.unlocked_floor as int, fd.unlocks_floor as int), floor as int), top as int)
                &&& q.unlocked_floor <= top
                &&& p.unlocked_floor <= top ==> q.unlocked_floor >= p.unlocked_floor
            }
        }),
{
}

pub fn record_floor_reached(state: &mut GameState, data: &GameData, floor: u32)
    ensures
        *final(state) == (GameState { tower_progress: spec_floor_reached(old(state).tower_progress, *data, floor), ..*old(state) }),
{
    let p = state.tower_progress;
    let best = if p.best_floor >= floor { p.best_floor } else { floor };
    state.tower_progress.best_floor = best;
    match data.tower_floor(floor) {
        Some(fd) => {
            let opened = if fd.unlocks_floor >= floor { fd.unlocks_floor } else { floor };
            let raised = if p.unlocked_floor >= opened { p.unlocked_floor } else { opened };
            let top = max_floor(data);
            state.tower_progress.unlocked_floor = if raised <= top { raised } else { top };
        },
        None => {},
    }
}

/// The boss egg a guardian leaves on `floor`, if the data defines one.
pub open spec fn spec_boss_egg(data: GameData, floor: u32) -> Option<TowerFoundEgg> {
    match data.spec_egg_type("boss_egg"@) {
        Some(t) => Some(TowerFoundEgg {
            egg_type_id: t.id,
            hatch_days: t.hatch_days,
            origin_floor: floor,
            palette_seed: 0xB055_E66u64 ^ (floor as u64),
        }),
        None => None,
    }
}

pub fn add_boss_egg(run: &mut TowerRunState, data: &GameData, floor: u32)
    ensures
        *final(run) == (TowerRunState { found_eggs: final(run).found_eggs, ..*old(run) }),
        final(run).found_eggs@ == match spec_boss_egg(*data, floor) {
            Some(egg) => old(run).found_eggs@.push(egg),
            None => old(run).found_eggs@,
        },
{
    match data.egg_type("boss_egg") {
        Some(t) => {
            run.found_eggs.push(TowerFoundEgg {
                egg_type_id: t.id.clone(),
                hatch_days: t.hatch_days,
                origin_floor: floor,
                palette_seed: 0xB055_E66u64 ^ (floor as u64),
            });
        },
        None => {},
    }
}

} // verus!
