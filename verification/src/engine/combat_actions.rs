//! What allies and enemies do on their turns, and how the encounter runs until
//! the party must act.

use vstd::prelude::*;
use crate::arith::{clamp_i32, max_int, min_int, saturate_i32, sat_add_i32, sat_sub_i32};
use crate::data::game_data::GameData;
use crate::data::schema::MonsterRole;
use crate::engine::combat_rules::{
    spec_first_target, target_from, guarding_tank, spec_wounded_target, spec_attack_damage,
    spec_log_if_defeated, spec_check_outcome, spec_turn_is_alive, spec_advance_turn, spec_rebuild,
    first_target, row_target, guarding_front_tank, wounded_target, attack_damage, log_if_defeated,
    check_outcome, turn_is_alive, advance_turn, rebuild_turn_order,
};
use crate::seqs::{first_where, first_min_where, last_max_where, lemma_first_min_where_bounds, lemma_last_max_where_bounds};
use crate::state::combat::{CombatOutcome, CombatSide, CombatState, CombatTurn, CombatView, Combatant};
use crate::text::{signed_decimal, signed_text};

verus! {

pub open spec fn damage_line(actor: Seq<char>, verb: Seq<char>, target: Seq<char>, damage: int, tail: Seq<char>) -> Seq<char> {
    actor + verb + target + " for "@ + signed_decimal(damage) + tail
}

fn damage_text(actor: &String, verb: &str, target: &String, damage: i32, tail: &str) -> (s: String)
    ensures
        s@ == damage_line(actor@, verb@, target@, damage as int, tail@),
{
    let mut s = actor.clone();
    s.append(verb);
    s.append(target.as_str());
    s.append(" for ");
    let n = signed_text(damage as i64);
    s.append(n.as_str());
    s.append(tail);
    s
}

fn three_text(a: &String, b: &str, c: &String, d: &str) -> (s: String)
    ensures
        s@ == a@ + b@ + c@ + d@,
{
    let mut s = a.clone();
    s.append(b);
    s.append(c.as_str());
    s.append(d);
    s
}

/// A unit with a new HP value.
pub open spec fn with_hp(u: Combatant, hp: int) -> Combatant {
    Combatant { hp: hp as i32, ..u }
}

// ---------------------------------------------------------------------------
// Enemy turns

/// Whom the enemy at `slot` strikes, and which guard (if any) steps in: every
/// fourth beat it aims at the back row, where a guarding front-row tank
/// intercepts; otherwise it strikes the first unit of the formation.
pub open spec fn spec_enemy_target(v: CombatView, slot: int) -> Option<(int, Option<int>)> {
    let back_targeted = (v.round + v.floor + slot) % 4 == 0;
    if back_targeted && target_from(v.allies, 3, 6) is Some {
        match first_where(v.allies, guarding_tank()) {
            Some(g) => Some((g, Some(g))),
            None => Some((target_from(v.allies, 3, 6).unwrap(), None)),
        }
    } else {
        match spec_first_target(v.allies) {
            Some(t) => Some((t, None)),
            None => None,
        }
    }
}

pub fn enemy_target(c: &CombatState, slot: usize) -> (r: Option<(usize, Option<usize>)>)
    ensures
        match r {
            Some((t, g)) => spec_enemy_target(c@, slot as int) == Some((t as int, match g { Some(x) => Some(x as int), None => None })),
            None => spec_enemy_target(c@, slot as int) is None,
        },
        r matches Some((t, g)) ==> t < c.allies@.len() && (g matches Some(x) ==> x == t),
{
    let beat: u64 = c.round as u64 + c.floor as u64 + slot as u64 % 4;
    let back_targeted = (c.round as u64 % 4 + c.floor as u64 % 4 + slot as u64 % 4) % 4 == 0;
    proof {
        assert((c.round as int + c.floor as int + slot as int) % 4 == ((c.round as int % 4) + (c.floor as int % 4) + (slot as int % 4)) % 4) by (nonlinear_arith);
    }
    if back_targeted {
        if let Some(back) = row_target(&c.allies, 3, 6) {
            if let Some(guard) = guarding_front_tank(&c.allies) {
                return Some((guard, Some(guard)));
            }
            return Some((back, None));
        }
    }
    match first_target(&c.allies) {
        Some(t) => Some((t, None)),
        None => None,
    }
}

pub open spec fn intercept_line(guard: Seq<char>, actor: Seq<char>, damage: int) -> Seq<char> {
    guard + " intercepts "@ + actor + " for "@ + signed_decimal(damage) + " damage."@
}

/// The enemy at `slot` strikes: a defending or guarded target takes half damage
/// (at least 1). With nobody left to strike, the party is defeated.
pub open spec fn spec_enemy_action(v: CombatView, slot: int) -> CombatView {
    match spec_enemy_target(v, slot) {
        None => CombatView { outcome: Some(CombatOutcome::Defeat), ..v },
        Some((t, g)) => {
            let actor = v.enemies[slot];
            let target = v.allies[t];
            let defending = target.is_defending || g is Some;
            let full = spec_attack_damage(actor, target, 0);
            let damage = if defending { max_int(1, full / 2) } else { full };
            let allies = v.allies.update(t, with_hp(target, clamp_i32(target.hp - damage)));
            let line = match g {
                Some(gs) => intercept_line(allies[gs].name@, actor.name@, damage),
                None => damage_line(actor.name@, " hits "@, target.name@, damage, " damage."@),
            };
            spec_log_if_defeated(CombatView { allies, log: v.log.push(line), ..v }, CombatSide::Ally, t)
        },
    }
}

pub fn enemy_action(c: &mut CombatState, slot: usize)
    requires
        slot < old(c).enemies@.len(),
    ensures
        final(c)@ == spec_enemy_action(old(c)@, slot as int),
{
    let Some((target, guarded_by)) = enemy_target(c, slot) else {
        c.outcome = Some(CombatOutcome::Defeat);
        return;
    };
    let actor = c.enemies[slot].duplicate();
    let defending = c.allies[target].is_defending || guarded_by.is_some();
    let full = attack_damage(&actor, &c.allies[target], 0);
    let damage = if defending {
        if full / 2 < 1 { 1 } else { full / 2 }
    } else {
        full
    };
    let hp = sat_sub_i32(c.allies[target].hp, damage);
    let updated = Combatant { hp, ..c.allies[target].duplicate() };
    c.allies.set(target, updated);
    let line = match guarded_by {
        Some(guard) => {
            let mut s = c.allies[guard].name.clone();
            s.append(" intercepts ");
            s.append(actor.name.as_str());
            s.append(" for ");
            let n = signed_text(damage as i64);
            s.append(n.as_str());
            s.append(" damage.");
            s
        },
        None => damage_text(&actor.name, " hits ", &c.allies[target].name, damage, " damage."),
    };
    c.add_log(line);
    log_if_defeated(c, CombatSide::Ally, target);
}

// ---------------------------------------------------------------------------
// Ally turns

/// A plain attack on the first enemy of the formation.
pub open spec fn spec_ally_attack(v: CombatView, slot: int) -> (CombatView, Seq<char>) {
    match spec_first_target(v.enemies) {
        None => (CombatView { outcome: Some(CombatOutcome::Victory), ..v }, "No enemies remain."@),
        Some(t) => {
            let actor = v.allies[slot];
            let target = v.enemies[t];
            let damage = spec_attack_damage(actor, target, 0);
            let line = damage_line(actor.name@, " attacks "@, target.name@, damage, " damage."@);
            let enemies = v.enemies.update(t, with_hp(target, clamp_i32(target.hp - damage)));
            (spec_log_if_defeated(CombatView { enemies, log: v.log.push(line), ..v }, CombatSide::Enemy, t), line)
        },
    }
}

pub fn ally_attack(c: &mut CombatState, slot: usize) -> (summary: String)
    requires
        slot < old(c).allies@.len(),
    ensures
        (final(c)@, summary@) == spec_ally_attack(old(c)@, slot as int),
{
    let Some(target) = first_target(&c.enemies) else {
        c.outcome = Some(CombatOutcome::Victory);
        return String::from_str("No enemies remain.");
    };
    let actor = c.allies[slot].duplicate();
    let damage = attack_damage(&actor, &c.enemies[target], 0);
    let line = damage_text(&actor.name, " attacks ", &c.enemies[target].name, damage, " damage.");
    let hp = sat_sub_i32(c.enemies[target].hp, damage);
    let updated = Combatant { hp, ..c.enemies[target].duplicate() };
    c.enemies.set(target, updated);
    let summary = line.clone();
    c.add_log(line);
    log_if_defeated(c, CombatSide::Enemy, target);
    summary
}

/// The ally braces: it defends and stops guarding.
pub open spec fn spec_defend(v: CombatView, slot: int) -> (CombatView, Seq<char>) {
    let u = Combatant { is_defending: true, is_guarding: false, ..v.allies[slot] };
    let line = u.name@ + " defends the formation."@;
    (CombatView { allies: v.allies.update(slot, u), log: v.log.push(line), ..v }, line)
}

pub fn defend(c: &mut CombatState, slot: usize) -> (summary: String)
    requires
        slot < old(c).allies@.len(),
    ensures
        (final(c)@, summary@) == spec_defend(old(c)@, slot as int),
{
    let u = Combatant { is_defending: true, is_guarding: false, ..c.allies[slot].duplicate() };
    let mut line = u.name.clone();
    line.append(" defends the formation.");
    c.allies.set(slot, u);
    let summary = line.clone();
    c.add_log(line);
    summary
}

/// A tank guards the back row: it defends and intercepts back-row strikes.
pub open spec fn spec_guard_back_row(v: CombatView, slot: int) -> (CombatView, Seq<char>) {
    let u = Combatant { is_defending: true, is_guarding: true, ..v.allies[slot] };
    let line = u.name@ + " guards the back row and braces for impact."@;
    (CombatView { allies: v.allies.update(slot, u), log: v.log.push(line), ..v }, line)
}

pub fn guard_back_row(c: &mut CombatState, slot: usize) -> (summary: String)
    requires
        slot < old(c).allies@.len(),
    ensures
        (final(c)@, summary@) == spec_guard_back_row(old(c)@, slot as int),
{
    let u = Combatant { is_defending: true, is_guarding: true, ..c.allies[slot].duplicate() };
    let mut line = u.name.clone();
    line.append(" guards the back row and braces for impact.");
    c.allies.set(slot, u);
    let summary = line.clone();
    c.add_log(line);
    summary
}

/// A scout marks the first enemy: it loses 5 morale, takes 2 more damage per
/// hit, and makes escape easier and loot richer.
pub open spec fn spec_mark_target(v: CombatView, slot: int) -> (CombatView, Seq<char>) {
    match spec_first_target(v.enemies) {
        None => (CombatView { outcome: Some(CombatOutcome::Victory), ..v }, "No enemies remain."@),
        Some(t) => {
            let target = v.enemies[t];
            let marked = Combatant { is_marked: true, morale: clamp_i32(target.morale - 5) as i32, ..target };
            let line = v.allies[slot].name@ + " marks "@ + target.name@ + " for safer escape and better loot."@;
            (CombatView { enemies: v.enemies.update(t, marked), log: v.log.push(line), ..v }, line)
        },
    }
}

pub fn mark_target(c: &mut CombatState, slot: usize) -> (summary: String)
    requires
        slot < old(c).allies@.len(),
    ensures
        (final(c)@, summary@) == spec_mark_target(old(c)@, slot as int),
{
    let Some(target) = first_target(&c.enemies) else {
        c.outcome = Some(CombatOutcome::Victory);
        return String::from_str("No enemies remain.");
    };
    let t = c.enemies[target].duplicate();
    let morale = sat_sub_i32(t.morale, 5);
    let line = three_text(&c.allies[slot].name, " marks ", &t.name, " for safer escape and better loot.");
    c.enemies.set(target, Combatant { is_marked: true, morale, ..t });
    let summary = line.clone();
    c.add_log(line);
    summary
}

/// A striker bursts into the most wounded enemy (or the first one), with a
/// bonus of 5 against a wounded target (2 otherwise) and 3 more at half HP or less.
pub open spec fn spec_burst_strike(v: CombatView, slot: int) -> (CombatView, Seq<char>) {
    let choice = match spec_wounded_target(v.enemies) {
        Some(t) => Some(t),
        None => spec_first_target(v.enemies),
    };
    match choice {
        None => (CombatView { outcome: Some(CombatOutcome::Victory), ..v }, "No enemies remain."@),
        Some(t) => {
            let actor = v.allies[slot];
            let target = v.enemies[t];
            let wounded_bonus: int = if target.hp < target.max_hp { 5 } else { 2 };
            let execute_bonus: int = if target.hp * 2 <= target.max_hp { 3 } else { 0 };
            let damage = spec_attack_damage(actor, target, (wounded_bonus + execute_bonus) as i32);
            let line = damage_line(actor.name@, " bursts into "@, target.name@, damage, " damage."@);
            let enemies = v.enemies.update(t, with_hp(target, clamp_i32(target.hp - damage)));
            (spec_log_if_defeated(CombatView { enemies, log: v.log.push(line), ..v }, CombatSide::Enemy, t), line)
        },
    }
}

pub fn burst_strike(c: &mut CombatState, slot: usize) -> (summary: String)
    requires
        slot < old(c).allies@.len(),
    ensures
        (final(c)@, summary@) == spec_burst_strike(old(c)@, slot as int),
{
    let choice = match wounded_target(&c.enemies) {
        Some(t) => Some(t),
        None => first_target(&c.enemies),
    };
    let Some(target) = choice else {
        c.outcome = Some(CombatOutcome::Victory);
        return String::from_str("No enemies remain.");
    };
    let actor = c.allies[slot].duplicate();
    let t = c.enemies[target].duplicate();
    let wounded_bonus: i32 = if t.hp < t.max_hp { 5 } else { 2 };
    let execute_bonus: i32 = if (t.hp as i64) * 2 <= t.max_hp as i64 { 3 } else { 0 };
    let damage = attack_damage(&actor, &t, wounded_bonus + execute_bonus);
    let line = damage_text(&actor.name, " bursts into ", &t.name, damage, " damage.");
    let hp = sat_sub_i32(t.hp, damage);
    c.enemies.set(target, Combatant { hp, ..t });
    let summary = line.clone();
    c.add_log(line);
    log_if_defeated(c, CombatSide::Enemy, target);
    summary
}

pub open spec fn is_alive() -> spec_fn(Combatant) -> bool {
    |u: Combatant| u.hp > 0
}

pub open spec fn morale_key() -> spec_fn(Combatant) -> int {
    |u: Combatant| u.morale as int
}

pub open spec fn is_wounded() -> spec_fn(Combatant) -> bool {
    |u: Combatant| u.hp > 0 && u.hp < u.max_hp
}

pub open spec fn missing_hp() -> spec_fn(Combatant) -> int {
    |u: Combatant| u.max_hp - u.hp
}

/// A support rallies the living ally with the lowest morale (itself when none
/// lives): +8 morale and +1 speed.
pub open spec fn spec_rally_ally(v: CombatView, slot: int) -> (CombatView, Seq<char>) {
    let t = match first_min_where(v.allies, is_alive(), morale_key()) {
        Some(i) => i,
        None => slot,
    };
    let target = v.allies[t];
    let rallied = Combatant { morale: clamp_i32(target.morale + 8) as i32, speed: clamp_i32(target.speed + 1) as i32, ..target };
    let allies = v.allies.update(t, rallied);
    let line = allies[slot].name@ + " steadies "@ + rallied.name@ + " with a rallying call."@;
    (CombatView { allies, log: v.log.push(line), ..v }, line)
}

pub fn rally_ally(c: &mut CombatState, slot: usize) -> (summary: String)
    requires
        slot < old(c).allies@.len(),
    ensures
        (final(c)@, summary@) == spec_rally_ally(old(c)@, slot as int),
{
    let ghost units = c.allies@;
    let mut best: Option<usize> = None;
    let mut i: usize = 0;
    while i < c.allies.len()
        invariant
            i <= units.len(),
            units == c.allies@,
            best == match first_min_where(units.take(i as int), is_alive(), morale_key()) {
                Some(b) => Some(b as usize),
                None => None::<usize>,
            },
            best matches Some(b) ==> b < i,
        decreases units.len() - i,
    {
        proof {
            assert(units.take(i as int + 1).drop_last() =~= units.take(i as int));
            assert(units.take(i as int + 1).last() == units[i as int]);
            lemma_first_min_where_bounds(units.take(i as int), is_alive(), morale_key());
            if best is Some {
                assert(units.take(i as int)[best.unwrap() as int] == units[best.unwrap() as int]);
            }
        }
        let better = match best {
            None => true,
            Some(b) => c.allies[i].morale < c.allies[b].morale,
        };
        if c.allies[i].hp > 0 && better {
            best = Some(i);
        }
        i += 1;
    }
    assert(units.take(units.len() as int) =~= units);
    proof {
        lemma_first_min_where_bounds(units, is_alive(), morale_key());
    }
    let t = match best {
        Some(b) => b,
        None => slot,
    };
    let target = c.allies[t].duplicate();
    let morale = sat_add_i32(target.morale, 8);
    let speed = sat_add_i32(target.speed, 1);
    let rallied = Combatant { morale, speed, ..target };
    c.allies.set(t, rallied);
    let line = three_text(&c.allies[slot].name, " steadies ", &c.allies[t].name, " with a rallying call.");
    let summary = line.clone();
    c.add_log(line);
    summary
}

pub open spec fn heal_line(actor: Seq<char>, target: Seq<char>, heal: int) -> Seq<char> {
    actor + " soothes "@ + target + " for "@ + signed_decimal(heal) + " HP."@
}

/// A support heals the living ally missing the most HP (the last on ties) for
/// 8 plus twice its level, plus 3 from the back row; with nobody wounded it rallies instead.
pub open spec fn spec_support_skill(v: CombatView, slot: int) -> (CombatView, Seq<char>) {
    match last_max_where(v.allies, is_wounded(), missing_hp()) {
        None => spec_rally_ally(v, slot),
        Some(t) => {
            let actor = v.allies[slot];
            let back_row_bonus: int = if actor.slot >= 3 { 3 } else { 0 };
            let heal = clamp_i32(8 + actor.level * 2 + back_row_bonus);
            let target = v.allies[t];
            let healed = with_hp(target, min_int(clamp_i32(target.hp + heal), target.max_hp as int));
            let line = heal_line(actor.name@, target.name@, heal);
            (CombatView { allies: v.allies.update(t, healed), log: v.log.push(line), ..v }, line)
        },
    }
}

pub fn support_skill(c: &mut CombatState, slot: usize) -> (summary: String)
    requires
        slot < old(c).allies@.len(),
    ensures
        (final(c)@, summary@) == spec_support_skill(old(c)@, slot as int),
{
    let ghost units = c.allies@;
    let mut best: Option<usize> = None;
    let mut i: usize = 0;
    while i < c.allies.len()
        invariant
            i <= units.len(),
            units == c.allies@,
            best == match last_max_where(units.take(i as int), is_wounded(), missing_hp()) {
                Some(b) => Some(b as usize),
                None => None::<usize>,
            },
            best matches Some(b) ==> b < i,
        decreases units.len() - i,
    {
        proof {
            assert(units.take(i as int + 1).drop_last() =~= units.take(i as int));
            assert(units.take(i as int + 1).last() == units[i as int]);
            lemma_last_max_where_bounds(units.take(i as int), is_wounded(), missing_hp());
            if best is Some {
                assert(units.take(i as int)[best.unwrap() as int] == units[best.unwrap() as int]);
            }
        }
        let u = &c.allies[i];
        let better = match best {
            None => true,
            Some(b) => (u.max_hp as i64 - u.hp as i64) >= (c.allies[b].max_hp as i64 - c.allies[b].hp as i64),
        };
        if u.hp > 0 && u.hp < u.max_hp && better {
            best = Some(i);
        }
        i += 1;
    }
    assert(units.take(units.len() as int) =~= units);
    proof {
        lemma_last_max_where_bounds(units, is_wounded(), missing_hp());
    }
    let Some(t) = best else {
        return rally_ally(c, slot);
    };
    let actor = c.allies[slot].duplicate();
    let back_row_bonus: i64 = if actor.slot >= 3 { 3 } else { 0 };
    let heal = saturate_i32(8 + actor.level as i64 * 2 + back_row_bonus);
    let target = c.allies[t].duplicate();
    let raised = sat_add_i32(target.hp, heal);
    let hp = if raised < target.max_hp { raised } else { target.max_hp };
    let mut line = actor.name.clone();
    line.append(" soothes ");
    line.append(target.name.as_str());
    line.append(" for ");
    let n = signed_text(heal as i64);
    line.append(n.as_str());
    line.append(" HP.");
    c.allies.set(t, Combatant { hp, ..target });
    let summary = line.clone();
    c.add_log(line);
    summary
}

/// The role of the acting ally's species (a scout when the species is unknown).
pub open spec fn skill_role(data: GameData, v: CombatView, slot: int) -> MonsterRole {
    match data.spec_species(v.allies[slot].source_id@) {
        Some(species) => species.role,
        None => MonsterRole::Scout,
    }
}

/// An ally's skill depends on its species' role.
pub open spec fn spec_ally_skill(data: GameData, v: CombatView, slot: int) -> (CombatView, Seq<char>) {
    match skill_role(data, v, slot) {
        MonsterRole::Support => spec_support_skill(v, slot),
        MonsterRole::Tank => spec_guard_back_row(v, slot),
        MonsterRole::Scout => spec_mark_target(v, slot),
        MonsterRole::Striker => spec_burst_strike(v, slot),
    }
}

pub fn ally_skill(c: &mut CombatState, data: &GameData, slot: usize) -> (summary: String)
    requires
        slot < old(c).allies@.len(),
    ensures
        (final(c)@, summary@) == spec_ally_skill(*data, old(c)@, slot as int),
{
    let role = match data.species(c.allies[slot].source_id.as_str()) {
        Some(species) => species.role,
        None => MonsterRole::Scout,
    };
    match role {
        MonsterRole::Support => support_skill(c, slot),
        MonsterRole::Tank => guard_back_row(c, slot),
        MonsterRole::Scout => mark_target(c, slot),
        MonsterRole::Striker => burst_strike(c, slot),
    }
}

// ---------------------------------------------------------------------------
// Fleeing

pub open spec fn front_scout() -> spec_fn(Combatant) -> bool {
    |u: Combatant| u.hp > 0 && u.slot < 3 && u.role == Some(MonsterRole::Scout)
}

/// How many units satisfy `p`.
pub open spec fn count_where(s: Seq<Combatant>, p: spec_fn(Combatant) -> bool) -> int
    decreases s.len(),
{
    if s.len() == 0 {
        0
    } else {
        count_where(s.drop_last(), p) + if p(s.last()) { 1int } else { 0 }
    }
}

pub proof fn lemma_count_where_bound(s: Seq<Combatant>, p: spec_fn(Combatant) -> bool)
    ensures
        0 <= count_where(s, p) <= s.len(),
    decreases s.len(),
{
    if s.len() > 0 {
        lemma_count_where_bound(s.drop_last(), p);
    }
}

/// The escape chance in percent: 55, plus 20 per living front-row scout, plus
/// 15 while a living enemy is marked, capped at 95.
pub open spec fn spec_flee_chance(v: CombatView) -> int {
    let marked_bonus: int = if exists|i: int| 0 <= i < v.enemies.len() && v.enemies[i].hp > 0 && v.enemies[i].is_marked { 15 } else { 0 };
    min_int(55 + count_where(v.allies, front_scout()) * 20 + marked_bonus, 95)
}

pub fn flee_chance(c: &CombatState) -> (r: i32)
    ensures
        r == spec_flee_chance(c@),
{
    let mut scouts: usize = 0;
    let mut i: usize = 0;
    while i < c.allies.len()
        invariant
            i <= c.allies@.len(),
            scouts == count_where(c.allies@.take(i as int), front_scout()),
            0 <= scouts <= i,
        decreases c.allies.len() - i,
    {
        proof {
            assert(c.allies@.take(i as int + 1).drop_last() =~= c.allies@.take(i as int));
            assert(c.allies@.take(i as int + 1).last() == c.allies@[i as int]);
        }
        let u = &c.allies[i];
        if u.hp > 0 && u.slot < 3 && u.role == Some(MonsterRole::Scout) {
            scouts = scouts + 1;
        }
        i += 1;
    }
    assert(c.allies@.take(c.allies@.len() as int) =~= c.allies@);
    let mut marked = false;
    let mut j: usize = 0;
    while j < c.enemies.len()
        invariant
            j <= c.enemies@.len(),
            marked == exists|k: int| 0 <= k < j && c.enemies@[k].hp > 0 && c.enemies@[k].is_marked,
        decreases c.enemies.len() - j,
    {
        if c.enemies[j].hp > 0 && c.enemies[j].is_marked {
            marked = true;
        }
        j += 1;
    }
    let bonus: i64 = if marked { 15 } else { 0 };
    let capped: i64 = if scouts > 3 { 3 } else { scouts as i64 };
    let total: i64 = 55 + capped * 20 + bonus;
    if total < 95 { total as i32 } else { 95 }
}

/// The escape roll for this beat of the encounter, from 0 to 99.
pub open spec fn spec_flee_roll(v: CombatView) -> int {
    (v.floor * 37 + v.round * 17 + (v.turn_index as u32) * 11) % 100
}

pub fn flee_succeeds(c: &CombatState) -> (r: bool)
    ensures
        r == (spec_flee_roll(c@) < spec_flee_chance(c@)),
{
    let roll: u64 = (c.floor as u64 * 37 + c.round as u64 * 17 + (c.turn_index as u32) as u64 * 11) % 100;
    (roll as i64) < flee_chance(c) as i64
}

// ---------------------------------------------------------------------------
// Running enemy turns

/// Runs at most `fuel` beats: enemy turns resolve, fallen units are skipped
/// and exhausted orders rebuilt, until a living ally is up or the encounter is settled.
pub open spec fn spec_advance(v: CombatView, fuel: nat) -> CombatView
    decreases fuel,
{
    if fuel == 0 {
        v
    } else {
        let (checked, done) = spec_check_outcome(v);
        if done {
            checked
        } else {
            match v.current_turn() {
                None => spec_advance(spec_rebuild(v), (fuel - 1) as nat),
                Some(turn) => if !spec_turn_is_alive(v, turn) {
                    spec_advance(spec_advance_turn(v), (fuel - 1) as nat)
                } else if turn.side == CombatSide::Ally {
                    v
                } else {
                    let acted = spec_enemy_action(v, turn.slot as int);
                    let (after, finished) = spec_check_outcome(acted);
                    if finished {
                        after
                    } else {
                        spec_advance(spec_advance_turn(after), (fuel - 1) as nat)
                    }
                },
            }
        }
    }
}

/// How many beats one call runs at most.
pub const ADVANCE_BEATS: u64 = 24;

pub fn advance_to_player_or_outcome(c: &mut CombatState)
    ensures
        final(c)@ == spec_advance(old(c)@, ADVANCE_BEATS as nat),
{
    let ghost start = c@;
    let mut beats: u64 = 0;
    while beats < ADVANCE_BEATS
        invariant
            beats <= ADVANCE_BEATS,
            start == old(c)@,
            spec_advance(start, ADVANCE_BEATS as nat) == spec_advance(c@, (ADVANCE_BEATS - beats) as nat),
        decreases ADVANCE_BEATS - beats,
    {
        let ghost here = c@;
        let ghost fuel: nat = (ADVANCE_BEATS - beats) as nat;
        assert(fuel > 0);
        if check_outcome(c) {
            assert(spec_advance(here, fuel) == c@);
            return;
        }
        assert(c@ == here);
        let Some(turn) = c.current_turn() else {
            rebuild_turn_order(c);
            assert(spec_advance(here, fuel) == spec_advance(c@, (fuel - 1) as nat));
            beats += 1;
            continue;
        };
        if !turn_is_alive(c, turn) {
            advance_turn(c);
            assert(spec_advance(here, fuel) == spec_advance(c@, (fuel - 1) as nat));
            beats += 1;
            continue;
        }
        if turn.side == CombatSide::Ally {
            assert(spec_advance(here, fuel) == c@);
            return;
        }
        proof {
            assert(spec_turn_is_alive(here, turn));
            assert(turn.slot < here.enemies.len());
        }
        enemy_action(c, turn.slot);
        if check_outcome(c) {
            assert(spec_advance(here, fuel) == c@);
            return;
        }
        advance_turn(c);
        assert(spec_advance(here, fuel) == spec_advance(c@, (fuel - 1) as nat));
        beats += 1;
    }
}

} // verus!
