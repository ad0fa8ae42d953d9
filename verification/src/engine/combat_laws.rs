//! What each combat command does to the units it touches.

use vstd::prelude::*;
use crate::arith::{clamp_i32, max_int, min_int};
use crate::engine::combat_actions::{
    count_where, front_scout, is_alive, is_wounded, missing_hp, morale_key, spec_rally_ally, spec_ally_attack, spec_burst_strike, spec_defend,
    spec_enemy_action, spec_enemy_target, spec_flee_chance, spec_guard_back_row, spec_mark_target,
    spec_support_skill,
};
use crate::engine::combat_frame::{lemma_enemy_target_bounds, lemma_target_from_bounds};
use crate::engine::combat_rules::{guarding_tank, side_entries, spec_check_outcome, spec_advance_turn, spec_turn_order, alive_in_slot, spec_attack_damage, spec_first_target, spec_wounded_target, target_from};
use crate::seqs::{lemma_first_where, first_min_where, last_max_where, lemma_first_min_where_choice, lemma_last_max_where_choice};
use crate::data::schema::MonsterRole;
use crate::state::combat::{CombatOutcome, CombatSide, CombatTurn, CombatView, Combatant};

verus! {

/// A plain attack strikes the first enemy of the formation for the attack
/// damage of the attacker against it: that enemy loses exactly that much HP
/// (at least one), and no other unit changes.
pub proof fn law_attack_strikes_first_enemy(v: CombatView, slot: int)
    requires
        0 <= slot < v.allies.len(),
    ensures
        spec_first_target(v.enemies) matches Some(t) ==> {
            let after = spec_ally_attack(v, slot).0;
            let d = spec_attack_damage(v.allies[slot], v.enemies[t], 0);
            &&& 0 <= t < v.enemies.len()
            &&& d >= 1
            &&& after.enemies.len() == v.enemies.len()
            &&& after.enemies[t].hp == clamp_i32(v.enemies[t].hp - d)
            &&& (v.enemies[t].hp - d >= i32::MIN ==> after.enemies[t].hp == v.enemies[t].hp - d)
            &&& forall|j: int| 0 <= j < v.enemies.len() && j != t ==> after.enemies[j] == v.enemies[j]
            &&& after.allies == v.allies
            &&& after.outcome == v.outcome
        },
{
    lemma_target_from_bounds(v.enemies, 0, 6);
}

/// An enemy's blow costs its target the enemy's attack damage against it,
/// halved (but at least one) when the target defends or a guard steps in;
/// no other ally changes.
pub proof fn law_enemy_blow(v: CombatView, slot: int)
    requires
        0 <= slot < v.enemies.len(),
    ensures
        spec_enemy_target(v, slot) matches Some((t, g)) ==> {
            let after = spec_enemy_action(v, slot);
            let target = v.allies[t];
            let full = spec_attack_damage(v.enemies[slot], target, 0);
            let taken = if target.is_defending || g is Some { max_int(1, full / 2) } else { full };
            &&& 0 <= t < v.allies.len()
            &&& 1 <= taken <= full
            &&& (target.is_defending || g is Some) ==> taken * 2 <= full || taken == 1
            &&& after.allies[t].hp == clamp_i32(target.hp - taken)
            &&& forall|j: int| 0 <= j < v.allies.len() && j != t ==> after.allies[j] == v.allies[j]
            &&& after.enemies == v.enemies
        },
        spec_enemy_target(v, slot) is None ==> spec_enemy_action(v, slot).allies == v.allies,
{
    lemma_enemy_target_bounds(v, slot);
}

/// Defending braces the unit and ends any guard; guarding the back row
/// braces it and sets the guard; neither touches another unit.
pub proof fn law_defend_and_guard(v: CombatView, slot: int)
    requires
        0 <= slot < v.allies.len(),
    ensures
        ({
            let d = spec_defend(v, slot).0;
            &&& d.allies[slot].is_defending && !d.allies[slot].is_guarding
            &&& d.allies[slot].hp == v.allies[slot].hp
            &&& d.allies.len() == v.allies.len()
            &&& forall|j: int| 0 <= j < v.allies.len() && j != slot ==> d.allies[j] == v.allies[j]
            &&& d.enemies == v.enemies
        }),
        ({
            let g = spec_guard_back_row(v, slot).0;
            &&& g.allies[slot].is_defending && g.allies[slot].is_guarding
            &&& g.allies[slot].hp == v.allies[slot].hp
            &&& forall|j: int| 0 <= j < v.allies.len() && j != slot ==> g.allies[j] == v.allies[j]
            &&& g.enemies == v.enemies
        }),
{
}

/// Marking sets the mark on the first enemy and costs it five morale.
pub proof fn law_mark_target(v: CombatView, slot: int)
    requires
        0 <= slot < v.allies.len(),
    ensures
        spec_first_target(v.enemies) matches Some(t) ==> {
            let after = spec_mark_target(v, slot).0;
            &&& after.enemies[t].is_marked
            &&& after.enemies[t].morale == clamp_i32(v.enemies[t].morale - 5)
            &&& after.enemies[t].hp == v.enemies[t].hp
            &&& forall|j: int| 0 <= j < v.enemies.len() && j != t ==> after.enemies[j] == v.enemies[j]
            &&& after.allies == v.allies
        },
{
    lemma_target_from_bounds(v.enemies, 0, 6);
}

/// The burst strike's target is a living, wounded enemy with the least HP,
/// the first such when several tie; there is one whenever any living enemy
/// is wounded.
pub proof fn law_wounded_target_choice(units: Seq<Combatant>)
    ensures
        match spec_wounded_target(units) {
            Some(i) => {
                &&& 0 <= i < units.len()
                &&& 0 < units[i].hp < units[i].max_hp
                &&& forall|j: int| 0 <= j < units.len() && 0 < units[j].hp < units[j].max_hp ==> units[i].hp <= #[trigger] units[j].hp
                &&& forall|j: int| 0 <= j < i && 0 < units[j].hp < units[j].max_hp ==> units[i].hp < #[trigger] units[j].hp
            },
            None => forall|j: int| 0 <= j < units.len() ==> !(0 < #[trigger] units[j].hp < units[j].max_hp),
        },
    decreases units.len(),
{
    if units.len() > 0 {
        let prefix = units.drop_last();
        law_wounded_target_choice(prefix);
        assert forall|j: int| 0 <= j < prefix.len() implies prefix[j] == units[j] by {}
    }
}

/// A burst strike hits the living wounded enemy with the least HP (the first
/// enemy when none is wounded) with a bonus of 5 against a wounded target or
/// 2 against an unhurt one, and 3 more when the target is at half HP or less.
pub proof fn law_burst_strike(v: CombatView, slot: int)
    requires
        0 <= slot < v.allies.len(),
    ensures
        spec_wounded_target(v.enemies) matches Some(t) ==> {
            let target = v.enemies[t];
            let after = spec_burst_strike(v, slot).0;
            let bonus: int = 5 + if target.hp * 2 <= target.max_hp { 3int } else { 0int };
            &&& 0 < target.hp < target.max_hp
            &&& after.enemies[t].hp == clamp_i32(target.hp - spec_attack_damage(v.allies[slot], target, bonus as i32))
            &&& forall|j: int| 0 <= j < v.enemies.len() && j != t ==> after.enemies[j] == v.enemies[j]
        },
        spec_wounded_target(v.enemies) is None ==> (spec_first_target(v.enemies) matches Some(t) ==> {
            let target = v.enemies[t];
            let after = spec_burst_strike(v, slot).0;
            let bonus: int = (if target.hp < target.max_hp { 5int } else { 2int })
                + if target.hp * 2 <= target.max_hp { 3int } else { 0int };
            after.enemies[t].hp == clamp_i32(target.hp - spec_attack_damage(v.allies[slot], target, bonus as i32))
        }),
{
    lemma_target_from_bounds(v.enemies, 0, 6);
    law_wounded_target_choice(v.enemies);
}

/// A support heals the living wounded ally missing the most HP (the last of
/// those missing as much) for 8 plus twice its level (3 more from the back
/// row), never past full health.
pub proof fn law_support_heal(v: CombatView, slot: int)
    requires
        0 <= slot < v.allies.len(),
    ensures
        last_max_where(v.allies, is_wounded(), missing_hp()) matches Some(t) ==> {
            let actor = v.allies[slot];
            let target = v.allies[t];
            let heal = 8 + 2 * actor.level + if actor.slot >= 3 { 3int } else { 0int };
            let after = spec_support_skill(v, slot).0;
            &&& 0 < target.hp < target.max_hp
            &&& (forall|j: int| 0 <= j < v.allies.len() && 0 < v.allies[j].hp < v.allies[j].max_hp
                ==> #[trigger] v.allies[j].max_hp - v.allies[j].hp <= target.max_hp - target.hp)
            &&& (forall|j: int| t < j < v.allies.len() && 0 < v.allies[j].hp < v.allies[j].max_hp
                ==> #[trigger] v.allies[j].max_hp - v.allies[j].hp < target.max_hp - target.hp)
            &&& heal <= i32::MAX ==> after.allies[t].hp == min_int(target.hp + heal, target.max_hp as int)
            &&& after.allies[t].hp <= target.max_hp
            &&& after.allies[t].hp > target.hp
            &&& forall|j: int| 0 <= j < v.allies.len() && j != t ==> after.allies[j] == v.allies[j]
            &&& after.enemies == v.enemies
        },
{
    lemma_last_max_where_choice(v.allies, is_wounded(), missing_hp());
}

/// The chance to flee is 55 percent, 20 more for each living front-row
/// scout and 15 more while a living enemy is marked, never above 95.
pub proof fn law_flee_chance(v: CombatView)
    ensures
        55 <= spec_flee_chance(v) <= 95,
        count_where(v.allies, front_scout()) == 0 && (forall|i: int| 0 <= i < v.enemies.len() ==> !(v.enemies[i].hp > 0 && v.enemies[i].is_marked))
            ==> spec_flee_chance(v) == 55,
        count_where(v.allies, front_scout()) == 1 && (forall|i: int| 0 <= i < v.enemies.len() ==> !(v.enemies[i].hp > 0 && v.enemies[i].is_marked))
            ==> spec_flee_chance(v) == 75,
        count_where(v.allies, front_scout()) == 0 && (exists|i: int| 0 <= i < v.enemies.len() && v.enemies[i].hp > 0 && v.enemies[i].is_marked)
            ==> spec_flee_chance(v) == 70,
        count_where(v.allies, front_scout()) >= 2 ==> spec_flee_chance(v) == 95,
{
    crate::engine::combat_actions::lemma_count_where_bound(v.allies, front_scout());
}

/// A rallying call lifts the living ally with the lowest morale (the first
/// of those as low; the caller itself when nobody lives) by 8 morale and 1
/// speed, and changes nobody else.
pub proof fn law_rally(v: CombatView, slot: int)
    requires
        0 <= slot < v.allies.len(),
    ensures
        ({
            let after = spec_rally_ally(v, slot).0;
            let t = match first_min_where(v.allies, is_alive(), morale_key()) {
                Some(i) => i,
                None => slot,
            };
            &&& 0 <= t < v.allies.len()
            &&& (t != slot ==> v.allies[t].hp > 0)
            &&& (forall|j: int| 0 <= j < v.allies.len() && v.allies[j].hp > 0 && t != slot
                ==> v.allies[t].morale <= #[trigger] v.allies[j].morale)
            &&& after.allies[t].morale == clamp_i32(v.allies[t].morale + 8)
            &&& after.allies[t].speed == clamp_i32(v.allies[t].speed + 1)
            &&& after.allies[t].hp == v.allies[t].hp
            &&& forall|j: int| 0 <= j < v.allies.len() && j != t ==> after.allies[j] == v.allies[j]
        }),
{
    lemma_first_min_where_choice(v.allies, is_alive(), morale_key());
}

proof fn lemma_target_from_choice(units: Seq<Combatant>, slot: int, end: int)
    ensures
        match target_from(units, slot, end) {
            Some(i) => {
                &&& 0 <= i < units.len()
                &&& units[i].hp > 0
                &&& slot <= units[i].slot < end
                &&& forall|j: int| 0 <= j < units.len() && units[j].hp > 0 && slot <= #[trigger] units[j].slot < end
                    ==> units[i].slot <= units[j].slot
                &&& forall|j: int| 0 <= j < i && units[j].hp > 0 ==> #[trigger] units[j].slot != units[i].slot
            },
            None => forall|j: int| 0 <= j < units.len() && units[j].hp > 0 ==> !(slot <= #[trigger] units[j].slot < end),
        },
    decreases end - slot,
{
    if slot < end {
        lemma_first_where(units, alive_in_slot(slot));
        lemma_target_from_choice(units, slot + 1, end);
    }
}

/// The unit a formation presents first is a living one in the lowest
/// occupied slot from 0 to 5 (the first listed of those in that slot);
/// there is none only when no living unit stands in those slots.
pub proof fn law_first_target(units: Seq<Combatant>)
    ensures
        match spec_first_target(units) {
            Some(i) => {
                &&& 0 <= i < units.len()
                &&& units[i].hp > 0
                &&& units[i].slot < 6
                &&& forall|j: int| 0 <= j < units.len() && units[j].hp > 0 && #[trigger] units[j].slot < 6
                    ==> units[i].slot <= units[j].slot
                &&& forall|j: int| 0 <= j < i && units[j].hp > 0 ==> #[trigger] units[j].slot != units[i].slot
            },
            None => forall|j: int| 0 <= j < units.len() && units[j].hp > 0 ==> #[trigger] units[j].slot >= 6,
        },
{
    lemma_target_from_choice(units, 0, 6);
}

/// Passing the turn moves to the next entry of the order; past its end a new
/// round begins: the round count rises, no unit defends any more, allies stop
/// guarding, the order is rebuilt from the living units fastest first and
/// starts over. Health never changes.
pub proof fn law_advance_turn(v: CombatView)
    requires
        v.turn_index < usize::MAX,
        v.round < u32::MAX,
    ensures
        ({
            let w = spec_advance_turn(v);
            &&& v.turn_index + 1 < v.turn_order.len() ==> w == (CombatView { turn_index: (v.turn_index + 1) as usize, ..v })
            &&& v.turn_index + 1 >= v.turn_order.len() ==> {
                &&& w.round == v.round + 1
                &&& w.turn_index == 0
                &&& w.allies.len() == v.allies.len() && w.enemies.len() == v.enemies.len()
                &&& (forall|i: int| 0 <= i < w.allies.len() ==> !(#[trigger] w.allies[i]).is_defending && !w.allies[i].is_guarding
                    && w.allies[i].hp == v.allies[i].hp)
                &&& (forall|i: int| 0 <= i < w.enemies.len() ==> !(#[trigger] w.enemies[i]).is_defending
                    && w.enemies[i].is_guarding == v.enemies[i].is_guarding && w.enemies[i].hp == v.enemies[i].hp)
                &&& w.turn_order == spec_turn_order(w)
            }
        }),
{
}

/// The turns a side contributes are exactly its living units, each once, in
/// formation order, tagged with its speed.
pub proof fn law_side_entries(units: Seq<Combatant>, side: CombatSide)
    requires
        units.len() <= usize::MAX,
    ensures
        forall|k: int| 0 <= k < side_entries(units, side).len() ==> {
            let e = #[trigger] side_entries(units, side)[k];
            &&& e.1.side == side
            &&& 0 <= e.1.slot < units.len()
            &&& units[e.1.slot as int].hp > 0
            &&& e.0 == units[e.1.slot as int].speed
        },
        forall|i: int| 0 <= i < units.len() && (#[trigger] units[i]).hp > 0
            ==> exists|k: int| 0 <= k < side_entries(units, side).len() && side_entries(units, side)[k].1.slot == i,
    decreases units.len(),
{
    if units.len() > 0 {
        let prefix = units.drop_last();
        law_side_entries(prefix, side);
        let rest = side_entries(prefix, side);
        let all = side_entries(units, side);
        let n = units.len() - 1;
        if units.last().hp > 0 {
            assert(all == rest.push((units.last().speed, CombatTurn { side, slot: n as usize })));
        } else {
            assert(all == rest);
        }
        assert forall|k: int| 0 <= k < all.len() implies {
            let e = #[trigger] all[k];
            &&& e.1.side == side
            &&& 0 <= e.1.slot < units.len()
            &&& units[e.1.slot as int].hp > 0
            &&& e.0 == units[e.1.slot as int].speed
        } by {
            if k < rest.len() {
                assert(all[k] == rest[k]);
                assert(prefix[rest[k].1.slot as int] == units[rest[k].1.slot as int]);
            } else {
                assert(units.last().hp > 0);
                assert(all[k] == (units.last().speed, CombatTurn { side, slot: n as usize }));
                assert(units.last() == units[n]);
            }
        }
        assert forall|i: int| 0 <= i < units.len() && (#[trigger] units[i]).hp > 0
            implies exists|k: int| 0 <= k < all.len() && all[k].1.slot == i by {
            if i < n {
                assert(prefix[i] == units[i]);
                assert(prefix[i].hp > 0);
                let k = choose|k: int| 0 <= k < rest.len() && rest[k].1.slot == i;
                assert(all[k] == rest[k]);
            } else {
                assert(units.last() == units[n]);
                assert(all[rest.len() as int] == (units.last().speed, CombatTurn { side, slot: n as usize }));
                assert(all[rest.len() as int].1.slot == i);
            }
        }
    }
}

/// An unsettled fight is won once no enemy stands, lost once no ally stands
/// (while an enemy does), and goes on while both sides have a unit standing;
/// a settled fight stays as it was.
pub proof fn law_outcome(v: CombatView)
    ensures
        v.outcome is Some ==> spec_check_outcome(v) == (v, true),
        v.outcome is None && (forall|i: int| 0 <= i < v.enemies.len() ==> v.enemies[i].hp <= 0)
            ==> spec_check_outcome(v).0.outcome == Some(CombatOutcome::Victory) && spec_check_outcome(v).1,
        v.outcome is None && (exists|i: int| 0 <= i < v.enemies.len() && v.enemies[i].hp > 0)
            && (forall|i: int| 0 <= i < v.allies.len() ==> v.allies[i].hp <= 0)
            ==> spec_check_outcome(v).0.outcome == Some(CombatOutcome::Defeat) && spec_check_outcome(v).1,
        v.outcome is None && (exists|i: int| 0 <= i < v.enemies.len() && v.enemies[i].hp > 0)
            && (exists|i: int| 0 <= i < v.allies.len() && v.allies[i].hp > 0)
            ==> spec_check_outcome(v) == (v, false),
        spec_check_outcome(v).0.allies == v.allies && spec_check_outcome(v).0.enemies == v.enemies,
{
}

/// Whom an enemy strikes: on every fourth beat (round, floor and the
/// enemy's slot adding up to a multiple of four), while an ally stands in
/// the back row, it aims there, where the first living front-row tank on
/// guard steps in to take the blow, and otherwise the back-row ally in the
/// lowest slot takes it; on other beats it strikes the unit the formation
/// presents first, with no guard.
pub proof fn law_enemy_targeting(v: CombatView, slot: int)
    ensures
        (v.round + v.floor + slot) % 4 != 0 ==> spec_enemy_target(v, slot) == match spec_first_target(v.allies) {
            Some(t) => Some((t, None::<int>)),
            None => None,
        },
        (v.round + v.floor + slot) % 4 == 0 && (exists|i: int| 0 <= i < v.allies.len() && v.allies[i].hp > 0 && 3 <= #[trigger] v.allies[i].slot < 6)
            ==> (spec_enemy_target(v, slot) matches Some((t, g)) && {
                &&& 0 <= t < v.allies.len()
                &&& (g is Some ==> {
                    &&& g == Some(t)
                    &&& v.allies[t].hp > 0 && v.allies[t].slot < 3 && v.allies[t].role == Some(MonsterRole::Tank) && v.allies[t].is_guarding
                    &&& forall|j: int| 0 <= j < t ==> !(v.allies[j].hp > 0 && v.allies[j].slot < 3
                        && v.allies[j].role == Some(MonsterRole::Tank) && #[trigger] v.allies[j].is_guarding)
                })
                &&& (g is None ==> {
                    &&& v.allies[t].hp > 0 && 3 <= v.allies[t].slot < 6
                    &&& (forall|j: int| 0 <= j < v.allies.len() && v.allies[j].hp > 0 && 3 <= #[trigger] v.allies[j].slot < 6
                        ==> v.allies[t].slot <= v.allies[j].slot)
                    &&& forall|j: int| 0 <= j < v.allies.len() ==> !(v.allies[j].hp > 0 && v.allies[j].slot < 3
                        && v.allies[j].role == Some(MonsterRole::Tank) && #[trigger] v.allies[j].is_guarding)
                })
            }),
{
    lemma_target_from_choice(v.allies, 3, 6);
    lemma_first_where(v.allies, guarding_tank());
    if (v.round + v.floor + slot) % 4 == 0 && (exists|i: int| 0 <= i < v.allies.len() && v.allies[i].hp > 0 && 3 <= #[trigger] v.allies[i].slot < 6) {
        let i = choose|i: int| 0 <= i < v.allies.len() && v.allies[i].hp > 0 && 3 <= #[trigger] v.allies[i].slot < 6;
        assert(target_from(v.allies, 3, 6) is Some);
    }
}

} // verus!
