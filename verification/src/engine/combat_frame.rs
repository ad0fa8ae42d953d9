//! The shape every encounter keeps: each turn in the order, and in the replay
//! record, names a combatant that exists, and the replay record has as many
//! combatants as the fight.

use vstd::prelude::*;
use crate::data::game_data::GameData;
use crate::engine::combat_actions::{
    spec_enemy_target, spec_enemy_action, spec_ally_attack, spec_ally_skill, spec_defend,
    spec_guard_back_row, spec_mark_target, spec_burst_strike, spec_rally_ally, spec_support_skill,
    skill_role, spec_advance, is_alive, morale_key, is_wounded, missing_hp,
};
use crate::engine::combat_rules::{
    target_from, spec_first_target, guarding_tank, spec_wounded_target, lemma_wounded_target_bounds,
    spec_log_if_defeated, spec_check_outcome, spec_turn_is_alive, spec_advance_turn, spec_rebuild,
    spec_turn_order, side_entries, sort_by_speed, insert_by_speed, TurnEntry, alive_in_slot,
    spec_new_round_units,
};
use crate::data::schema::MonsterRole;
use crate::seqs::{first_where, lemma_first_where, lemma_first_min_where_bounds, lemma_last_max_where_bounds};
use crate::state::combat::{CombatSide, CombatTurn, CombatView, Combatant};

verus! {

/// A turn names a combatant of its side.
pub open spec fn turn_fits(t: CombatTurn, allies: int, enemies: int) -> bool {
    match t.side {
        CombatSide::Ally => t.slot < allies,
        CombatSide::Enemy => t.slot < enemies,
    }
}

pub open spec fn order_in_range(order: Seq<CombatTurn>, allies: int, enemies: int) -> bool {
    forall|i: int| 0 <= i < order.len() ==> #[trigger] turn_fits(order[i], allies, enemies)
}

/// Every turn in the order names an existing combatant.
pub open spec fn turns_ok(v: CombatView) -> bool {
    order_in_range(v.turn_order, v.allies.len() as int, v.enemies.len() as int)
}

/// The replay record matches the fight's sides and its turns name existing combatants.
pub open spec fn replay_ok(v: CombatView) -> bool {
    &&& v.replay_roster.len() == v.allies.len()
    &&& v.replay_enemies.len() == v.enemies.len()
    &&& order_in_range(v.replay_turn_order, v.allies.len() as int, v.enemies.len() as int)
}

/// The encounter's shape is sound.
pub open spec fn combat_wf(v: CombatView) -> bool {
    turns_ok(v) && replay_ok(v)
}

/// `w` has the side sizes and the replay record of `v`.
pub open spec fn keeps_shape(v: CombatView, w: CombatView) -> bool {
    &&& w.rewards == v.rewards
    &&& w.floor == v.floor
    &&& w.is_boss == v.is_boss
    &&& w.xp_reward == v.xp_reward
    &&& w.rng_seed == v.rng_seed
    &&& w.command_history == v.command_history
    &&& w.allies.len() == v.allies.len()
    &&& w.enemies.len() == v.enemies.len()
    &&& w.replay_roster == v.replay_roster
    &&& w.replay_enemies == v.replay_enemies
    &&& w.replay_turn_order == v.replay_turn_order
}

/// `w` has the sides, turn order and replay record of `v`.
pub open spec fn same_frame(v: CombatView, w: CombatView) -> bool {
    &&& w.rewards == v.rewards
    &&& w.floor == v.floor
    &&& w.is_boss == v.is_boss
    &&& w.xp_reward == v.xp_reward
    &&& w.rng_seed == v.rng_seed
    &&& w.command_history == v.command_history
    &&& w.allies.len() == v.allies.len()
    &&& w.enemies.len() == v.enemies.len()
    &&& w.turn_order == v.turn_order
    &&& w.replay_roster == v.replay_roster
    &&& w.replay_enemies == v.replay_enemies
    &&& w.replay_turn_order == v.replay_turn_order
}

pub proof fn lemma_target_from_bounds(units: Seq<Combatant>, slot: int, end: int)
    ensures
        target_from(units, slot, end) matches Some(i) ==> 0 <= i < units.len(),
    decreases end - slot,
{
    if slot < end {
        lemma_first_where(units, alive_in_slot(slot));
        lemma_target_from_bounds(units, slot + 1, end);
    }
}

pub proof fn lemma_enemy_target_bounds(v: CombatView, slot: int)
    ensures
        spec_enemy_target(v, slot) matches Some((t, g)) ==> 0 <= t < v.allies.len(),
{
    lemma_target_from_bounds(v.allies, 3, 6);
    lemma_target_from_bounds(v.allies, 0, 6);
    lemma_first_where(v.allies, guarding_tank());
}

pub proof fn lemma_enemy_action_frame(v: CombatView, slot: int)
    ensures
        same_frame(v, spec_enemy_action(v, slot)),
{
    lemma_enemy_target_bounds(v, slot);
}

pub proof fn lemma_check_frame(v: CombatView)
    ensures
        same_frame(v, spec_check_outcome(v).0),
{
}

/// Every ally command leaves the sides, the turn order and the replay record alone.
pub proof fn lemma_ally_frames(data: GameData, v: CombatView, slot: int)
    requires
        0 <= slot < v.allies.len(),
    ensures
        same_frame(v, spec_ally_attack(v, slot).0),
        same_frame(v, spec_ally_skill(data, v, slot).0),
        same_frame(v, spec_defend(v, slot).0),
{
    lemma_target_from_bounds(v.enemies, 0, 6);
    lemma_target_from_bounds(v.allies, 0, 6);
    lemma_wounded_target_bounds(v.enemies);
    lemma_first_min_where_bounds(v.allies, is_alive(), morale_key());
    lemma_last_max_where_bounds(v.allies, is_wounded(), missing_hp());
    match skill_role(data, v, slot) {
        MonsterRole::Support => {
            match crate::seqs::last_max_where(v.allies, is_wounded(), missing_hp()) {
                None => {
                    assert(same_frame(v, spec_rally_ally(v, slot).0));
                },
                Some(t) => {},
            }
        },
        MonsterRole::Tank => {},
        MonsterRole::Scout => {},
        MonsterRole::Striker => {},
    }
}

proof fn lemma_insert_all(s: Seq<TurnEntry>, x: TurnEntry, allies: int, enemies: int)
    requires
        forall|i: int| 0 <= i < s.len() ==> turn_fits(#[trigger] s[i].1, allies, enemies),
        turn_fits(x.1, allies, enemies),
    ensures
        forall|i: int| 0 <= i < insert_by_speed(s, x).len() ==> turn_fits(#[trigger] insert_by_speed(s, x)[i].1, allies, enemies),
    decreases s.len(),
{
    if s.len() > 0 && s.last().0 < x.0 {
        let d = s.drop_last();
        assert forall|i: int| 0 <= i < d.len() implies turn_fits(#[trigger] d[i].1, allies, enemies) by {
            assert(d[i] == s[i]);
        }
        lemma_insert_all(d, x, allies, enemies);
        let r = insert_by_speed(d, x);
        assert forall|i: int| 0 <= i < r.push(s.last()).len() implies turn_fits(#[trigger] r.push(s.last())[i].1, allies, enemies) by {
            if i < r.len() {
                assert(r.push(s.last())[i] == r[i]);
            } else {
                assert(r.push(s.last())[i] == s[s.len() - 1]);
            }
        }
    }
}

proof fn lemma_sort_all(s: Seq<TurnEntry>, allies: int, enemies: int)
    requires
        forall|i: int| 0 <= i < s.len() ==> turn_fits(#[trigger] s[i].1, allies, enemies),
    ensures
        forall|i: int| 0 <= i < sort_by_speed(s).len() ==> turn_fits(#[trigger] sort_by_speed(s)[i].1, allies, enemies),
    decreases s.len(),
{
    if s.len() > 0 {
        let d = s.drop_last();
        assert forall|i: int| 0 <= i < d.len() implies turn_fits(#[trigger] d[i].1, allies, enemies) by {
            assert(d[i] == s[i]);
        }
        lemma_sort_all(d, allies, enemies);
        assert(turn_fits(s[s.len() - 1].1, allies, enemies));
        lemma_insert_all(sort_by_speed(d), s.last(), allies, enemies);
    }
}

proof fn lemma_side_entries_fit(units: Seq<Combatant>, side: CombatSide, allies: int, enemies: int)
    requires
        units.len() == (match side { CombatSide::Ally => allies, CombatSide::Enemy => enemies }),
    ensures
        forall|i: int| 0 <= i < side_entries(units, side).len() ==> turn_fits(#[trigger] side_entries(units, side)[i].1, allies, enemies),
    decreases units.len(),
{
    lemma_side_entries_below(units, side);
}

proof fn lemma_side_entries_below(units: Seq<Combatant>, side: CombatSide)
    ensures
        forall|i: int| 0 <= i < side_entries(units, side).len() ==> (#[trigger] side_entries(units, side)[i]).1.side == side
            && side_entries(units, side)[i].1.slot < units.len(),
    decreases units.len(),
{
    if units.len() > 0 {
        lemma_side_entries_below(units.drop_last(), side);
        let rest = side_entries(units.drop_last(), side);
        if units.last().hp > 0 {
            let e = (units.last().speed, CombatTurn { side, slot: (units.len() - 1) as usize });
            assert forall|i: int| 0 <= i < rest.push(e).len() implies (#[trigger] rest.push(e)[i]).1.side == side
                && rest.push(e)[i].1.slot < units.len() by {
                if i < rest.len() {
                    assert(rest.push(e)[i] == rest[i]);
                }
            }
        }
    }
}

/// A rebuilt turn order names only existing combatants.
pub proof fn lemma_turn_order_fits(v: CombatView)
    ensures
        order_in_range(spec_turn_order(v), v.allies.len() as int, v.enemies.len() as int),
{
    let a = v.allies.len() as int;
    let e = v.enemies.len() as int;
    lemma_side_entries_fit(v.allies, CombatSide::Ally, a, e);
    lemma_side_entries_fit(v.enemies, CombatSide::Enemy, a, e);
    let sa = side_entries(v.allies, CombatSide::Ally);
    let se = side_entries(v.enemies, CombatSide::Enemy);
    let all = sa + se;
    assert forall|i: int| 0 <= i < all.len() implies turn_fits(#[trigger] all[i].1, a, e) by {
        if i < sa.len() {
            assert(all[i] == sa[i]);
        } else {
            assert(all[i] == se[i - sa.len()]);
        }
    }
    lemma_sort_all(all, a, e);
    let sorted = sort_by_speed(all);
    let order = sorted.map_values(|x: TurnEntry| x.1);
    assert forall|i: int| 0 <= i < order.len() implies #[trigger] turn_fits(order[i], a, e) by {
        assert(order[i] == sorted[i].1);
    }
}

pub proof fn lemma_rebuild_wf(v: CombatView)
    ensures
        turns_ok(spec_rebuild(v)),
        keeps_shape(v, spec_rebuild(v)),
{
    lemma_turn_order_fits(v);
}

pub proof fn lemma_advance_turn_wf(v: CombatView)
    requires
        turns_ok(v),
    ensures
        turns_ok(spec_advance_turn(v)),
        keeps_shape(v, spec_advance_turn(v)),
{
    let next = if v.turn_index < usize::MAX { (v.turn_index + 1) as usize } else { v.turn_index };
    if next >= v.turn_order.len() {
        let w = CombatView {
            round: crate::arith::clamp_u32(v.round + 1) as u32,
            allies: spec_new_round_units(v.allies, true),
            enemies: spec_new_round_units(v.enemies, false),
            turn_index: next,
            ..v
        };
        lemma_rebuild_wf(w);
    }
}

/// Running enemy turns keeps the encounter's shape.
pub proof fn lemma_advance_wf(v: CombatView, fuel: nat)
    requires
        turns_ok(v),
    ensures
        turns_ok(spec_advance(v, fuel)),
        keeps_shape(v, spec_advance(v, fuel)),
    decreases fuel,
{
    if fuel > 0 {
        let (checked, done) = spec_check_outcome(v);
        lemma_check_frame(v);
        if !done {
            match v.current_turn() {
                None => {
                    lemma_rebuild_wf(v);
                    lemma_advance_wf(spec_rebuild(v), (fuel - 1) as nat);
                },
                Some(turn) => {
                    if !spec_turn_is_alive(v, turn) {
                        lemma_advance_turn_wf(v);
                        lemma_advance_wf(spec_advance_turn(v), (fuel - 1) as nat);
                    } else if turn.side != CombatSide::Ally {
                        let acted = spec_enemy_action(v, turn.slot as int);
                        lemma_enemy_action_frame(v, turn.slot as int);
                        let (after, finished) = spec_check_outcome(acted);
                        lemma_check_frame(acted);
                        if !finished {
                            lemma_advance_turn_wf(after);
                            lemma_advance_wf(spec_advance_turn(after), (fuel - 1) as nat);
                        }
                    }
                },
            }
        }
    }
}

} // verus!
