//! Why a recorded encounter replays faithfully: what a command does depends
//! only on the fight itself (sides, turns, outcome, floor, seed), never on the
//! log, the rewards or the record, so a replay started from the recorded
//! opening walks through the same fights and meets every recorded digest.

use vstd::prelude::*;
use crate::data::game_data::GameData;
use crate::engine::combat_actions::{
    spec_advance, spec_ally_attack, spec_ally_skill, spec_burst_strike, spec_defend, spec_enemy_action,
    spec_guard_back_row, spec_mark_target, spec_rally_ally, spec_support_skill, ADVANCE_BEATS,
};
use crate::engine::combat_engine::{
    recorded, settle, spec_combat_digest, spec_command_step, spec_flee, spec_player_action, spec_player_command,
    spec_recorded_command, spec_use_item, CombatCommand,
};
use crate::engine::combat_rules::{spec_advance_turn, spec_check_outcome, spec_log_if_defeated, spec_rebuild};
use crate::engine::combat_frame::{combat_wf, lemma_advance_turn_wf, lemma_advance_wf, lemma_ally_frames, turn_fits, turns_ok};
use crate::engine::combat_replay::{command_view, replay_trace, step_matches, CombatReplay, ReplayReport};
use crate::arith::{clamp_i32, min_int};
use crate::engine::combat_engine::{item_line, spec_encounter, spec_encounter_seed, start_line};
use crate::engine::combat_replay::replay_step;
use crate::engine::combat_support::{spec_build_allies, spec_build_enemies, xp_total};
use crate::state::combat::{CombatReplayCommand, CombatSide, CombatView};
use crate::state::game::{starting_amount, GameState};
use crate::state::resources::ResourceStack;

verus! {

/// Two encounters agree on the fight itself: floor, round, turn, order,
/// both sides, outcome, boss flag and seed. They may differ in their logs,
/// rewards and records.
pub open spec fn same_fight(a: CombatView, b: CombatView) -> bool {
    &&& a.floor == b.floor
    &&& a.round == b.round
    &&& a.turn_index == b.turn_index
    &&& a.turn_order == b.turn_order
    &&& a.allies == b.allies
    &&& a.enemies == b.enemies
    &&& a.outcome == b.outcome
    &&& a.is_boss == b.is_boss
    &&& a.rng_seed == b.rng_seed
}

pub proof fn lemma_digest_follows_fight(a: CombatView, b: CombatView)
    requires
        same_fight(a, b),
    ensures
        spec_combat_digest(a) == spec_combat_digest(b),
{
}

proof fn lemma_rules_follow_fight(a: CombatView, b: CombatView)
    requires
        same_fight(a, b),
    ensures
        same_fight(spec_check_outcome(a).0, spec_check_outcome(b).0),
        spec_check_outcome(a).1 == spec_check_outcome(b).1,
        same_fight(spec_rebuild(a), spec_rebuild(b)),
        same_fight(spec_advance_turn(a), spec_advance_turn(b)),
        forall|side: CombatSide, slot: int| same_fight(#[trigger] spec_log_if_defeated(a, side, slot), spec_log_if_defeated(b, side, slot)),
{
}

proof fn lemma_enemy_action_follows_fight(a: CombatView, b: CombatView, slot: int)
    requires
        same_fight(a, b),
    ensures
        same_fight(spec_enemy_action(a, slot), spec_enemy_action(b, slot)),
{
}

proof fn lemma_advance_follows_fight(a: CombatView, b: CombatView, fuel: nat)
    requires
        same_fight(a, b),
    ensures
        same_fight(spec_advance(a, fuel), spec_advance(b, fuel)),
    decreases fuel,
{
    if fuel > 0 {
        lemma_rules_follow_fight(a, b);
        let (checked, done) = spec_check_outcome(a);
        if !done {
            match a.current_turn() {
                None => {
                    lemma_advance_follows_fight(spec_rebuild(a), spec_rebuild(b), (fuel - 1) as nat);
                },
                Some(turn) => {
                    assert(b.current_turn() == Some(turn));
                    if !crate::engine::combat_rules::spec_turn_is_alive(a, turn) {
                        lemma_advance_follows_fight(spec_advance_turn(a), spec_advance_turn(b), (fuel - 1) as nat);
                    } else if turn.side != CombatSide::Ally {
                        let acted_a = spec_enemy_action(a, turn.slot as int);
                        let acted_b = spec_enemy_action(b, turn.slot as int);
                        lemma_enemy_action_follows_fight(a, b, turn.slot as int);
                        lemma_rules_follow_fight(acted_a, acted_b);
                        let after_a = spec_check_outcome(acted_a).0;
                        let after_b = spec_check_outcome(acted_b).0;
                        lemma_rules_follow_fight(after_a, after_b);
                        lemma_advance_follows_fight(spec_advance_turn(after_a), spec_advance_turn(after_b), (fuel - 1) as nat);
                    }
                },
            }
        }
    }
}

proof fn lemma_commands_follow_fight(data: GameData, a: CombatView, b: CombatView, command: CombatCommand, slot: int)
    requires
        same_fight(a, b),
    ensures
        same_fight(spec_command_step(data, a, command, slot).0, spec_command_step(data, b, command, slot).0),
{
    lemma_rules_follow_fight(a, b);
    match command {
        CombatCommand::Attack => {},
        CombatCommand::Skill => {
            assert(same_fight(spec_support_skill(a, slot).0, spec_support_skill(b, slot).0));
            assert(same_fight(spec_guard_back_row(a, slot).0, spec_guard_back_row(b, slot).0));
            assert(same_fight(spec_mark_target(a, slot).0, spec_mark_target(b, slot).0));
            assert(same_fight(spec_burst_strike(a, slot).0, spec_burst_strike(b, slot).0));
        },
        CombatCommand::Defend => {},
        _ => {
            assert(same_fight(spec_flee(a).0, spec_flee(b).0));
        },
    }
}

/// A command's effect on the fight depends on the fight alone.
pub proof fn lemma_action_follows_fight(data: GameData, a: CombatView, b: CombatView, command: CombatCommand)
    requires
        same_fight(a, b),
    ensures
        same_fight(spec_player_action(data, a, command).0, spec_player_action(data, b, command).0),
{
    match a.current_turn() {
        None => {},
        Some(t) => {
            assert(b.current_turn() == Some(t));
            if t.side != CombatSide::Ally {
                lemma_advance_follows_fight(a, b, ADVANCE_BEATS as nat);
            } else {
                lemma_commands_follow_fight(data, a, b, command, t.slot as int);
                let acted_a = spec_command_step(data, a, command, t.slot as int).0;
                let acted_b = spec_command_step(data, b, command, t.slot as int).0;
                if acted_a.outcome is None {
                    lemma_rules_follow_fight(acted_a, acted_b);
                    lemma_advance_follows_fight(spec_advance_turn(acted_a), spec_advance_turn(acted_b), ADVANCE_BEATS as nat);
                }
            }
        },
    }
}

/// Using herbs affects the fight the same way whatever the log and record say.
pub proof fn lemma_item_follows_fight(a: CombatView, b: CombatView, slot: int)
    requires
        same_fight(a, b),
        0 <= slot < a.allies.len(),
    ensures
        same_fight(spec_use_item(a, slot), spec_use_item(b, slot)),
{
    let ua = a.allies[slot];
    let healed = crate::state::combat::Combatant {
        hp: crate::arith::min_int(crate::arith::clamp_i32(ua.hp + 10), ua.max_hp as int) as i32,
        ..ua
    };
    let acted_a = CombatView { allies: a.allies.update(slot, healed), log: a.log.push(crate::engine::combat_engine::item_line(ua.name@)), ..a };
    let acted_b = CombatView { allies: b.allies.update(slot, healed), log: b.log.push(crate::engine::combat_engine::item_line(ua.name@)), ..b };
    lemma_rules_follow_fight(acted_a, acted_b);
    lemma_advance_follows_fight(spec_advance_turn(acted_a), spec_advance_turn(acted_b), ADVANCE_BEATS as nat);
}

/// Where a replay of `v`'s record starts: its opening snapshot (its current
/// sides and order where no snapshot was taken), with no log, rewards,
/// outcome or commands.
pub open spec fn replay_start(v: CombatView) -> CombatView {
    let allies = if v.replay_roster.len() == 0 { v.allies } else { v.replay_roster };
    let enemies = if v.replay_enemies.len() == 0 { v.enemies } else { v.replay_enemies };
    let order = if v.replay_turn_order.len() == 0 { v.turn_order } else { v.replay_turn_order };
    let round = if v.replay_round >= 1 { v.replay_round } else { 1 };
    CombatView {
        floor: v.floor,
        round,
        turn_index: v.replay_turn_index,
        turn_order: order,
        allies,
        enemies,
        rewards: Seq::empty(),
        xp_reward: 0,
        log: Seq::empty(),
        outcome: None,
        is_boss: v.is_boss,
        rng_seed: v.rng_seed,
        replay_roster: allies,
        replay_enemies: enemies,
        replay_turn_order: order,
        replay_round: round,
        replay_turn_index: v.replay_turn_index,
        command_history: Seq::empty(),
    }
}

/// Replaying `v`'s record from its opening with `h0` herbs in store reaches
/// `v`'s fight with `herbs` herbs left, meeting every recorded digest on the way.
pub open spec fn replay_faithful(data: GameData, v: CombatView, herbs: int, h0: int) -> bool {
    let cmds = v.command_history;
    let t = replay_trace(data, replay_start(v), h0, cmds, cmds.len() as int);
    &&& same_fight(t.0, v)
    &&& t.1 == herbs
    &&& forall|j: int| 0 <= j < cmds.len() ==> #[trigger] step_matches(data, replay_start(v), h0, cmds, j)
}

proof fn lemma_trace_prefix(
    data: GameData,
    v0: CombatView,
    h0: int,
    cmds: Seq<(CombatReplayCommand, Seq<char>)>,
    x: (CombatReplayCommand, Seq<char>),
    n: int,
)
    requires
        0 <= n <= cmds.len(),
    ensures
        replay_trace(data, v0, h0, cmds.push(x), n) == replay_trace(data, v0, h0, cmds, n),
    decreases n,
{
    if n > 0 {
        lemma_trace_prefix(data, v0, h0, cmds, x, n - 1);
        assert(cmds.push(x)[n - 1] == cmds[n - 1]);
    }
}

proof fn lemma_command_round_trip(c: CombatCommand)
    ensures
        spec_player_command(spec_recorded_command(c)) == c,
{
}

/// What an action leaves of the record: floor, boss flag, seed and opening
/// snapshot stay; the history gains at most one entry.
pub open spec fn keeps_record(v: CombatView, w: CombatView) -> bool {
    &&& w.floor == v.floor
    &&& w.is_boss == v.is_boss
    &&& w.rng_seed == v.rng_seed
    &&& w.replay_roster == v.replay_roster
    &&& w.replay_enemies == v.replay_enemies
    &&& w.replay_turn_order == v.replay_turn_order
    &&& w.replay_round == v.replay_round
    &&& w.replay_turn_index == v.replay_turn_index
}

proof fn lemma_round_kept(v: CombatView, fuel: nat)
    ensures
        spec_advance(v, fuel).replay_round == v.replay_round,
        spec_advance(v, fuel).replay_turn_index == v.replay_turn_index,
    decreases fuel,
{
    if fuel > 0 {
        let (checked, done) = spec_check_outcome(v);
        if !done {
            match v.current_turn() {
                None => {
                    lemma_round_kept(spec_rebuild(v), (fuel - 1) as nat);
                },
                Some(turn) => {
                    if !crate::engine::combat_rules::spec_turn_is_alive(v, turn) {
                        lemma_round_kept(spec_advance_turn(v), (fuel - 1) as nat);
                    } else if turn.side != CombatSide::Ally {
                        let acted = spec_enemy_action(v, turn.slot as int);
                        let after = spec_check_outcome(acted).0;
                        lemma_round_kept(spec_advance_turn(after), (fuel - 1) as nat);
                    }
                },
            }
        }
    }
}

proof fn lemma_action_keeps_record(data: GameData, v: CombatView, command: CombatCommand)
    requires
        combat_wf(v),
    ensures
        keeps_record(v, spec_player_action(data, v, command).0),
{
    let w = spec_player_action(data, v, command).0;
    match v.current_turn() {
        None => {},
        Some(t) => {
            assert(turn_fits(v.turn_order[v.turn_index as int], v.allies.len() as int, v.enemies.len() as int));
            if t.side != CombatSide::Ally {
                lemma_advance_wf(v, ADVANCE_BEATS as nat);
                lemma_round_kept(v, ADVANCE_BEATS as nat);
            } else {
                lemma_ally_frames(data, v, t.slot as int);
                let acted = spec_command_step(data, v, command, t.slot as int).0;
                if acted.outcome is None {
                    lemma_advance_turn_wf(acted);
                    lemma_advance_wf(spec_advance_turn(acted), ADVANCE_BEATS as nat);
                    lemma_round_kept(spec_advance_turn(acted), ADVANCE_BEATS as nat);
                }
            }
        },
    }
}

proof fn lemma_start_kept(v: CombatView, w: CombatView)
    requires
        keeps_record(v, w),
        v.replay_roster.len() == v.allies.len(),
        v.replay_enemies.len() == v.enemies.len(),
        w.replay_roster.len() == w.allies.len(),
        w.replay_enemies.len() == w.enemies.len(),
        v.replay_turn_order.len() > 0,
    ensures
        replay_start(w) == replay_start(v),
{
    if v.replay_roster.len() == 0 {
        assert(v.allies =~= v.replay_roster);
        assert(w.allies =~= w.replay_roster);
    }
    if v.replay_enemies.len() == 0 {
        assert(v.enemies =~= v.replay_enemies);
        assert(w.enemies =~= w.replay_enemies);
    }
}

/// An encounter that opens with a turn to take has a faithful record: its
/// replay starts from the very fight it opened with.
pub proof fn law_encounter_opens_replay(
    state: GameState,
    data: GameData,
    floor: u32,
    is_boss: bool,
    rewards: Seq<ResourceStack>,
    herbs: int,
)
    requires
        spec_encounter(state, data, floor, is_boss, rewards).outcome is None,
        spec_encounter(state, data, floor, is_boss, rewards).current_turn() is Some,
    ensures
        replay_faithful(data, spec_encounter(state, data, floor, is_boss, rewards), herbs, herbs),
{
    let v = spec_encounter(state, data, floor, is_boss, rewards);
    let enemies = spec_build_enemies(data, floor, is_boss);
    let opened = CombatView {
        floor,
        round: 1,
        turn_index: 0,
        turn_order: Seq::empty(),
        allies: spec_build_allies(state),
        enemies,
        rewards,
        xp_reward: min_int(xp_total(data, enemies), u32::MAX as int) as u32,
        log: seq![start_line(floor)],
        outcome: None,
        is_boss,
        rng_seed: spec_encounter_seed(floor, is_boss),
        replay_roster: Seq::empty(),
        replay_enemies: Seq::empty(),
        replay_turn_order: Seq::empty(),
        replay_round: 1,
        replay_turn_index: 0,
        command_history: Seq::empty(),
    };
    lemma_advance_rounds(spec_rebuild(opened), ADVANCE_BEATS as nat);
    crate::engine::combat_frame::lemma_rebuild_wf(opened);
    lemma_advance_wf(spec_rebuild(opened), ADVANCE_BEATS as nat);
    assert(v.command_history.len() == 0);
    assert(replay_start(v).allies == v.allies) by {
        if v.replay_roster.len() == 0 {
            assert(v.allies =~= v.replay_roster);
        }
    }
    assert(replay_start(v).enemies == v.enemies) by {
        if v.replay_enemies.len() == 0 {
            assert(v.enemies =~= v.replay_enemies);
        }
    }
    assert(same_fight(replay_start(v), v));
}

proof fn lemma_advance_rounds(v: CombatView, fuel: nat)
    requires
        v.round >= 1,
    ensures
        spec_advance(v, fuel).round >= 1,
    decreases fuel,
{
    if fuel > 0 {
        let (checked, done) = spec_check_outcome(v);
        if !done {
            match v.current_turn() {
                None => {
                    lemma_advance_rounds(spec_rebuild(v), (fuel - 1) as nat);
                },
                Some(turn) => {
                    if !crate::engine::combat_rules::spec_turn_is_alive(v, turn) {
                        lemma_advance_rounds(spec_advance_turn(v), (fuel - 1) as nat);
                    } else if turn.side != CombatSide::Ally {
                        let acted = spec_enemy_action(v, turn.slot as int);
                        crate::engine::combat_frame::lemma_enemy_action_frame(v, turn.slot as int);
                        let after = spec_check_outcome(acted).0;
                        lemma_advance_rounds(spec_advance_turn(after), (fuel - 1) as nat);
                    }
                },
            }
        }
    }
}

/// Every command taken in an unsettled fight with a recorded opening keeps
/// its record faithful.
pub proof fn law_action_keeps_replay(data: GameData, v: CombatView, herbs: int, h0: int, command: CombatCommand)
    requires
        replay_faithful(data, v, herbs, h0),
        combat_wf(v),
        v.outcome is None,
        v.replay_turn_order.len() > 0,
        command != CombatCommand::Item,
    ensures
        replay_faithful(data, spec_player_action(data, v, command).0, herbs, h0),
{
    let w = spec_player_action(data, v, command).0;
    if v.current_turn() is Some {
        lemma_action_keeps_record(data, v, command);
        lemma_replay_shape(data, v, command);
        lemma_recorded_entry(data, v, command);
        let cmds = v.command_history;
        let n = cmds.len() as int;
        let start = replay_start(v);
        let t0 = replay_trace(data, start, h0, cmds, n);
        lemma_action_follows_fight(data, t0.0, v, command);
        lemma_command_round_trip(command);
        lemma_start_kept(v, w);
        let x = (spec_recorded_command(command), spec_combat_digest(w));
        lemma_trace_extend(data, start, h0, cmds, x);
        assert(replay_trace(data, start, h0, w.command_history, n + 1)
            == replay_step(data, t0.0, t0.1, command));
        assert(replay_step(data, t0.0, t0.1, command).0 == spec_player_action(data, t0.0, command).0);
        lemma_digest_follows_fight(replay_trace(data, start, h0, w.command_history, n + 1).0, w);
        assert forall|j: int| 0 <= j < w.command_history.len() implies #[trigger] step_matches(data, replay_start(w), h0, w.command_history, j) by {
            if j < n {
                lemma_trace_prefix(data, start, h0, cmds, x, j + 1);
                assert(step_matches(data, start, h0, cmds, j));
            }
        }
    } else {
        assert(w == v);
    }
}

proof fn lemma_trace_extend(
    data: GameData,
    v0: CombatView,
    h0: int,
    cmds: Seq<(CombatReplayCommand, Seq<char>)>,
    x: (CombatReplayCommand, Seq<char>),
)
    ensures
        replay_trace(data, v0, h0, cmds.push(x), cmds.len() + 1 as int) == replay_step(
            data,
            replay_trace(data, v0, h0, cmds, cmds.len() as int).0,
            replay_trace(data, v0, h0, cmds, cmds.len() as int).1,
            spec_player_command(x.0),
        ),
{
    lemma_trace_prefix(data, v0, h0, cmds, x, cmds.len() as int);
    assert(cmds.push(x)[cmds.len() as int] == x);
}

proof fn lemma_recorded_entry(data: GameData, v: CombatView, command: CombatCommand)
    requires
        v.current_turn() is Some,
        combat_wf(v),
    ensures
        spec_player_action(data, v, command).0.command_history == v.command_history.push(
            (spec_recorded_command(command), spec_combat_digest(spec_player_action(data, v, command).0))),
{
    let t = v.current_turn().unwrap();
    let pre = if t.side != CombatSide::Ally {
        spec_advance(v, ADVANCE_BEATS as nat)
    } else {
        settle(spec_command_step(data, v, command, t.slot as int).0)
    };
    assert(spec_player_action(data, v, command).0 == recorded(pre, spec_recorded_command(command)));
    lemma_digest_follows_fight(pre, recorded(pre, spec_recorded_command(command)));
    lemma_history_kept(data, v, command, pre);
}

proof fn lemma_history_kept(data: GameData, v: CombatView, command: CombatCommand, pre: CombatView)
    requires
        v.current_turn() is Some,
        pre == (if v.current_turn().unwrap().side != CombatSide::Ally {
            spec_advance(v, ADVANCE_BEATS as nat)
        } else {
            settle(spec_command_step(data, v, command, v.current_turn().unwrap().slot as int).0)
        }),
        combat_wf(v),
    ensures
        pre.command_history == v.command_history,
{
    let t = v.current_turn().unwrap();
    assert(turn_fits(v.turn_order[v.turn_index as int], v.allies.len() as int, v.enemies.len() as int));
    if t.side != CombatSide::Ally {
        lemma_advance_wf(v, ADVANCE_BEATS as nat);
    } else {
        lemma_ally_frames(data, v, t.slot as int);
        let acted = spec_command_step(data, v, command, t.slot as int).0;
        if acted.outcome is None {
            lemma_advance_turn_wf(acted);
            lemma_advance_wf(spec_advance_turn(acted), ADVANCE_BEATS as nat);
        }
    }
}

proof fn lemma_replay_shape(data: GameData, v: CombatView, command: CombatCommand)
    requires
        combat_wf(v),
    ensures
        combat_wf(spec_player_action(data, v, command).0),
{
    match v.current_turn() {
        None => {},
        Some(t) => {
            assert(turn_fits(v.turn_order[v.turn_index as int], v.allies.len() as int, v.enemies.len() as int));
            if t.side != CombatSide::Ally {
                lemma_advance_wf(v, ADVANCE_BEATS as nat);
            } else {
                lemma_ally_frames(data, v, t.slot as int);
                let acted = spec_command_step(data, v, command, t.slot as int).0;
                if acted.outcome is None {
                    lemma_advance_turn_wf(acted);
                    lemma_advance_wf(spec_advance_turn(acted), ADVANCE_BEATS as nat);
                }
            }
        },
    }
}

proof fn lemma_item_record(v: CombatView, slot: int)
    requires
        combat_wf(v),
        0 <= slot < v.allies.len(),
    ensures
        keeps_record(v, spec_use_item(v, slot)),
        combat_wf(spec_use_item(v, slot)),
        spec_use_item(v, slot).command_history == v.command_history.push(
            (CombatReplayCommand::Item, spec_combat_digest(spec_use_item(v, slot)))),
{
    let a = v.allies[slot];
    let healed = crate::state::combat::Combatant { hp: min_int(clamp_i32(a.hp + 10), a.max_hp as int) as i32, ..a };
    let acted = CombatView { allies: v.allies.update(slot, healed), log: v.log.push(item_line(a.name@)), ..v };
    assert(turns_ok(acted)) by {
        assert forall|i: int| 0 <= i < acted.turn_order.len() implies #[trigger] turn_fits(acted.turn_order[i], acted.allies.len() as int, acted.enemies.len() as int) by {
            assert(turn_fits(v.turn_order[i], v.allies.len() as int, v.enemies.len() as int));
        }
    }
    lemma_advance_turn_wf(acted);
    lemma_advance_wf(spec_advance_turn(acted), ADVANCE_BEATS as nat);
    lemma_round_kept(spec_advance_turn(acted), ADVANCE_BEATS as nat);
    let pre = spec_advance(spec_advance_turn(acted), ADVANCE_BEATS as nat);
    lemma_digest_follows_fight(pre, recorded(pre, CombatReplayCommand::Item));
}

/// Dressing wounds with herbs on an allied turn keeps a faithful record
/// faithful, one herb lighter.
pub proof fn law_item_keeps_replay(data: GameData, v: CombatView, herbs: int, h0: int)
    requires
        replay_faithful(data, v, herbs, h0),
        combat_wf(v),
        v.replay_turn_order.len() > 0,
        v.current_turn() matches Some(t) && t.side == CombatSide::Ally,
        herbs > 0,
    ensures
        replay_faithful(data, spec_use_item(v, v.current_turn().unwrap().slot as int), herbs - 1, h0),
{
    let t = v.current_turn().unwrap();
    let slot = t.slot as int;
    assert(turn_fits(v.turn_order[v.turn_index as int], v.allies.len() as int, v.enemies.len() as int));
    let w = spec_use_item(v, slot);
    lemma_item_record(v, slot);
    let cmds = v.command_history;
    let n = cmds.len() as int;
    let start = replay_start(v);
    let t0 = replay_trace(data, start, h0, cmds, n);
    lemma_item_follows_fight(t0.0, v, slot);
    lemma_start_kept(v, w);
    let x = (CombatReplayCommand::Item, spec_combat_digest(w));
    lemma_trace_extend(data, start, h0, cmds, x);
    assert(t0.0.current_turn() == Some(t));
    assert(replay_trace(data, start, h0, w.command_history, n + 1) == (spec_use_item(t0.0, slot), herbs - 1));
    lemma_digest_follows_fight(replay_trace(data, start, h0, w.command_history, n + 1).0, w);
    assert forall|j: int| 0 <= j < w.command_history.len() implies #[trigger] step_matches(data, replay_start(w), h0, w.command_history, j) by {
        if j < n {
            lemma_trace_prefix(data, start, h0, cmds, x, j + 1);
            assert(step_matches(data, start, h0, cmds, j));
        }
    }
}

/// A faithful record replayed from the starting herb supply meets every
/// recorded digest and ends with the recorded outcome.
pub proof fn law_faithful_replay_reproduces(data: GameData, v: CombatView, herbs: int, h0: int)
    requires
        replay_faithful(data, v, herbs, h0),
    ensures
        forall|j: int| 0 <= j < v.command_history.len() ==> #[trigger] step_matches(data, replay_start(v), h0, v.command_history, j),
        replay_trace(data, replay_start(v), h0, v.command_history, v.command_history.len() as int).0.outcome == v.outcome,
{
}

/// The replay of a faithful record, taken from the starting herb supply,
/// reports a match: `run` can report nothing else.
pub proof fn law_faithful_replay_matches(data: GameData, v: CombatView, herbs: int, replay: CombatReplay, r: ReplayReport)
    requires
        replay_faithful(data, v, herbs, starting_amount(data, "herbs"@)),
        replay.start_view() == replay_start(v),
        command_view(replay.commands@) == v.command_history,
        replay.expected_outcome == v.outcome,
        replay.reports(data, r),
    ensures
        r == ReplayReport::Match,
{
    law_faithful_replay_reproduces(data, v, herbs, starting_amount(data, "herbs"@));
    let cmds = v.command_history;
    match r {
        ReplayReport::Mismatch { command_index, expected, actual } => {
            assert(step_matches(data, replay_start(v), starting_amount(data, "herbs"@), cmds, command_index as int));
        },
        ReplayReport::OutcomeMismatch { expected, actual } => {},
        ReplayReport::Match => {},
    }
}

} // verus!
