//! Starting an encounter, the party's commands, and settling the outcome.
//! Every command that moves a fight on is recorded with a digest of the
//! encounter after it, so the fight can be replayed and checked.

use vstd::prelude::*;
use crate::arith::{clamp_i32, max_int, min_int};
use crate::data::game_data::GameData;
use crate::engine::combat_actions::{
    spec_ally_attack, spec_ally_skill, spec_defend, spec_flee_chance, spec_flee_roll, spec_advance,
    ally_attack, ally_skill, defend, flee_chance, flee_succeeds, advance_to_player_or_outcome, ADVANCE_BEATS,
};
use crate::engine::combat_frame::{combat_wf, same_frame, lemma_ally_frames, lemma_advance_wf, lemma_advance_turn_wf, lemma_rebuild_wf};
use crate::engine::combat_rules::{spec_advance_turn, spec_rebuild, advance_turn, rebuild_turn_order};
use crate::engine::combat_support::{
    spec_build_allies, spec_build_enemies, spec_combined_rewards, xp_total, spec_victory_rewards,
    spec_reward_text, sync_all, award_upto, spec_floor_reached, spec_boss_egg, build_allies, build_enemies,
    combined_rewards, encounter_xp, victory_rewards, reward_text, sync_allies, award_xp,
    record_floor_reached, add_boss_egg,
};
use crate::engine::monster_engine::{spec_add_fatigue, spec_add_injury, add_fatigue, add_injury};
use crate::engine::tower_engine::{returned_home, return_line, return_to_town};
use crate::state::combat::{
    CombatHistoryStep, CombatOutcome, CombatReplayCommand, CombatSide, CombatState, CombatView, Combatant,
    duplicate_all, duplicate_turns,
};
use crate::state::game::GameState;
use crate::state::keyed::first_numbered;
use crate::state::records::ActivityEntry;
use crate::state::resources::{stack_view, add_stacks_view};
use crate::state::roster::{MonsterInstance, MonsterRoster};
use crate::state::tower_run::TowerRunState;
use crate::text::{decimal, decimal_text, signed_decimal, signed_text};

verus! {

#[derive(Clone, Copy, Debug, PartialEq, Eq, Structural)]
pub enum CombatCommand {
    Attack,
    Skill,
    Defend,
    Item,
    Flee,
}

#[derive(Clone, Copy, Debug, PartialEq, Eq, Structural)]
pub enum CombatDestination {
    Combat,
    Tower,
    Town,
}

pub struct CombatResult {
    pub summary: String,
}

pub struct CombatFinish {
    pub summary: String,
    pub destination: CombatDestination,
}

pub open spec fn spec_recorded_command(c: CombatCommand) -> CombatReplayCommand {
    match c {
        CombatCommand::Attack => CombatReplayCommand::Attack,
        CombatCommand::Skill => CombatReplayCommand::Skill,
        CombatCommand::Defend => CombatReplayCommand::Defend,
        CombatCommand::Item => CombatReplayCommand::Item,
        CombatCommand::Flee => CombatReplayCommand::Flee,
    }
}

pub fn recorded_command(c: CombatCommand) -> (r: CombatReplayCommand)
    ensures
        r == spec_recorded_command(c),
{
    match c {
        CombatCommand::Attack => CombatReplayCommand::Attack,
        CombatCommand::Skill => CombatReplayCommand::Skill,
        CombatCommand::Defend => CombatReplayCommand::Defend,
        CombatCommand::Item => CombatReplayCommand::Item,
        CombatCommand::Flee => CombatReplayCommand::Flee,
    }
}

pub open spec fn spec_player_command(c: CombatReplayCommand) -> CombatCommand {
    match c {
        CombatReplayCommand::Attack => CombatCommand::Attack,
        CombatReplayCommand::Skill => CombatCommand::Skill,
        CombatReplayCommand::Defend => CombatCommand::Defend,
        CombatReplayCommand::Item => CombatCommand::Item,
        CombatReplayCommand::Flee => CombatCommand::Flee,
    }
}

pub fn player_command(c: CombatReplayCommand) -> (r: CombatCommand)
    ensures
        r == spec_player_command(c),
{
    match c {
        CombatReplayCommand::Attack => CombatCommand::Attack,
        CombatReplayCommand::Skill => CombatCommand::Skill,
        CombatReplayCommand::Defend => CombatCommand::Defend,
        CombatReplayCommand::Item => CombatCommand::Item,
        CombatReplayCommand::Flee => CombatCommand::Flee,
    }
}

// ---------------------------------------------------------------- digest

pub open spec fn outcome_code(o: Option<CombatOutcome>) -> Seq<char> {
    match o {
        None => "-"@,
        Some(CombatOutcome::Victory) => "V"@,
        Some(CombatOutcome::Defeat) => "D"@,
        Some(CombatOutcome::Fled) => "F"@,
    }
}

/// Each unit's hit points followed by a comma.
pub open spec fn hp_list(us: Seq<Combatant>) -> Seq<char>
    decreases us.len(),
{
    if us.len() == 0 {
        Seq::empty()
    } else {
        hp_list(us.drop_last()) + signed_decimal(us.last().hp as int) + ","@
    }
}

/// The digest of an encounter: round, turn, outcome and every unit's hit points.
pub open spec fn spec_combat_digest(v: CombatView) -> Seq<char> {
    "r"@ + decimal(v.round as nat) + ":t"@ + decimal(v.turn_index as nat) + ":"@ + outcome_code(v.outcome)
        + "|"@ + hp_list(v.allies) + "|"@ + hp_list(v.enemies)
}

fn append_hp_list(s: &mut String, us: &Vec<Combatant>)
    ensures
        final(s)@ == old(s)@ + hp_list(us@),
{
    let ghost start = s@;
    let mut i: usize = 0;
    while i < us.len()
        invariant
            i <= us@.len(),
            s@ == start + hp_list(us@.take(i as int)),
        decreases us.len() - i,
    {
        assert(us@.take(i as int + 1).drop_last() =~= us@.take(i as int));
        let n = signed_text(us[i].hp as i64);
        s.append(n.as_str());
        s.append(",");
        i += 1;
    }
    assert(us@.take(us@.len() as int) =~= us@);
}

pub fn combat_digest(c: &CombatState) -> (s: String)
    ensures
        s@ == spec_combat_digest(c@),
{
    let mut s = String::from_str("r");
    let r = decimal_text(c.round as u64);
    s.append(r.as_str());
    s.append(":t");
    let t = decimal_text(c.turn_index as u64);
    s.append(t.as_str());
    s.append(":");
    match c.outcome {
        None => s.append("-"),
        Some(CombatOutcome::Victory) => s.append("V"),
        Some(CombatOutcome::Defeat) => s.append("D"),
        Some(CombatOutcome::Fled) => s.append("F"),
    }
    s.append("|");
    append_hp_list(&mut s, &c.allies);
    s.append("|");
    append_hp_list(&mut s, &c.enemies);
    s
}

/// The encounter with `command` and its digest added to the history.
pub open spec fn recorded(v: CombatView, command: CombatReplayCommand) -> CombatView {
    CombatView { command_history: v.command_history.push((command, spec_combat_digest(v))), ..v }
}

fn record(c: &mut CombatState, command: CombatReplayCommand)
    ensures
        final(c)@ == recorded(old(c)@, command),
{
    let digest = combat_digest(c);
    let ghost before = c.command_history@;
    c.command_history.push(CombatHistoryStep { command, digest });
    proof {
        assert(c.command_history@.map_values(|h: CombatHistoryStep| (h.command, h.digest@))
            =~= before.map_values(|h: CombatHistoryStep| (h.command, h.digest@)).push((command, spec_combat_digest(old(c)@))));
    }
}

// ---------------------------------------------------------------- starting

pub open spec fn start_line(floor: u32) -> Seq<char> {
    "Encounter started on floor "@ + decimal(floor as nat) + "."@
}

/// The seed recorded with an encounter.
pub open spec fn spec_encounter_seed(floor: u32, is_boss: bool) -> u64 {
    (0x5EED_C0B4_7000u64 ^ (floor as u64)) ^ (if is_boss { 0x8000_0000_0000_0000u64 } else { 0u64 })
}

/// A fresh encounter after the turn order is built and the enemies who are
/// faster than the whole party have acted; the replay record is taken there.
pub open spec fn spec_encounter(state: GameState, data: GameData, floor: u32, is_boss: bool, rewards: Seq<crate::state::resources::ResourceStack>) -> CombatView {
    let enemies = spec_build_enemies(data, floor, is_boss);
    let opened = CombatView {
        floor,
        round: 1,
        turn_index: 0,
        turn_order: Seq::empty(),
        allies: spec_build_allies(state),
        enemies,
        rewards,
        xp_reward: min_int(xp_total(data, enemies), u32::MAX as int) as u32,
        log: seq![start_line(floor)],
        outcome: None,
        is_boss,
        rng_seed: spec_encounter_seed(floor, is_boss),
        replay_roster: Seq::empty(),
        replay_enemies: Seq::empty(),
        replay_turn_order: Seq::empty(),
        replay_round: 1,
        replay_turn_index: 0,
        command_history: Seq::empty(),
    };
    let ready = spec_advance(spec_rebuild(opened), ADVANCE_BEATS as nat);
    CombatView {
        replay_roster: ready.allies,
        replay_enemies: ready.enemies,
        replay_turn_order: ready.turn_order,
        replay_round: ready.round,
        replay_turn_index: ready.turn_index,
        ..ready
    }
}

pub open spec fn no_enemy_line(floor: u32) -> Seq<char> {
    "No enemy data is available for floor "@ + decimal(floor as nat) + "."@
}

/// Starts an encounter on `floor` with the party's fighters against the floor's enemies.
pub fn start_encounter(state: &mut GameState, data: &GameData, floor: u32, is_boss: bool) -> (r: CombatResult)
    ensures
        old(state).combat is Some ==> *final(state) == *old(state) && r.summary@ == "A combat encounter is already active."@,
        old(state).combat is None && spec_build_allies(*old(state)).len() == 0 ==> *final(state) == (GameState { tower_run: None, ..*old(state) })
            && r.summary@ == "No battle-ready monsters remain. The party retreats to town."@,
        old(state).combat is None && spec_build_allies(*old(state)).len() > 0 && spec_build_enemies(*data, floor, is_boss).len() == 0
            ==> *final(state) == *old(state) && r.summary@ == no_enemy_line(floor),
        old(state).combat is None && spec_build_allies(*old(state)).len() > 0 && spec_build_enemies(*data, floor, is_boss).len() > 0 ==> {
            &&& *final(state) == (GameState { combat: final(state).combat, ..*old(state) })
            &&& final(state).combat matches Some(c) && c@ == spec_encounter(*old(state), *data, floor, is_boss, c@.rewards)
                && stack_view(c@.rewards) == spec_combined_rewards(*data, spec_build_enemies(*data, floor, is_boss))
            &&& r.summary@ == if is_boss { "Boss combat started."@ } else { "Enemy combat started."@ }
        },
        final(state).combat matches Some(c) ==> old(state).combat is Some || combat_wf(c@),
{
    if state.combat.is_some() {
        return CombatResult { summary: String::from_str("A combat encounter is already active.") };
    }
    let allies = build_allies(state);
    if allies.len() == 0 {
        state.tower_run = None;
        return CombatResult { summary: String::from_str("No battle-ready monsters remain. The party retreats to town.") };
    }
    let enemies = build_enemies(data, floor, is_boss);
    if enemies.len() == 0 {
        let mut s = String::from_str("No enemy data is available for floor ");
        let f = decimal_text(floor as u64);
        s.append(f.as_str());
        s.append(".");
        return CombatResult { summary: s };
    }
    let rewards = combined_rewards(data, &enemies);
    let xp_reward = encounter_xp(data, &enemies);
    let seed: u64 = (0x5EED_C0B4_7000u64 ^ (floor as u64)) ^ (if is_boss { 0x8000_0000_0000_0000u64 } else { 0u64 });
    let mut combat = CombatState {
        floor,
        round: 1,
        turn_index: 0,
        turn_order: Vec::new(),
        allies,
        enemies,
        rewards,
        xp_reward,
        log: Vec::new(),
        outcome: None,
        is_boss,
        rng_seed: seed,
        replay_roster: Vec::new(),
        replay_enemies: Vec::new(),
        replay_turn_order: Vec::new(),
        replay_round: 1,
        replay_turn_index: 0,
        command_history: Vec::new(),
    };
    let mut line = String::from_str("Encounter started on floor ");
    let f = decimal_text(floor as u64);
    line.append(f.as_str());
    line.append(".");
    combat.add_log(line);
    proof {
        assert(combat@.log =~= seq![start_line(floor)]);
        assert(combat@.command_history =~= Seq::<(CombatReplayCommand, Seq<char>)>::empty());
        assert(crate::engine::combat_frame::turns_ok(combat@));
    }
    let ghost opened = combat@;
    rebuild_turn_order(&mut combat);
    advance_to_player_or_outcome(&mut combat);
    proof {
        lemma_rebuild_wf(opened);
        lemma_advance_wf(spec_rebuild(opened), ADVANCE_BEATS as nat);
    }
    combat.replay_roster = duplicate_all(&combat.allies);
    combat.replay_enemies = duplicate_all(&combat.enemies);
    combat.replay_turn_order = duplicate_turns(&combat.turn_order);
    combat.replay_round = combat.round;
    combat.replay_turn_index = combat.turn_index;
    proof {
        let ready = spec_advance(spec_rebuild(opened), ADVANCE_BEATS as nat);
        assert(combat@.rewards == opened.rewards);
        assert(combat@ == (CombatView {
            replay_roster: ready.allies,
            replay_enemies: ready.enemies,
            replay_turn_order: ready.turn_order,
            replay_round: ready.round,
            replay_turn_index: ready.turn_index,
            ..ready
        }));
    }
    let summary = if is_boss { String::from_str("Boss combat started.") } else { String::from_str("Enemy combat started.") };
    state.combat = Some(combat);
    CombatResult { summary }
}

// ---------------------------------------------------------------- commands

pub open spec fn flee_ok_line(chance: int) -> Seq<char> {
    "The party breaks away from the fight ("@ + signed_decimal(chance) + "%)."@
}

pub open spec fn flee_fail_line(chance: int) -> Seq<char> {
    "Escape failed despite a "@ + signed_decimal(chance) + "% chance."@
}

/// An attempt to flee: it works when the roll falls under the chance.
pub open spec fn spec_flee(v: CombatView) -> (CombatView, Seq<char>) {
    let chance = spec_flee_chance(v);
    if spec_flee_roll(v) < chance {
        (CombatView { outcome: Some(CombatOutcome::Fled), log: v.log.push(flee_ok_line(chance)), ..v }, "The party flees toward town."@)
    } else {
        (CombatView { log: v.log.push(flee_fail_line(chance)), ..v }, "The party fails to find an escape route."@)
    }
}

/// What the acting ally does for each command other than using an item.
pub open spec fn spec_command_step(data: GameData, v: CombatView, command: CombatCommand, slot: int) -> (CombatView, Seq<char>) {
    match command {
        CombatCommand::Attack => spec_ally_attack(v, slot),
        CombatCommand::Skill => spec_ally_skill(data, v, slot),
        CombatCommand::Defend => spec_defend(v, slot),
        _ => spec_flee(v),
    }
}

/// After an ally acts in an unsettled fight, the turn passes and enemies act
/// until the party is up again.
pub open spec fn settle(v: CombatView) -> CombatView {
    if v.outcome is None { spec_advance(spec_advance_turn(v), ADVANCE_BEATS as nat) } else { v }
}

/// One command in an unresolved fight (not an item), recorded in the history.
pub open spec fn spec_player_action(data: GameData, v: CombatView, command: CombatCommand) -> (CombatView, Seq<char>) {
    match v.current_turn() {
        None => (v, "Combat turn order is empty."@),
        Some(t) => if t.side != CombatSide::Ally {
            (recorded(spec_advance(v, ADVANCE_BEATS as nat), spec_recorded_command(command)), "Enemies moved before the party could act."@)
        } else {
            let (acted, line) = spec_command_step(data, v, command, t.slot as int);
            (recorded(settle(acted), spec_recorded_command(command)), line)
        },
    }
}

pub open spec fn item_line(name: Seq<char>) -> Seq<char> {
    name + " uses herbs and recovers 10 HP."@
}

/// The acting ally dresses its wounds with herbs (10 HP), then the turn passes.
pub open spec fn spec_use_item(v: CombatView, slot: int) -> CombatView {
    let a = v.allies[slot];
    let healed = Combatant { hp: min_int(clamp_i32(a.hp + 10), a.max_hp as int) as i32, ..a };
    let acted = CombatView { allies: v.allies.update(slot, healed), log: v.log.push(item_line(a.name@)), ..v };
    recorded(spec_advance(spec_advance_turn(acted), ADVANCE_BEATS as nat), CombatReplayCommand::Item)
}

/// Whether an item can be used: a fight, a turn, an allied turn, and herbs in store.
pub open spec fn item_refusal(state: GameState) -> Option<Seq<char>> {
    match state.combat {
        None => Some("No combat encounter is active."@),
        Some(c) => match c@.current_turn() {
            None => Some("Combat turn order is empty."@),
            Some(t) => if t.side != CombatSide::Ally {
                Some("Items can only be used on an allied turn."@)
            } else if state.resources.spec_amount("herbs"@) <= 0 {
                Some("No herbs are available for a field dressing."@)
            } else {
                None
            },
        },
    }
}

fn use_item(state: &mut GameState) -> (r: CombatResult)
    requires
        old(state).combat matches Some(c) ==> combat_wf(c@),
    ensures
        final(state).combat matches Some(c) ==> combat_wf(c@),
        match item_refusal(*old(state)) {
            Some(text) => *final(state) == *old(state) && r.summary@ == text,
            None => {
                let c = old(state).combat.unwrap();
                let slot = c@.current_turn().unwrap().slot as int;
                &&& final(state).combat matches Some(c2) && c2@ == spec_use_item(c@, slot)
                &&& *final(state) == (GameState { combat: final(state).combat, resources: final(state).resources, ..*old(state) })
                &&& forall|k: Seq<char>| #[trigger] final(state).resources.spec_amount(k)
                    == if k == "herbs"@ { old(state).resources.spec_amount(k) - 1 } else { old(state).resources.spec_amount(k) }
                &&& r.summary@ == item_line(c@.allies[slot].name@)
            },
        },
{
    let turn = match &state.combat {
        None => {
            return CombatResult { summary: String::from_str("No combat encounter is active.") };
        },
        Some(c) => match c.current_turn() {
            None => {
                return CombatResult { summary: String::from_str("Combat turn order is empty.") };
            },
            Some(t) => t,
        },
    };
    if turn.side != CombatSide::Ally {
        return CombatResult { summary: String::from_str("Items can only be used on an allied turn.") };
    }
    proof { reveal_strlit("herbs"); }
    if state.resources.amount("herbs") <= 0 {
        return CombatResult { summary: String::from_str("No herbs are available for a field dressing.") };
    }
    state.resources.add("herbs", -1);
    let mut combat = state.combat.take().unwrap();
    let ghost v = combat@;
    proof {
        assert(crate::engine::combat_frame::turn_fits(v.turn_order[v.turn_index as int], v.allies.len() as int, v.enemies.len() as int));
    }
    let slot = turn.slot;
    let a = combat.allies[slot].duplicate();
    let raised = crate::arith::sat_add_i32(a.hp, 10);
    let hp = if raised < a.max_hp { raised } else { a.max_hp };
    let mut line = a.name.clone();
    line.append(" uses herbs and recovers 10 HP.");
    combat.allies.set(slot, Combatant { hp, ..a });
    let summary = line.clone();
    combat.add_log(line);
    let ghost acted = combat@;
    proof {
        assert(same_frame(v, acted));
        lemma_advance_turn_wf(acted);
        lemma_advance_wf(spec_advance_turn(acted), ADVANCE_BEATS as nat);
    }
    advance_turn(&mut combat);
    advance_to_player_or_outcome(&mut combat);
    record(&mut combat, CombatReplayCommand::Item);
    state.combat = Some(combat);
    CombatResult { summary }
}

/// One party command. Items are handled on their own; every other command
/// needs an unresolved fight whose current turn belongs to the party.
pub fn player_action(state: &mut GameState, data: &GameData, command: CombatCommand) -> (r: CombatResult)
    requires
        old(state).combat matches Some(c) ==> combat_wf(c@),
    ensures
        final(state).combat matches Some(c) ==> combat_wf(c@),
        command == CombatCommand::Item ==> match item_refusal(*old(state)) {
            Some(text) => *final(state) == *old(state) && r.summary@ == text,
            None => {
                let c = old(state).combat.unwrap();
                let slot = c@.current_turn().unwrap().slot as int;
                &&& final(state).combat matches Some(c2) && c2@ == spec_use_item(c@, slot)
                &&& *final(state) == (GameState { combat: final(state).combat, resources: final(state).resources, ..*old(state) })
                &&& forall|k: Seq<char>| #[trigger] final(state).resources.spec_amount(k)
                    == if k == "herbs"@ { old(state).resources.spec_amount(k) - 1 } else { old(state).resources.spec_amount(k) }
                &&& r.summary@ == item_line(c@.allies[slot].name@)
            },
        },
        command != CombatCommand::Item ==> match old(state).combat {
            None => *final(state) == *old(state) && r.summary@ == "No combat encounter is active."@,
            Some(c) => if c.outcome is Some {
                *final(state) == *old(state) && r.summary@ == "The encounter is already resolved."@
            } else {
                &&& *final(state) == (GameState { combat: final(state).combat, ..*old(state) })
                &&& final(state).combat matches Some(c2) && c2@ == spec_player_action(*data, c@, command).0
                &&& r.summary@ == spec_player_action(*data, c@, command).1
            },
        },
{
    if command == CombatCommand::Item {
        return use_item(state);
    }
    let mut combat = match state.combat.take() {
        None => {
            return CombatResult { summary: String::from_str("No combat encounter is active.") };
        },
        Some(c) => c,
    };
    if combat.outcome.is_some() {
        state.combat = Some(combat);
        return CombatResult { summary: String::from_str("The encounter is already resolved.") };
    }
    let ghost v = combat@;
    let turn = match combat.current_turn() {
        None => {
            state.combat = Some(combat);
            return CombatResult { summary: String::from_str("Combat turn order is empty.") };
        },
        Some(t) => t,
    };
    let recorded_as = recorded_command(command);
    if turn.side != CombatSide::Ally {
        proof { lemma_advance_wf(v, ADVANCE_BEATS as nat); }
        advance_to_player_or_outcome(&mut combat);
        record(&mut combat, recorded_as);
        state.combat = Some(combat);
        return CombatResult { summary: String::from_str("Enemies moved before the party could act.") };
    }
    proof {
        assert(crate::engine::combat_frame::turn_fits(v.turn_order[v.turn_index as int], v.allies.len() as int, v.enemies.len() as int));
        lemma_ally_frames(*data, v, turn.slot as int);
    }
    let summary = match command {
        CombatCommand::Attack => ally_attack(&mut combat, turn.slot),
        CombatCommand::Skill => ally_skill(&mut combat, data, turn.slot),
        CombatCommand::Defend => defend(&mut combat, turn.slot),
        _ => {
            let chance = flee_chance(&combat);
            let n = signed_text(chance as i64);
            if flee_succeeds(&combat) {
                combat.outcome = Some(CombatOutcome::Fled);
                let mut line = String::from_str("The party breaks away from the fight (");
                line.append(n.as_str());
                line.append("%).");
                combat.add_log(line);
                String::from_str("The party flees toward town.")
            } else {
                let mut line = String::from_str("Escape failed despite a ");
                line.append(n.as_str());
                line.append("% chance.");
                combat.add_log(line);
                String::from_str("The party fails to find an escape route.")
            }
        },
    };
    let ghost acted = combat@;
    assert(acted == spec_command_step(*data, v, command, turn.slot as int).0);
    if combat.outcome.is_none() {
        proof {
            lemma_advance_turn_wf(acted);
            lemma_advance_wf(spec_advance_turn(acted), ADVANCE_BEATS as nat);
        }
        advance_turn(&mut combat);
        advance_to_player_or_outcome(&mut combat);
    }
    record(&mut combat, recorded_as);
    state.combat = Some(combat);
    CombatResult { summary }
}

// ---------------------------------------------------------------- settling

/// `f` applied to the monster behind combatant `a`, if it is still in the roster.
pub open spec fn strain_one(ms: Seq<MonsterInstance>, a: Combatant, f: spec_fn(Combatant, MonsterInstance) -> MonsterInstance) -> Seq<MonsterInstance> {
    match a.monster_id {
        Some(id) => match first_numbered(ms, id) {
            Some(i) => ms.update(i, f(a, ms[i])),
            None => ms,
        },
        None => ms,
    }
}

pub open spec fn strain_all(ms: Seq<MonsterInstance>, allies: Seq<Combatant>, f: spec_fn(Combatant, MonsterInstance) -> MonsterInstance) -> Seq<MonsterInstance>
    decreases allies.len(),
{
    if allies.len() == 0 {
        ms
    } else {
        strain_one(strain_all(ms, allies.drop_last(), f), allies.last(), f)
    }
}

/// After a win, fallen fighters are injured for a day and the others tire.
pub open spec fn victory_strain() -> spec_fn(Combatant, MonsterInstance) -> MonsterInstance {
    |a: Combatant, m: MonsterInstance| if a.hp <= 0 { spec_add_injury(m, 1) } else { spec_add_fatigue(m, 1) }
}

/// After fleeing, every fighter tires.
pub open spec fn flee_strain() -> spec_fn(Combatant, MonsterInstance) -> MonsterInstance {
    |a: Combatant, m: MonsterInstance| spec_add_fatigue(m, 1)
}

/// After a defeat, every fighter is carried back at 1 HP, injured for two days, and tires.
pub open spec fn defeat_strain() -> spec_fn(Combatant, MonsterInstance) -> MonsterInstance {
    |a: Combatant, m: MonsterInstance| spec_add_fatigue(spec_add_injury(MonsterInstance { hp: 1, ..m }, 2), 1)
}

/// What a settled fight leaves on each fighter: after a win a fallen one is
/// injured for at least a day and tires by two, a standing one tires by
/// one; after fleeing each tires by one; after a defeat each is carried
/// back at 1 HP, injured for at least two days, and tires by three. Fatigue
/// never passes six.
pub proof fn law_combat_strain(a: Combatant, m: MonsterInstance)
    ensures
        ({
            let w = (victory_strain())(a, m);
            &&& a.hp <= 0 ==> w.condition.injury_days == max_int(m.condition.injury_days as int, 1)
                && w.condition.fatigue == min_int(m.condition.fatigue + 2, 6)
            &&& a.hp > 0 ==> w.condition.injury_days == m.condition.injury_days
                && w.condition.fatigue == min_int(m.condition.fatigue + 1, 6) && w.hp == m.hp
        }),
        ({
            let f = (flee_strain())(a, m);
            &&& f.condition.fatigue == min_int(m.condition.fatigue + 1, 6)
            &&& f.condition.injury_days == m.condition.injury_days
            &&& f.hp == m.hp
        }),
        ({
            let d = (defeat_strain())(a, m);
            &&& d.hp == 1
            &&& d.condition.injury_days == max_int(m.condition.injury_days as int, 2)
            &&& d.condition.fatigue == min_int(m.condition.fatigue + 3, 6)
        }),
{
}

/// The escape roll runs from 0 to 99, and fleeing works exactly when it
/// falls under the chance.
pub proof fn law_flee_roll(v: CombatView)
    ensures
        0 <= spec_flee_roll(v) < 100,
        (spec_flee(v).0.outcome == Some(CombatOutcome::Fled)) == (spec_flee_roll(v) < spec_flee_chance(v)) || v.outcome == Some(CombatOutcome::Fled),
        spec_flee_roll(v) >= spec_flee_chance(v) ==> spec_flee(v).0.outcome == v.outcome && spec_flee(v).0.allies == v.allies,
{
}

#[derive(Clone, Copy, PartialEq, Eq, Structural)]
enum Strain {
    Won,
    Fled,
    Lost,
}

spec fn strain_of(k: Strain) -> spec_fn(Combatant, MonsterInstance) -> MonsterInstance {
    match k {
        Strain::Won => victory_strain(),
        Strain::Fled => flee_strain(),
        Strain::Lost => defeat_strain(),
    }
}

fn apply_strain(state: &mut GameState, allies: &Vec<Combatant>, k: Strain)
    ensures
        *final(state) == (GameState {
            monster_roster: MonsterRoster { monsters: final(state).monster_roster.monsters, ..old(state).monster_roster },
            ..*old(state)
        }),
        final(state).monster_roster.monsters@ == strain_all(old(state).monster_roster.monsters@, allies@, strain_of(k)),
{
    let ghost initial = *state;
    let mut i: usize = 0;
    while i < allies.len()
        invariant
            i <= allies@.len(),
            *state == (GameState {
                monster_roster: MonsterRoster { monsters: state.monster_roster.monsters, ..initial.monster_roster },
                ..initial
            }),
            state.monster_roster.monsters@ == strain_all(initial.monster_roster.monsters@, allies@.take(i as int), strain_of(k)),
        decreases allies.len() - i,
    {
        assert(allies@.take(i as int + 1).drop_last() =~= allies@.take(i as int));
        let a = &allies[i];
        match a.monster_id {
            Some(id) => match state.monster_roster.position(id) {
                Some(p) => {
                    let mut m = state.monster_roster.monsters[p].duplicate();
                    match k {
                        Strain::Won => {
                            if a.hp <= 0 {
                                add_injury(&mut m, 1);
                            } else {
                                add_fatigue(&mut m, 1);
                            }
                        },
                        Strain::Fled => {
                            add_fatigue(&mut m, 1);
                        },
                        Strain::Lost => {
                            m.hp = 1;
                            add_injury(&mut m, 2);
                            add_fatigue(&mut m, 1);
                        },
                    }
                    state.monster_roster.monsters.set(p, m);
                },
                None => {},
            },
            None => {},
        }
        i += 1;
    }
    assert(allies@.take(allies@.len() as int) =~= allies@);
}

pub open spec fn won_line(floor: u32) -> Seq<char> {
    "Won combat on floor "@ + decimal(floor as nat) + "."@
}

pub open spec fn victory_line(data: GameData, c: CombatView) -> Seq<char> {
    "Victory on floor "@ + decimal(c.floor as nat) + ". Gained "@ + decimal(c.xp_reward as nat) + " XP and "@
        + spec_reward_text(data, spec_victory_rewards(c)) + ". The party gains expedition strain."@
}

/// The roster after a win: hit points synced, experience awarded, strain applied.
pub open spec fn victory_roster(s0: GameState, c: CombatView) -> Seq<MonsterInstance> {
    strain_all(
        award_upto(
            sync_all(s0.monster_roster.monsters@, c.allies),
            s0.monster_roster.party_slots@,
            s0.monster_roster.party_slots@.len() as int,
            c.xp_reward,
        ),
        c.allies,
        victory_strain(),
    )
}

/// A won fight settled: the roster is updated, the floor counts as reached,
/// and the loot goes to the run's cargo (with a guardian's egg after a boss)
/// or, outside a run, to the town's stores.
/// The log line when a floor's guardian falls.
pub open spec fn threshold_line() -> Seq<char> {
    "The guardian falls and the crown threshold opens."@
}

pub open spec fn victory_settled(s0: GameState, s1: GameState, data: GameData, c: CombatView, summary: String) -> bool {
    &&& s1 == (GameState {
        monster_roster: MonsterRoster { monsters: s1.monster_roster.monsters, ..s0.monster_roster },
        tower_progress: spec_floor_reached(s0.tower_progress, data, c.floor),
        tower_run: s1.tower_run,
        resources: s1.resources,
        activity_log: s1.activity_log,
        combat: None,
        ..s0
    })
    &&& s1.monster_roster.monsters@ == victory_roster(s0, c)
    &&& match s0.tower_run {
        Some(run) => s1.tower_run matches Some(r2)
            && r2 == (TowerRunState {
                cargo: r2.cargo,
                found_eggs: r2.found_eggs,
                event_log: r2.event_log,
                boss_defeated: run.boss_defeated || c.is_boss,
                ..run
            })
            && stack_view(r2.cargo@) == add_stacks_view(stack_view(run.cargo@), spec_victory_rewards(c))
            && r2.found_eggs@ == (if c.is_boss {
                match spec_boss_egg(data, c.floor) {
                    Some(e) => run.found_eggs@.push(e),
                    None => run.found_eggs@,
                }
            } else {
                run.found_eggs@
            })
            && r2.event_log@.len() == run.event_log@.len() + (if c.is_boss { 2int } else { 1int })
            && r2.event_log@.take(run.event_log@.len() as int) =~= run.event_log@
            && r2.event_log@[run.event_log@.len() as int]@ == won_line(c.floor)
            && (c.is_boss ==> r2.event_log@.last()@ == threshold_line())
            && s1.resources == s0.resources,
        None => s1.tower_run is None
            && stack_view(s1.resources.stacks@) == add_stacks_view(stack_view(s0.resources.stacks@), spec_victory_rewards(c)),
    }
    &&& summary@ == victory_line(data, c)
    &&& s1.activity_log.entries@ == s0.activity_log.entries@.push(ActivityEntry { day: s0.day, text: summary })
}

fn finish_victory(state: &mut GameState, data: &GameData, combat: CombatState) -> (r: CombatFinish)
    requires
        old(state).combat is None,
    ensures
        victory_settled(*old(state), *final(state), *data, combat@, r.summary),
        r.destination == CombatDestination::Tower,
{
    sync_allies(state, &combat);
    award_xp(state, combat.xp_reward);
    apply_strain(state, &combat.allies, Strain::Won);
    record_floor_reached(state, data, combat.floor);
    let rewards = victory_rewards(&combat);
    match state.tower_run.take() {
        Some(mut run) => {
            crate::state::resources::add_all_stacks(&mut run.cargo, &rewards);
            if combat.is_boss {
                add_boss_egg(&mut run, data, combat.floor);
            }
            let mut line = String::from_str("Won combat on floor ");
            let f = decimal_text(combat.floor as u64);
            line.append(f.as_str());
            line.append(".");
            let ghost log_before = run.event_log@;
            run.add_event(line);
            if combat.is_boss {
                run.boss_defeated = true;
                run.add_event(String::from_str("The guardian falls and the crown threshold opens."));
            }
            proof {
                assert(run.event_log@.take(log_before.len() as int) =~= log_before);
            }
            state.tower_run = Some(run);
        },
        None => {
            crate::state::resources::add_all_stacks(&mut state.resources.stacks, &rewards);
        },
    }
    let mut summary = String::from_str("Victory on floor ");
    let f = decimal_text(combat.floor as u64);
    summary.append(f.as_str());
    summary.append(". Gained ");
    let x = decimal_text(combat.xp_reward as u64);
    summary.append(x.as_str());
    summary.append(" XP and ");
    let t = reward_text(data, &rewards);
    summary.append(t.as_str());
    summary.append(". The party gains expedition strain.");
    state.activity_log.add(state.day, summary.clone());
    CombatFinish { summary, destination: CombatDestination::Tower }
}

pub open spec fn defeat_line(floor: u32) -> Seq<char> {
    "The party was defeated on floor "@ + decimal(floor as nat)
        + " and rescued back to town. Run cargo was lost, and the party needs recovery."@
}

/// A lost fight settled: fighters are hurt, the run and its cargo are lost.
pub open spec fn defeat_settled(s0: GameState, s1: GameState, c: CombatView, summary: String) -> bool {
    &&& s1 == (GameState {
        monster_roster: MonsterRoster { monsters: s1.monster_roster.monsters, ..s0.monster_roster },
        tower_run: None,
        activity_log: s1.activity_log,
        combat: None,
        ..s0
    })
    &&& s1.monster_roster.monsters@ == strain_all(s0.monster_roster.monsters@, c.allies, defeat_strain())
    &&& summary@ == defeat_line(c.floor)
    &&& s1.activity_log.entries@ == s0.activity_log.entries@.push(ActivityEntry { day: s0.day, text: summary })
}

fn finish_defeat(state: &mut GameState, combat: CombatState) -> (r: CombatFinish)
    requires
        old(state).combat is None,
    ensures
        defeat_settled(*old(state), *final(state), combat@, r.summary),
        r.destination == CombatDestination::Town,
{
    apply_strain(state, &combat.allies, Strain::Lost);
    state.tower_run = None;
    let mut summary = String::from_str("The party was defeated on floor ");
    let f = decimal_text(combat.floor as u64);
    summary.append(f.as_str());
    summary.append(" and rescued back to town. Run cargo was lost, and the party needs recovery.");
    state.activity_log.add(state.day, summary.clone());
    CombatFinish { summary, destination: CombatDestination::Town }
}

pub open spec fn flee_roster(s0: GameState, c: CombatView) -> Seq<MonsterInstance> {
    strain_all(sync_all(s0.monster_roster.monsters@, c.allies), c.allies, flee_strain())
}

/// A fled fight settled: fighters keep their hit points and tire; during a run
/// the party goes home with its cargo.
pub open spec fn flee_settled(s0: GameState, s1: GameState, data: GameData, c: CombatView, summary: String) -> bool {
    &&& s1.monster_roster == MonsterRoster { monsters: s1.monster_roster.monsters, ..s0.monster_roster }
    &&& s1.monster_roster.monsters@ == flee_roster(s0, c)
    &&& s1.combat is None
    &&& match s0.tower_run {
        Some(run) => {
            let n = s0.activity_log.entries@.len();
            &&& returned_home(s0, s1, data)
            &&& s1.activity_log.entries@.len() == n + 2
            &&& s1.activity_log.entries@.take(n as int) == s0.activity_log.entries@
            &&& s1.activity_log.entries@[n as int].day == s0.day
            &&& s1.activity_log.entries@[n as int].text@ == return_line(data, s0, run)
            &&& s1.activity_log.entries@[n as int + 1] == (ActivityEntry { day: s0.day, text: summary })
            &&& summary@ == "Fled combat. The party gains light strain. "@ + return_line(data, s0, run)
        },
        None => {
            &&& s1 == (GameState {
                monster_roster: s1.monster_roster,
                activity_log: s1.activity_log,
                combat: None,
                ..s0
            })
            &&& summary@ == "Fled combat and returned to town with light strain."@
            &&& s1.activity_log.entries@ == s0.activity_log.entries@.push(ActivityEntry { day: s0.day, text: summary })
        },
    }
}

fn finish_flee(state: &mut GameState, data: &GameData, combat: CombatState) -> (r: CombatFinish)
    requires
        old(state).combat is None,
    ensures
        flee_settled(*old(state), *final(state), *data, combat@, r.summary),
        r.destination == CombatDestination::Town,
{
    sync_allies(state, &combat);
    apply_strain(state, &combat.allies, Strain::Fled);
    let summary = if state.tower_run.is_some() {
        let home = return_to_town(state, data);
        proof {
            assert(returned_home(*old(state), *state, *data));
        }
        let mut s = String::from_str("Fled combat. The party gains light strain. ");
        s.append(home.summary.as_str());
        s
    } else {
        String::from_str("Fled combat and returned to town with light strain.")
    };
    state.activity_log.add(state.day, summary.clone());
    proof {
        let n = old(state).activity_log.entries@.len();
        if old(state).tower_run is Some {
            assert(state.activity_log.entries@.take(n as int) =~= old(state).activity_log.entries@);
        }
    }
    CombatFinish { summary, destination: CombatDestination::Town }
}

/// Settles a finished fight; a fight still underway stays as it is.
pub fn finish_combat(state: &mut GameState, data: &GameData) -> (r: CombatFinish)
    ensures
        match old(state).combat {
            None => *final(state) == *old(state) && r.summary@ == "No combat encounter is active."@
                && r.destination == CombatDestination::Town,
            Some(c) => {
                let s0 = GameState { combat: None, ..*old(state) };
                match c.outcome {
                    None => *final(state) == *old(state) && r.summary@ == "The fight is still underway."@
                        && r.destination == CombatDestination::Combat,
                    Some(CombatOutcome::Victory) => victory_settled(s0, *final(state), *data, c@, r.summary)
                        && r.destination == CombatDestination::Tower,
                    Some(CombatOutcome::Defeat) => defeat_settled(s0, *final(state), c@, r.summary)
                        && r.destination == CombatDestination::Town,
                    Some(CombatOutcome::Fled) => flee_settled(s0, *final(state), *data, c@, r.summary)
                        && r.destination == CombatDestination::Town,
                }
            },
        },
{
    let combat = match state.combat.take() {
        None => {
            return CombatFinish { summary: String::from_str("No combat encounter is active."), destination: CombatDestination::Town };
        },
        Some(c) => c,
    };
    match combat.outcome {
        Some(CombatOutcome::Victory) => finish_victory(state, data, combat),
        Some(CombatOutcome::Defeat) => finish_defeat(state, combat),
        Some(CombatOutcome::Fled) => finish_flee(state, data, combat),
        None => {
            state.combat = Some(combat);
            CombatFinish { summary: String::from_str("The fight is still underway."), destination: CombatDestination::Combat }
        },
    }
}

} // verus!
