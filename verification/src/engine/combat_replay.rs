//! Recording an encounter and replaying it command by command, checking each
//! step's digest and the final outcome.

use vstd::prelude::*;
use crate::data::game_data::{GameData, keys_unique};
use crate::engine::combat_engine::{
    CombatCommand, spec_player_command, player_command, spec_player_action, spec_use_item, spec_combat_digest,
    combat_digest, player_action,
};
use crate::engine::combat_frame::{combat_wf, order_in_range};
use crate::engine::replay_law::replay_start;
use crate::state::combat::{
    CombatHistoryStep, CombatOutcome, CombatReplayCommand, CombatSide, CombatState, CombatTurn, CombatView, Combatant,
    duplicate_all, duplicate_turns,
};
use crate::state::game::{GameState, starting_amount};
use crate::text::same_text;

verus! {

pub struct ReplayEncounter {
    pub floor: u32,
    pub is_boss: bool,
    pub enemies: Vec<Combatant>,
    pub initial_turn_order: Vec<CombatTurn>,
    pub initial_round: u32,
    pub initial_turn_index: usize,
}

pub struct ReplayCommand {
    pub command: CombatReplayCommand,
    pub expected_digest: String,
}

pub struct CombatReplay {
    pub rng_seed: u64,
    pub roster: Vec<Combatant>,
    pub encounter: ReplayEncounter,
    pub commands: Vec<ReplayCommand>,
    pub expected_outcome: Option<CombatOutcome>,
}

#[derive(Debug, PartialEq, Eq)]
pub enum ReplayReport {
    Match,
    Mismatch { command_index: usize, expected: String, actual: String },
    OutcomeMismatch { expected: Option<CombatOutcome>, actual: Option<CombatOutcome> },
}

/// The recorded commands with their digests.
pub open spec fn command_view(cs: Seq<ReplayCommand>) -> Seq<(CombatReplayCommand, Seq<char>)> {
    cs.map_values(|c: ReplayCommand| (c.command, c.expected_digest@))
}

fn copy_history(history: &Vec<CombatHistoryStep>) -> (r: Vec<ReplayCommand>)
    ensures
        command_view(r@) == history@.map_values(|h: CombatHistoryStep| (h.command, h.digest@)),
{
    let ghost target = history@.map_values(|h: CombatHistoryStep| (h.command, h.digest@));
    let mut out: Vec<ReplayCommand> = Vec::new();
    let mut i: usize = 0;
    while i < history.len()
        invariant
            i <= history@.len(),
            target == history@.map_values(|h: CombatHistoryStep| (h.command, h.digest@)),
            command_view(out@) == target.take(i as int),
        decreases history.len() - i,
    {
        let d = history[i].digest.clone();
        let ghost before = out@;
        out.push(ReplayCommand { command: history[i].command, expected_digest: d });
        proof {
            assert(target[i as int] == (history@[i as int].command, history@[i as int].digest@));
            assert(out@ == before.push(ReplayCommand { command: history@[i as int].command, expected_digest: d }));
            assert(command_view(out@) =~= command_view(before).push((history@[i as int].command, d@)));
            assert(command_view(out@) =~= target.take(i as int + 1));
        }
        i += 1;
    }
    assert(target.take(target.len() as int) =~= target);
    out
}

impl CombatReplay {
    /// The record of an encounter: its opening snapshot (or, when none was
    /// taken, its current sides and order), its commands and its outcome.
    pub fn from_combat(combat: &CombatState) -> (r: Self)
        ensures
            r.rng_seed == combat.rng_seed,
            r.roster@ == if combat@.replay_roster.len() == 0 { combat@.allies } else { combat@.replay_roster },
            r.encounter.floor == combat.floor,
            r.encounter.is_boss == combat.is_boss,
            r.encounter.enemies@ == if combat@.replay_enemies.len() == 0 { combat@.enemies } else { combat@.replay_enemies },
            r.encounter.initial_turn_order@ == if combat@.replay_turn_order.len() == 0 {
                combat@.turn_order
            } else {
                combat@.replay_turn_order
            },
            r.encounter.initial_round == if combat.replay_round >= 1 { combat.replay_round } else { 1 },
            r.encounter.initial_turn_index == combat.replay_turn_index,
            command_view(r.commands@) == combat@.command_history,
            r.expected_outcome == combat.outcome,
            r.start_view() == replay_start(combat@),
            combat_wf(combat@) ==> order_in_range(
                r.encounter.initial_turn_order@,
                r.roster@.len() as int,
                r.encounter.enemies@.len() as int,
            ),
    {
        let roster = if combat.replay_roster.len() == 0 {
            duplicate_all(&combat.allies)
        } else {
            duplicate_all(&combat.replay_roster)
        };
        let enemies = if combat.replay_enemies.len() == 0 {
            duplicate_all(&combat.enemies)
        } else {
            duplicate_all(&combat.replay_enemies)
        };
        let order = if combat.replay_turn_order.len() == 0 {
            duplicate_turns(&combat.turn_order)
        } else {
            duplicate_turns(&combat.replay_turn_order)
        };
        CombatReplay {
            rng_seed: combat.rng_seed,
            roster,
            encounter: ReplayEncounter {
                floor: combat.floor,
                is_boss: combat.is_boss,
                enemies,
                initial_turn_order: order,
                initial_round: if combat.replay_round >= 1 { combat.replay_round } else { 1 },
                initial_turn_index: combat.replay_turn_index,
            },
            commands: copy_history(&combat.command_history),
            expected_outcome: combat.outcome,
        }
    }

    /// The encounter a replay starts from.
    pub open spec fn start_view(&self) -> CombatView {
        CombatView {
            floor: self.encounter.floor,
            round: self.encounter.initial_round,
            turn_index: self.encounter.initial_turn_index,
            turn_order: self.encounter.initial_turn_order@,
            allies: self.roster@,
            enemies: self.encounter.enemies@,
            rewards: Seq::empty(),
            xp_reward: 0,
            log: Seq::empty(),
            outcome: None,
            is_boss: self.encounter.is_boss,
            rng_seed: self.rng_seed,
            replay_roster: self.roster@,
            replay_enemies: self.encounter.enemies@,
            replay_turn_order: self.encounter.initial_turn_order@,
            replay_round: self.encounter.initial_round,
            replay_turn_index: self.encounter.initial_turn_index,
            command_history: Seq::empty(),
        }
    }

    /// Whether the replay's data can be run: its turns name existing combatants.
    pub open spec fn runnable(&self) -> bool {
        order_in_range(self.encounter.initial_turn_order@, self.roster@.len() as int, self.encounter.enemies@.len() as int)
    }

    /// What a run reports: the first command whose digest differs, else a
    /// different final outcome, else a match.
    pub open spec fn reports(&self, data: GameData, r: ReplayReport) -> bool {
        let cmds = command_view(self.commands@);
        let trace = |n: int| replay_trace(data, self.start_view(), starting_amount(data, "herbs"@), cmds, n);
        match r {
            ReplayReport::Mismatch { command_index, expected, actual } => {
                &&& command_index < cmds.len()
                &&& forall|j: int| 0 <= j < command_index ==> #[trigger] step_matches(data, self.start_view(), starting_amount(data, "herbs"@), cmds, j)
                &&& !step_matches(data, self.start_view(), starting_amount(data, "herbs"@), cmds, command_index as int)
                &&& expected@ == cmds[command_index as int].1
                &&& actual@ == spec_combat_digest(trace(command_index + 1).0)
            },
            ReplayReport::OutcomeMismatch { expected, actual } => {
                &&& forall|j: int| 0 <= j < cmds.len() ==> #[trigger] step_matches(data, self.start_view(), starting_amount(data, "herbs"@), cmds, j)
                &&& expected == self.expected_outcome
                &&& actual == trace(cmds.len() as int).0.outcome
                &&& actual != expected
            },
            ReplayReport::Match => {
                &&& forall|j: int| 0 <= j < cmds.len() ==> #[trigger] step_matches(data, self.start_view(), starting_amount(data, "herbs"@), cmds, j)
                &&& trace(cmds.len() as int).0.outcome == self.expected_outcome
            },
        }
    }

    /// Replays every command on a fresh save holding the recorded encounter.
    /// The first command whose digest differs is reported; otherwise the
    /// final outcome is compared.
    #[verifier::rlimit(30)]
    pub fn run(&self, data: &GameData) -> (r: ReplayReport)
        requires
            keys_unique(data.resources@),
            keys_unique(data.buildings@),
            self.runnable(),
        ensures
            self.reports(*data, r),
    {
        proof { reveal_strlit("herbs"); }
        let mut state = GameState::new(data);
        let combat = CombatState {
            floor: self.encounter.floor,
            round: self.encounter.initial_round,
            turn_index: self.encounter.initial_turn_index,
            turn_order: duplicate_turns(&self.encounter.initial_turn_order),
            allies: duplicate_all(&self.roster),
            enemies: duplicate_all(&self.encounter.enemies),
            rewards: Vec::new(),
            xp_reward: 0,
            log: Vec::new(),
            outcome: None,
            is_boss: self.encounter.is_boss,
            rng_seed: self.rng_seed,
            replay_roster: duplicate_all(&self.roster),
            replay_enemies: duplicate_all(&self.encounter.enemies),
            replay_turn_order: duplicate_turns(&self.encounter.initial_turn_order),
            replay_round: self.encounter.initial_round,
            replay_turn_index: self.encounter.initial_turn_index,
            command_history: Vec::new(),
        };
        proof {
            assert(combat@.log =~= Seq::<Seq<char>>::empty());
            assert(combat@.command_history =~= Seq::<(CombatReplayCommand, Seq<char>)>::empty());
            assert(combat@ == self.start_view());
        }
        state.combat = Some(combat);
        let ghost cmds = command_view(self.commands@);
        let ghost v0 = self.start_view();
        let ghost h0 = starting_amount(*data, "herbs"@);
        let mut i: usize = 0;
        while i < self.commands.len()
            invariant
                i <= self.commands@.len(),
                cmds == command_view(self.commands@),
                v0 == self.start_view(),
                h0 == starting_amount(*data, "herbs"@),
                state.combat matches Some(c) && c@ == replay_trace(*data, v0, h0, cmds, i as int).0 && combat_wf(c@),
                state.resources.spec_amount("herbs"@) == replay_trace(*data, v0, h0, cmds, i as int).1,
                forall|j: int| 0 <= j < i ==> #[trigger] step_matches(*data, v0, h0, cmds, j),
            decreases self.commands.len() - i,
        {
            let command = player_command(self.commands[i].command);
            player_action(&mut state, data, command);
            let actual = match &state.combat {
                Some(c) => combat_digest(c),
                None => String::from_str("combat-ended"),
            };
            if !same_text(actual.as_str(), self.commands[i].expected_digest.as_str()) {
                return ReplayReport::Mismatch {
                    command_index: i,
                    expected: self.commands[i].expected_digest.clone(),
                    actual,
                };
            }
            i += 1;
        }
        let actual = match &state.combat {
            Some(c) => c.outcome,
            None => None,
        };
        if actual != self.expected_outcome {
            return ReplayReport::OutcomeMismatch { expected: self.expected_outcome, actual };
        }
        ReplayReport::Match
    }
}

/// One replayed command on an encounter with `herbs` herbs in store.
pub open spec fn replay_step(data: GameData, v: CombatView, herbs: int, command: CombatCommand) -> (CombatView, int) {
    if command == CombatCommand::Item {
        match v.current_turn() {
            None => (v, herbs),
            Some(t) => if t.side != CombatSide::Ally || herbs <= 0 {
                (v, herbs)
            } else {
                (spec_use_item(v, t.slot as int), herbs - 1)
            },
        }
    } else if v.outcome is Some {
        (v, herbs)
    } else {
        (spec_player_action(data, v, command).0, herbs)
    }
}

/// The encounter and herb count after the first `n` recorded commands.
pub open spec fn replay_trace(
    data: GameData,
    v0: CombatView,
    h0: int,
    cmds: Seq<(CombatReplayCommand, Seq<char>)>,
    n: int,
) -> (CombatView, int)
    decreases n,
{
    if n <= 0 {
        (v0, h0)
    } else {
        let (v, h) = replay_trace(data, v0, h0, cmds, n - 1);
        replay_step(data, v, h, spec_player_command(cmds[n - 1].0))
    }
}

/// The digest after command `j` is the recorded one.
pub open spec fn step_matches(
    data: GameData,
    v0: CombatView,
    h0: int,
    cmds: Seq<(CombatReplayCommand, Seq<char>)>,
    j: int,
) -> bool {
    spec_combat_digest(replay_trace(data, v0, h0, cmds, j + 1).0) == cmds[j].1
}

} // verus!
