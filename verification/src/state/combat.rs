//! A combat encounter: both sides, the turn order, rewards and the replay record.

use vstd::prelude::*;
use crate::data::schema::MonsterRole;
use crate::state::resources::ResourceStack;

verus! {

#[derive(Clone, Copy, Debug, PartialEq, Eq, Structural)]
pub enum CombatSide {
    Ally,
    Enemy,
}

#[derive(Clone, Copy, Debug, PartialEq, Eq, Structural)]
pub enum CombatOutcome {
    Victory,
    Defeat,
    Fled,
}

#[derive(Clone, Copy, Debug, PartialEq, Eq, Structural)]
pub struct CombatTurn {
    pub side: CombatSide,
    pub slot: usize,
}

#[derive(Clone, Copy, Debug, PartialEq, Eq, Structural)]
pub enum CombatReplayCommand {
    Attack,
    Skill,
    Defend,
    Item,
    Flee,
}

/// One issued command and the digest of the encounter right after it.
pub struct CombatHistoryStep {
    pub command: CombatReplayCommand,
    pub digest: String,
}

pub struct Combatant {
    pub name: String,
    pub source_id: String,
    pub monster_id: Option<u64>,
    pub role: Option<MonsterRole>,
    pub slot: usize,
    pub level: u32,
    pub max_hp: i32,
    pub hp: i32,
    pub attack: i32,
    pub defense: i32,
    pub speed: i32,
    pub morale: i32,
    pub is_defending: bool,
    pub is_guarding: bool,
    pub is_marked: bool,
    pub visual_seed: u64,
}

impl Combatant {
    pub open spec fn spec_alive(&self) -> bool {
        self.hp > 0
    }

    pub fn is_alive(&self) -> (r: bool)
        ensures
            r == self.spec_alive(),
    {
        self.hp > 0
    }

    /// An exact copy.
    pub fn duplicate(&self) -> (r: Self)
        ensures
            r == *self,
    {
        Combatant {
            name: self.name.clone(),
            source_id: self.source_id.clone(),
            monster_id: self.monster_id,
            role: self.role,
            slot: self.slot,
            level: self.level,
            max_hp: self.max_hp,
            hp: self.hp,
            attack: self.attack,
            defense: self.defense,
            speed: self.speed,
            morale: self.morale,
            is_defending: self.is_defending,
            is_guarding: self.is_guarding,
            is_marked: self.is_marked,
            visual_seed: self.visual_seed,
        }
    }
}

/// An exact copy of a list of combatants.
pub fn duplicate_all(units: &Vec<Combatant>) -> (r: Vec<Combatant>)
    ensures
        r@ == units@,
{
    let mut out: Vec<Combatant> = Vec::new();
    let mut i: usize = 0;
    while i < units.len()
        invariant
            i <= units@.len(),
            out@ == units@.take(i as int),
        decreases units.len() - i,
    {
        out.push(units[i].duplicate());
        assert(out@ =~= units@.take(i as int + 1));
        i += 1;
    }
    assert(units@.take(units@.len() as int) =~= units@);
    out
}

/// An exact copy of a turn order.
pub fn duplicate_turns(turns: &Vec<CombatTurn>) -> (r: Vec<CombatTurn>)
    ensures
        r@ == turns@,
{
    let mut out: Vec<CombatTurn> = Vec::new();
    let mut i: usize = 0;
    while i < turns.len()
        invariant
            i <= turns@.len(),
            out@ == turns@.take(i as int),
        decreases turns.len() - i,
    {
        out.push(turns[i]);
        assert(out@ =~= turns@.take(i as int + 1));
        i += 1;
    }
    assert(turns@.take(turns@.len() as int) =~= turns@);
    out
}

pub struct CombatState {
    pub floor: u32,
    pub round: u32,
    pub turn_index: usize,
    pub turn_order: Vec<CombatTurn>,
    pub allies: Vec<Combatant>,
    pub enemies: Vec<Combatant>,
    pub rewards: Vec<ResourceStack>,
    pub xp_reward: u32,
    pub log: Vec<String>,
    pub outcome: Option<CombatOutcome>,
    pub is_boss: bool,
    pub rng_seed: u64,
    pub replay_roster: Vec<Combatant>,
    pub replay_enemies: Vec<Combatant>,
    pub replay_turn_order: Vec<CombatTurn>,
    pub replay_round: u32,
    pub replay_turn_index: usize,
    pub command_history: Vec<CombatHistoryStep>,
}

/// The mathematical picture of an encounter: every list as a sequence and
/// every log line as its text.
pub struct CombatView {
    pub floor: u32,
    pub round: u32,
    pub turn_index: usize,
    pub turn_order: Seq<CombatTurn>,
    pub allies: Seq<Combatant>,
    pub enemies: Seq<Combatant>,
    pub rewards: Seq<ResourceStack>,
    pub xp_reward: u32,
    pub log: Seq<Seq<char>>,
    pub outcome: Option<CombatOutcome>,
    pub is_boss: bool,
    pub rng_seed: u64,
    pub replay_roster: Seq<Combatant>,
    pub replay_enemies: Seq<Combatant>,
    pub replay_turn_order: Seq<CombatTurn>,
    pub replay_round: u32,
    pub replay_turn_index: usize,
    pub command_history: Seq<(CombatReplayCommand, Seq<char>)>,
}

impl View for CombatState {
    type V = CombatView;

    open spec fn view(&self) -> CombatView {
        CombatView {
            floor: self.floor,
            round: self.round,
            turn_index: self.turn_index,
            turn_order: self.turn_order@,
            allies: self.allies@,
            enemies: self.enemies@,
            rewards: self.rewards@,
            xp_reward: self.xp_reward,
            log: self.log@.map_values(|s: String| s@),
            outcome: self.outcome,
            is_boss: self.is_boss,
            rng_seed: self.rng_seed,
            replay_roster: self.replay_roster@,
            replay_enemies: self.replay_enemies@,
            replay_turn_order: self.replay_turn_order@,
            replay_round: self.replay_round,
            replay_turn_index: self.replay_turn_index,
            command_history: self.command_history@.map_values(|h: CombatHistoryStep| (h.command, h.digest@)),
        }
    }
}

impl CombatView {
    pub open spec fn current_turn(self) -> Option<CombatTurn> {
        if self.turn_index < self.turn_order.len() {
            Some(self.turn_order[self.turn_index as int])
        } else {
            None
        }
    }
}

impl CombatState {
    pub open spec fn spec_current_turn(&self) -> Option<CombatTurn> {
        self@.current_turn()
    }

    /// The turn that is up, if the order has not run out.
    pub fn current_turn(&self) -> (r: Option<CombatTurn>)
        ensures
            r == self.spec_current_turn(),
    {
        if self.turn_index < self.turn_order.len() {
            Some(self.turn_order[self.turn_index])
        } else {
            None
        }
    }

    /// Appends a line to the combat log.
    pub fn add_log(&mut self, text: String)
        ensures
            final(self)@ == (CombatView { log: old(self)@.log.push(text@), ..old(self)@ }),
    {
        let ghost before = self.log@;
        self.log.push(text);
        assert(self.log@.map_values(|s: String| s@) =~= before.map_values(|s: String| s@).push(text@));
    }
}

} // verus!
