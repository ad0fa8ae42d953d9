//! An expedition in progress: floor, pressure, cargo, found eggs and the current map.

use vstd::prelude::*;
use crate::data::schema::{ResourceAmount, TowerBlessing};
use crate::arith::clamp_i32;
use crate::state::resources::{ResourceStack, add_to_stacks, stack_amount, stacks_amount, stack_view, add_stack_view};
use crate::state::tower_map::TowerMapState;

verus! {

/// The hold's entries after each cost, in order, is taken off it.
pub open spec fn spent_view(sv: Seq<(Seq<char>, i32)>, costs: Seq<ResourceAmount>) -> Seq<(Seq<char>, i32)>
    decreases costs.len(),
{
    if costs.len() == 0 {
        sv
    } else {
        add_stack_view(spent_view(sv, costs.drop_last()), costs.last().resource_id@, (-costs.last().amount) as i32)
    }
}

#[derive(Clone, Copy, Debug, PartialEq, Eq, Structural)]
pub enum TowerRunGoal {
    Balanced,
    EggHunt,
    Salvage,
    Scout,
    PushDeeper,
    SafeRun,
}

impl TowerRunGoal {
    pub open spec fn spec_contract_id(self) -> Seq<char> {
        match self {
            TowerRunGoal::Balanced => "balanced"@,
            TowerRunGoal::EggHunt => "egg_hunt"@,
            TowerRunGoal::Salvage => "salvage"@,
            TowerRunGoal::Scout => "scout"@,
            TowerRunGoal::PushDeeper => "push_deeper"@,
            TowerRunGoal::SafeRun => "safe_run"@,
        }
    }

    /// The id of the contract that a run with this goal works toward.
    pub fn contract_id(self) -> (s: &'static str)
        ensures
            s@ == self.spec_contract_id(),
    {
        match self {
            TowerRunGoal::Balanced => "balanced",
            TowerRunGoal::EggHunt => "egg_hunt",
            TowerRunGoal::Salvage => "salvage",
            TowerRunGoal::Scout => "scout",
            TowerRunGoal::PushDeeper => "push_deeper",
            TowerRunGoal::SafeRun => "safe_run",
        }
    }

    pub open spec fn spec_ordinal(self) -> u64 {
        match self {
            TowerRunGoal::Balanced => 0,
            TowerRunGoal::EggHunt => 1,
            TowerRunGoal::Salvage => 2,
            TowerRunGoal::Scout => 3,
            TowerRunGoal::PushDeeper => 4,
            TowerRunGoal::SafeRun => 5,
        }
    }

    /// The goal's position in declaration order.
    pub fn ordinal(self) -> (n: u64)
        ensures
            n == self.spec_ordinal(),
    {
        match self {
            TowerRunGoal::Balanced => 0,
            TowerRunGoal::EggHunt => 1,
            TowerRunGoal::Salvage => 2,
            TowerRunGoal::Scout => 3,
            TowerRunGoal::PushDeeper => 4,
            TowerRunGoal::SafeRun => 5,
        }
    }
}

pub struct TowerFoundEgg {
    pub egg_type_id: String,
    pub hatch_days: u32,
    pub origin_floor: u32,
    pub palette_seed: u64,
}

pub struct TowerPendingEvent {
    pub special_location_id: String,
    pub event_ids: Vec<String>,
}

#[derive(Clone, Copy, Debug, PartialEq, Eq, Structural)]
pub struct TowerRunStats {
    pub hazards_countered: u32,
    pub landmarks_resolved: u32,
    pub floors_descended: u32,
}

/// How many survey flares a run carries onto each floor.
pub const SURVEY_CHARGES_PER_FLOOR: u32 = 2;

pub struct TowerRunState {
    pub current_floor: u32,
    pub pressure: u32,
    pub pressure_limit: u32,
    pub pressure_stage: u8,
    pub goal: TowerRunGoal,
    pub rooms_explored: u32,
    pub camp_cooldown: u32,
    pub cargo: Vec<ResourceStack>,
    pub found_eggs: Vec<TowerFoundEgg>,
    pub event_log: Vec<String>,
    pub map: TowerMapState,
    pub pending_event: Option<TowerPendingEvent>,
    pub stats: TowerRunStats,
    pub contract_id: String,
    pub contract_complete: bool,
    pub anomaly_id: String,
    pub survey_charges: u32,
    pub blessings: Vec<TowerBlessing>,
    pub boss_defeated: bool,
}

/// The total of all cargo stacks, kept within the range of `i64`.
pub open spec fn cargo_total(cargo: Seq<ResourceStack>) -> int
    decreases cargo.len(),
{
    if cargo.len() == 0 {
        0
    } else {
        crate::arith::clamp_i64(cargo_total(cargo.drop_last()) + cargo.last().amount)
    }
}

impl TowerRunState {
    /// A fresh run on `floor` with the given pressure limit, before any map is generated.
    pub fn new(floor: u32, pressure_limit: u32, goal: TowerRunGoal) -> (r: Self)
        ensures
            r.current_floor == floor,
            r.pressure == 0,
            r.pressure_limit == pressure_limit,
            r.pressure_stage == 0,
            r.goal == goal,
            r.rooms_explored == 0,
            r.camp_cooldown == 0,
            r.cargo@.len() == 0,
            r.found_eggs@.len() == 0,
            r.event_log@.len() == 0,
            r.map.wf(),
            r.map.tiles@.len() == 0,
            r.pending_event is None,
            r.stats == (TowerRunStats { hazards_countered: 0, landmarks_resolved: 0, floors_descended: 0 }),
            r.contract_id@ == goal.spec_contract_id(),
            !r.contract_complete,
            r.anomaly_id@.len() == 0,
            r.survey_charges == SURVEY_CHARGES_PER_FLOOR,
            r.blessings@.len() == 0,
            !r.boss_defeated,
    {
        TowerRunState {
            current_floor: floor,
            pressure: 0,
            pressure_limit,
            pressure_stage: 0,
            goal,
            rooms_explored: 0,
            camp_cooldown: 0,
            cargo: Vec::new(),
            found_eggs: Vec::new(),
            event_log: Vec::new(),
            map: TowerMapState::new(0, 0, floor, 0),
            pending_event: None,
            stats: TowerRunStats { hazards_countered: 0, landmarks_resolved: 0, floors_descended: 0 },
            contract_id: String::from_str(goal.contract_id()),
            contract_complete: false,
            anomaly_id: String::new(),
            survey_charges: SURVEY_CHARGES_PER_FLOOR,
            blessings: Vec::new(),
            boss_defeated: false,
        }
    }

    /// The same run on `map`.
    pub fn with_map(self, map: TowerMapState) -> (r: Self)
        ensures
            r == (TowerRunState { map, ..self }),
    {
        TowerRunState { map, ..self }
    }

    pub open spec fn spec_cargo_for(&self, id: Seq<char>) -> int {
        stack_amount(self.cargo@, id)
    }

    /// Adds cargo to the run's hold.
    pub fn add_cargo(&mut self, id: &str, amount: i32)
        ensures
            forall|k: Seq<char>| #[trigger] final(self).spec_cargo_for(k) == if k == id@ {
                clamp_i32(old(self).spec_cargo_for(k) + amount)
            } else {
                old(self).spec_cargo_for(k)
            },
            *final(self) == (TowerRunState { cargo: final(self).cargo, ..*old(self) }),
            match crate::data::game_data::first_keyed(old(self).cargo@, id@) {
                Some(i) => final(self).cargo@ == old(self).cargo@.update(
                    i,
                    ResourceStack { resource_id: old(self).cargo@[i].resource_id, amount: clamp_i32(old(self).cargo@[i].amount + amount) as i32 },
                ),
                None => final(self).cargo@ == old(self).cargo@.push(ResourceStack { resource_id: final(self).cargo@.last().resource_id, amount }) && final(self).cargo@.last().resource_id@ == id@,
            },
            stack_view(final(self).cargo@) == add_stack_view(stack_view(old(self).cargo@), id@, amount),
    {
        add_to_stacks(&mut self.cargo, id, amount);
    }

    /// The amount of one resource in the hold.
    pub fn cargo_amount_for(&self, id: &str) -> (r: i32)
        ensures
            r == self.spec_cargo_for(id@),
    {
        stacks_amount(&self.cargo, id)
    }

    /// The total amount of cargo in the hold.
    pub fn cargo_amount(&self) -> (r: i64)
        ensures
            r == cargo_total(self.cargo@),
    {
        let mut total: i64 = 0;
        let mut i: usize = 0;
        while i < self.cargo.len()
            invariant
                i <= self.cargo@.len(),
                total == cargo_total(self.cargo@.take(i as int)),
            decreases self.cargo.len() - i,
        {
            assert(self.cargo@.take(i as int + 1).drop_last() =~= self.cargo@.take(i as int));
            total = crate::arith::sat_add_i64(total, self.cargo[i].amount as i64);
            i += 1;
        }
        assert(self.cargo@.take(self.cargo@.len() as int) =~= self.cargo@);
        total
    }

    pub open spec fn spec_can_afford(&self, costs: Seq<ResourceAmount>) -> bool {
        forall|i: int| 0 <= i < costs.len() ==> self.spec_cargo_for(costs[i].resource_id@) >= costs[i].amount
    }

    /// Whether the hold covers every cost entry.
    pub fn can_afford_cargo(&self, costs: &Vec<ResourceAmount>) -> (r: bool)
        ensures
            r == self.spec_can_afford(costs@),
    {
        let mut i: usize = 0;
        while i < costs.len()
            invariant
                i <= costs@.len(),
                forall|j: int| 0 <= j < i ==> self.spec_cargo_for(costs@[j].resource_id@) >= costs@[j].amount,
            decreases costs.len() - i,
        {
            if self.cargo_amount_for(costs[i].resource_id.as_str()) < costs[i].amount {
                return false;
            }
            i += 1;
        }
        true
    }

    /// Removes each cost entry from the hold in turn.
    pub fn spend_cargo(&mut self, costs: &Vec<ResourceAmount>)
        requires
            forall|i: int| 0 <= i < costs@.len() ==> costs@[i].amount > i32::MIN,
        ensures
            *final(self) == (TowerRunState { cargo: final(self).cargo, ..*old(self) }),
            stack_view(final(self).cargo@) == spent_view(stack_view(old(self).cargo@), costs@),
    {
        let mut i: usize = 0;
        while i < costs.len()
            invariant
                i <= costs@.len(),
                forall|j: int| 0 <= j < costs@.len() ==> costs@[j].amount > i32::MIN,
                *self == (TowerRunState { cargo: self.cargo, ..*old(self) }),
                stack_view(self.cargo@) == spent_view(stack_view(old(self).cargo@), costs@.take(i as int)),
            decreases costs.len() - i,
        {
            assert(costs@.take(i as int + 1).drop_last() =~= costs@.take(i as int));
            self.add_cargo(costs[i].resource_id.as_str(), -costs[i].amount);
            i += 1;
        }
        assert(costs@.take(costs@.len() as int) =~= costs@);
    }

    /// The run holds blessing `b`.
    pub open spec fn spec_has_blessing(&self, b: TowerBlessing) -> bool {
        self.blessings@.contains(b)
    }

    /// Whether the run holds blessing `b`.
    pub fn has_blessing(&self, b: TowerBlessing) -> (r: bool)
        ensures
            r == self.spec_has_blessing(b),
    {
        let mut i: usize = 0;
        while i < self.blessings.len()
            invariant
                i <= self.blessings@.len(),
                forall|j: int| 0 <= j < i ==> self.blessings@[j] != b,
            decreases self.blessings.len() - i,
        {
            if self.blessings[i] == b {
                return true;
            }
            i += 1;
        }
        false
    }

    /// Grants blessing `b` for the rest of the run; a blessing is held once.
    pub fn add_blessing(&mut self, b: TowerBlessing)
        ensures
            *final(self) == (TowerRunState { blessings: final(self).blessings, ..*old(self) }),
            final(self).blessings@ == if old(self).spec_has_blessing(b) {
                old(self).blessings@
            } else {
                old(self).blessings@.push(b)
            },
    {
        if !self.has_blessing(b) {
            self.blessings.push(b);
        }
    }

    /// Gives up blessing `b`; every other blessing stays.
    pub fn remove_blessing(&mut self, b: TowerBlessing)
        ensures
            *final(self) == (TowerRunState { blessings: final(self).blessings, ..*old(self) }),
            forall|c: TowerBlessing| #[trigger] final(self).spec_has_blessing(c) == (old(self).spec_has_blessing(c) && c != b),
    {
        let mut kept: Vec<TowerBlessing> = Vec::new();
        let mut i: usize = 0;
        while i < self.blessings.len()
            invariant
                i <= self.blessings@.len(),
                forall|c: TowerBlessing| #[trigger] kept@.contains(c)
                    == ((exists|j: int| 0 <= j < i && self.blessings@[j] == c) && c != b),
            decreases self.blessings.len() - i,
        {
            let c = self.blessings[i];
            let ghost before = kept@;
            if c != b {
                kept.push(c);
            }
            proof {
                assert forall|d: TowerBlessing| #[trigger] kept@.contains(d)
                    == ((exists|j: int| 0 <= j < i + 1 && self.blessings@[j] == d) && d != b) by {
                    if exists|j: int| 0 <= j < i + 1 && self.blessings@[j] == d {
                        let j = choose|j: int| 0 <= j < i + 1 && self.blessings@[j] == d;
                        if j < i {
                            assert(exists|j2: int| 0 <= j2 < i && self.blessings@[j2] == d);
                        }
                        if d != b && c != b && d == c {
                            assert(kept@[kept@.len() - 1] == d);
                        }
                    }
                    if kept@.contains(d) && !before.contains(d) {
                        assert(d == c);
                    }
                    if before.contains(d) {
                        let k = choose|k: int| 0 <= k < before.len() && before[k] == d;
                        assert(kept@[k] == d);
                    }
                }
            }
            i += 1;
        }
        proof {
            assert forall|c: TowerBlessing| #[trigger] kept@.contains(c) == (self.blessings@.contains(c) && c != b) by {
                if self.blessings@.contains(c) {
                    let j = choose|j: int| 0 <= j < self.blessings@.len() && self.blessings@[j] == c;
                    assert(exists|j2: int| 0 <= j2 < i && self.blessings@[j2] == c);
                }
            }
        }
        self.blessings = kept;
    }

    /// Appends a line to the run's event log.
    pub fn add_event(&mut self, text: String)
        ensures
            *final(self) == (TowerRunState { event_log: final(self).event_log, ..*old(self) }),
            final(self).event_log@ == old(self).event_log@.push(text),
    {
        self.event_log.push(text);
    }
}

} // verus!
