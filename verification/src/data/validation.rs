//! Cross-reference and balance checks on loaded content. Each check reports
//! the first problem it finds, in a fixed order.

use vstd::prelude::*;
use crate::data::game_data::{first_keyed, find_keyed, lookup, GameData};
use crate::data::schema::{
    BuildingDefinition, EggTypeDefinition, EnemyDefinition, ResourceAmount, TowerAnomalyDefinition, TowerContractDefinition,
    TowerEventDefinition, TowerFloorDefinition, TowerHazardDefinition, TowerSpecialLocationDefinition,
    MonsterSpeciesDefinition, MonsterStatCurveDefinition, CombatCooldownDefinition, ShopTradeDefinition, TowerRewardDefinition,
};
use crate::text::{decimal, decimal_text, signed_decimal, signed_text};

verus! {

/// Content that can be checked against the rest of the content.
pub trait Checked {
    spec fn problem(&self, data: GameData) -> Option<Seq<char>>;

    fn find_problem(&self, data: &GameData) -> (r: Option<String>)
        ensures
            match self.problem(*data) {
                Some(m) => r matches Some(s) && s@ == m,
                None => r is None,
            },
    ;
}

/// The first problem among `items`, in order.
pub open spec fn first_problem<T: Checked>(items: Seq<T>, data: GameData) -> Option<Seq<char>>
    decreases items.len(),
{
    if items.len() == 0 {
        None
    } else {
        match first_problem(items.drop_last(), data) {
            Some(m) => Some(m),
            None => items.last().problem(data),
        }
    }
}

fn scan<T: Checked>(items: &Vec<T>, data: &GameData) -> (r: Option<String>)
    ensures
        match first_problem(items@, *data) {
            Some(m) => r matches Some(s) && s@ == m,
            None => r is None,
        },
{
    let mut i: usize = 0;
    while i < items.len()
        invariant
            i <= items@.len(),
            first_problem(items@.take(i as int), *data) is None,
        decreases items.len() - i,
    {
        assert(items@.take(i as int + 1).drop_last() =~= items@.take(i as int));
        match items[i].find_problem(data) {
            Some(s) => {
                proof {
                    lemma_first_problem_prefix(items@, *data, i as int + 1);
                }
                return Some(s);
            },
            None => {},
        }
        i += 1;
    }
    assert(items@.take(i as int) =~= items@);
    None
}

proof fn lemma_first_problem_prefix<T: Checked>(items: Seq<T>, data: GameData, n: int)
    requires
        0 <= n <= items.len(),
        first_problem(items.take(n), data) is Some,
    ensures
        first_problem(items, data) == first_problem(items.take(n), data),
    decreases items.len() - n,
{
    if n < items.len() {
        assert(items.take(n + 1).drop_last() =~= items.take(n));
        lemma_first_problem_prefix(items, data, n + 1);
    } else {
        assert(items.take(n) =~= items);
    }
}

/// Whether a resource with this id is defined.
pub open spec fn has_resource(data: GameData, id: Seq<char>) -> bool {
    first_keyed(data.resources@, id) is Some
}

fn resource_exists(data: &GameData, id: &String) -> (r: bool)
    ensures
        r == has_resource(*data, id@),
{
    find_keyed(&data.resources, id.as_str()).is_some()
}

/// The first resource stack that names no resource or holds no positive amount.
pub open spec fn stack_problem(data: GameData, stacks: Seq<ResourceAmount>, kind: Seq<char>, id: Seq<char>) -> Option<Seq<char>>
    decreases stacks.len(),
{
    if stacks.len() == 0 {
        None
    } else {
        match stack_problem(data, stacks.drop_last(), kind, id) {
            Some(m) => Some(m),
            None => {
                let s = stacks.last();
                if !has_resource(data, s.resource_id@) || s.amount <= 0 {
                    Some(kind + " '"@ + id + "' has invalid resource amount '"@ + s.resource_id@ + "': "@
                        + signed_decimal(s.amount as int))
                } else {
                    None
                }
            },
        }
    }
}

fn check_stacks(data: &GameData, stacks: &Vec<ResourceAmount>, kind: &str, id: &str) -> (r: Option<String>)
    ensures
        match stack_problem(*data, stacks@, kind@, id@) {
            Some(m) => r matches Some(s) && s@ == m,
            None => r is None,
        },
{
    let mut i: usize = 0;
    while i < stacks.len()
        invariant
            i <= stacks@.len(),
            stack_problem(*data, stacks@.take(i as int), kind@, id@) is None,
        decreases stacks.len() - i,
    {
        assert(stacks@.take(i as int + 1).drop_last() =~= stacks@.take(i as int));
        let s = &stacks[i];
        if !resource_exists(data, &s.resource_id) || s.amount <= 0 {
            let mut m = String::from_str(kind);
            m.append(" '");
            m.append(id);
            m.append("' has invalid resource amount '");
            m.append(s.resource_id.as_str());
            m.append("': ");
            let n = signed_text(s.amount as i64);
            m.append(n.as_str());
            proof {
                lemma_stack_problem_prefix(*data, stacks@, kind@, id@, i as int + 1);
                assert(stacks@.take(i as int + 1).last() == stacks@[i as int]);
            }
            return Some(m);
        }
        i += 1;
    }
    assert(stacks@.take(i as int) =~= stacks@);
    None
}

proof fn lemma_stack_problem_prefix(data: GameData, stacks: Seq<ResourceAmount>, kind: Seq<char>, id: Seq<char>, n: int)
    requires
        0 <= n <= stacks.len(),
        stack_problem(data, stacks.take(n), kind, id) is Some || (n > 0 && stack_problem(data, stacks.take(n - 1), kind, id) is None
            && {
                let s = stacks[n - 1];
                !has_resource(data, s.resource_id@) || s.amount <= 0
            }),
    ensures
        stack_problem(data, stacks, kind, id) == stack_problem(data, stacks.take(n), kind, id),
    decreases stacks.len() - n,
{
    if n > 0 {
        assert(stacks.take(n).drop_last() =~= stacks.take(n - 1));
    }
    if n < stacks.len() {
        assert(stacks.take(n + 1).drop_last() =~= stacks.take(n));
        lemma_stack_problem_prefix(data, stacks, kind, id, n + 1);
    } else {
        assert(stacks.take(n) =~= stacks);
    }
}

/// The position of the first id in `ids` that `present` does not accept.
pub open spec fn first_absent(ids: Seq<String>, present: spec_fn(Seq<char>) -> bool) -> Option<int>
    decreases ids.len(),
{
    if ids.len() == 0 {
        None
    } else {
        match first_absent(ids.drop_last(), present) {
            Some(i) => Some(i),
            None => if !present(ids.last()@) { Some(ids.len() - 1) } else { None },
        }
    }
}

proof fn lemma_first_absent_prefix(ids: Seq<String>, present: spec_fn(Seq<char>) -> bool, n: int)
    requires
        0 <= n <= ids.len(),
        first_absent(ids.take(n), present) is Some,
    ensures
        first_absent(ids, present) == first_absent(ids.take(n), present),
    decreases ids.len() - n,
{
    if n < ids.len() {
        assert(ids.take(n + 1).drop_last() =~= ids.take(n));
        lemma_first_absent_prefix(ids, present, n + 1);
    } else {
        assert(ids.take(n) =~= ids);
    }
}

/// The first entry of `costs` that names a missing resource, reported as
/// `lead` followed by the quoted id.
pub open spec fn missing_resource(data: GameData, subject: Seq<char>, costs: Seq<ResourceAmount>) -> Option<Seq<char>>
    decreases costs.len(),
{
    if costs.len() == 0 {
        None
    } else {
        match missing_resource(data, subject, costs.drop_last()) {
            Some(m) => Some(m),
            None => if !has_resource(data, costs.last().resource_id@) {
                Some(subject + costs.last().resource_id@ + "'"@)
            } else {
                None
            },
        }
    }
}

proof fn lemma_missing_resource_prefix(data: GameData, subject: Seq<char>, costs: Seq<ResourceAmount>, n: int)
    requires
        0 <= n <= costs.len(),
        missing_resource(data, subject, costs.take(n)) is Some,
    ensures
        missing_resource(data, subject, costs) == missing_resource(data, subject, costs.take(n)),
    decreases costs.len() - n,
{
    if n < costs.len() {
        assert(costs.take(n + 1).drop_last() =~= costs.take(n));
        lemma_missing_resource_prefix(data, subject, costs, n + 1);
    } else {
        assert(costs.take(n) =~= costs);
    }
}

fn check_missing_resource(data: &GameData, subject: &String, costs: &Vec<ResourceAmount>) -> (r: Option<String>)
    ensures
        match missing_resource(*data, subject@, costs@) {
            Some(m) => r matches Some(s) && s@ == m,
            None => r is None,
        },
{
    let mut i: usize = 0;
    while i < costs.len()
        invariant
            i <= costs@.len(),
            missing_resource(*data, subject@, costs@.take(i as int)) is None,
        decreases costs.len() - i,
    {
        assert(costs@.take(i as int + 1).drop_last() =~= costs@.take(i as int));
        let c = &costs[i];
        if !resource_exists(data, &c.resource_id) {
            let mut m = subject.clone();
            m.append(c.resource_id.as_str());
            m.append("'");
            proof {
                lemma_missing_resource_prefix(*data, subject@, costs@, i as int + 1);
            }
            return Some(m);
        }
        i += 1;
    }
    assert(costs@.take(i as int) =~= costs@);
    None
}

impl Checked for BuildingDefinition {
    open spec fn problem(&self, data: GameData) -> Option<Seq<char>> {
        missing_resource(data, "Building '"@ + self.id@ + "' references missing resource '"@, self.upgrade_cost@)
    }

    fn find_problem(&self, data: &GameData) -> (r: Option<String>) {
        let mut subject = String::from_str("Building '");
        subject.append(self.id.as_str());
        subject.append("' references missing resource '");
        check_missing_resource(data, &subject, &self.upgrade_cost)
    }
}

/// Whether a species with this id is defined.
pub open spec fn species_present(data: GameData) -> spec_fn(Seq<char>) -> bool {
    |id: Seq<char>| data.spec_species(id) is Some
}

impl Checked for EggTypeDefinition {
    open spec fn problem(&self, data: GameData) -> Option<Seq<char>> {
        match first_absent(self.possible_species@, species_present(data)) {
            Some(i) => Some("Egg '"@ + self.id@ + "' references missing species '"@ + self.possible_species@[i]@ + "'"@),
            None => None,
        }
    }

    fn find_problem(&self, data: &GameData) -> (r: Option<String>) {
        let ghost present = species_present(*data);
        let mut i: usize = 0;
        while i < self.possible_species.len()
            invariant
                i <= self.possible_species@.len(),
                present == species_present(*data),
                first_absent(self.possible_species@.take(i as int), present) is None,
            decreases self.possible_species.len() - i,
        {
            assert(self.possible_species@.take(i as int + 1).drop_last() =~= self.possible_species@.take(i as int));
            let sid = &self.possible_species[i];
            if data.species(sid.as_str()).is_none() {
                proof {
                    assert(first_absent(self.possible_species@.take(i as int + 1), present) == Some(i as int));
                    lemma_first_absent_prefix(self.possible_species@, present, i as int + 1);
                }
                let mut m = String::from_str("Egg '");
                m.append(self.id.as_str());
                m.append("' references missing species '");
                m.append(sid.as_str());
                m.append("'");
                return Some(m);
            }
            i += 1;
        }
        assert(self.possible_species@.take(i as int) =~= self.possible_species@);
        None
    }
}

/// Whether an egg type with this id is defined.
pub open spec fn egg_present(data: GameData) -> spec_fn(Seq<char>) -> bool {
    |id: Seq<char>| data.spec_egg_type(id) is Some
}

pub open spec fn floor_name(floor: TowerFloorDefinition) -> Seq<char> {
    "Tower floor "@ + decimal(floor.floor as nat)
}

/// What is wrong with a floor's guardian or its egg types, if anything.
pub open spec fn floor_tail_problem(data: GameData, floor: TowerFloorDefinition) -> Option<Seq<char>> {
    let name = floor_name(floor);
    let eggs = match first_absent(floor.egg_types@, egg_present(data)) {
        Some(i) => Some(name + " references missing egg type '"@ + floor.egg_types@[i]@ + "'"@),
        None => None,
    };
    if floor.guardian_enemy_id@.len() > 0 {
        match data.spec_enemy(floor.guardian_enemy_id@) {
            None => Some(name + " references missing guardian '"@ + floor.guardian_enemy_id@ + "'"@),
            Some(e) => if !e.is_boss || e.min_floor > floor.floor || e.max_floor < floor.floor {
                Some(name + " guardian '"@ + floor.guardian_enemy_id@ + "' is not an eligible boss"@)
            } else if floor.guardian_egg_type_id@.len() == 0 || data.spec_egg_type(floor.guardian_egg_type_id@) is None {
                Some(name + " guardian needs a valid egg reward '"@ + floor.guardian_egg_type_id@ + "'"@)
            } else {
                eggs
            },
        }
    } else {
        eggs
    }
}

fn check_absent_eggs(data: &GameData, subject: &String, ids: &Vec<String>) -> (r: Option<String>)
    ensures
        match first_absent(ids@, egg_present(*data)) {
            Some(i) => r matches Some(s) && s@ == subject@ + " references missing egg type '"@ + ids@[i]@ + "'"@,
            None => r is None,
        },
{
    let ghost present = egg_present(*data);
    let mut i: usize = 0;
    while i < ids.len()
        invariant
            i <= ids@.len(),
            present == egg_present(*data),
            first_absent(ids@.take(i as int), present) is None,
        decreases ids.len() - i,
    {
        assert(ids@.take(i as int + 1).drop_last() =~= ids@.take(i as int));
        if data.egg_type(ids[i].as_str()).is_none() {
            proof {
                assert(first_absent(ids@.take(i as int + 1), present) == Some(i as int));
                lemma_first_absent_prefix(ids@, present, i as int + 1);
            }
            let mut m = subject.clone();
            m.append(" references missing egg type '");
            m.append(ids[i].as_str());
            m.append("'");
            return Some(m);
        }
        i += 1;
    }
    assert(ids@.take(i as int) =~= ids@);
    None
}

fn floor_tail(data: &GameData, floor: &TowerFloorDefinition, name: &String) -> (r: Option<String>)
    requires
        name@ == floor_name(*floor),
    ensures
        match floor_tail_problem(*data, *floor) {
            Some(m) => r matches Some(s) && s@ == m,
            None => r is None,
        },
{
    if floor.guardian_enemy_id.as_str().unicode_len() > 0 {
        match data.enemy(floor.guardian_enemy_id.as_str()) {
            None => {
                let mut m = name.clone();
                m.append(" references missing guardian '");
                m.append(floor.guardian_enemy_id.as_str());
                m.append("'");
                return Some(m);
            },
            Some(e) => {
                if !e.is_boss || e.min_floor > floor.floor || e.max_floor < floor.floor {
                    let mut m = name.clone();
                    m.append(" guardian '");
                    m.append(floor.guardian_enemy_id.as_str());
                    m.append("' is not an eligible boss");
                    return Some(m);
                }
                if floor.guardian_egg_type_id.as_str().unicode_len() == 0 || data.egg_type(floor.guardian_egg_type_id.as_str()).is_none() {
                    let mut m = name.clone();
                    m.append(" guardian needs a valid egg reward '");
                    m.append(floor.guardian_egg_type_id.as_str());
                    m.append("'");
                    return Some(m);
                }
            },
        }
    }
    check_absent_eggs(data, name, &floor.egg_types)
}

impl Checked for TowerFloorDefinition {
    open spec fn problem(&self, data: GameData) -> Option<Seq<char>> {
        if self.pressure_limit == 0 {
            Some(floor_name(*self) + " has a zero pressure limit"@)
        } else {
            match missing_resource(data, floor_name(*self) + " references missing resource '"@, self.loot@) {
                Some(m) => Some(m),
                None => floor_tail_problem(data, *self),
            }
        }
    }

    fn find_problem(&self, data: &GameData) -> (r: Option<String>) {
        let mut name = String::from_str("Tower floor ");
        let n = decimal_text(self.floor as u64);
        name.append(n.as_str());
        if self.pressure_limit == 0 {
            let mut m = name;
            m.append(" has a zero pressure limit");
            return Some(m);
        }
        let mut lead = name.clone();
        lead.append(" references missing resource '");
        match check_missing_resource(data, &lead, &self.loot) {
            Some(m) => Some(m),
            None => floor_tail(data, self, &name),
        }
    }
}

impl Checked for TowerAnomalyDefinition {
    open spec fn problem(&self, data: GameData) -> Option<Seq<char>> {
        if self.min_floor == 0 || self.max_floor < self.min_floor || self.visual_index >= 6 {
            Some("Tower anomaly '"@ + self.id@ + "' has an invalid floor range or visual index"@)
        } else {
            None
        }
    }

    fn find_problem(&self, data: &GameData) -> (r: Option<String>) {
        if self.min_floor == 0 || self.max_floor < self.min_floor || self.visual_index >= 6 {
            let mut m = String::from_str("Tower anomaly '");
            m.append(self.id.as_str());
            m.append("' has an invalid floor range or visual index");
            Some(m)
        } else {
            None
        }
    }
}

fn enemy_line(id: &String, tail: &str) -> (s: String)
    ensures
        s@ == "Enemy '"@ + id@ + tail@,
{
    let mut s = String::from_str("Enemy '");
    s.append(id.as_str());
    s.append(tail);
    s
}

impl Checked for EnemyDefinition {
    open spec fn problem(&self, data: GameData) -> Option<Seq<char>> {
        if self.min_floor == 0 || self.max_floor < self.min_floor {
            Some("Enemy '"@ + self.id@ + "' has an invalid floor range"@)
        } else if self.max_hp <= 0 {
            Some("Enemy '"@ + self.id@ + "' must have positive HP"@)
        } else if self.pack_size < 1 || self.pack_size > 3 {
            Some("Enemy '"@ + self.id@ + "' must use a pack size from 1 to 3"@)
        } else {
            missing_resource(data, "Enemy '"@ + self.id@ + "' references missing reward resource '"@, self.rewards@)
        }
    }

    fn find_problem(&self, data: &GameData) -> (r: Option<String>) {
        if self.min_floor == 0 || self.max_floor < self.min_floor {
            return Some(enemy_line(&self.id, "' has an invalid floor range"));
        }
        if self.max_hp <= 0 {
            return Some(enemy_line(&self.id, "' must have positive HP"));
        }
        if self.pack_size < 1 || self.pack_size > 3 {
            return Some(enemy_line(&self.id, "' must use a pack size from 1 to 3"));
        }
        let lead = enemy_line(&self.id, "' references missing reward resource '");
        check_missing_resource(data, &lead, &self.rewards)
    }
}

/// Whether a tower event with this id is defined.
pub open spec fn event_present(data: GameData) -> spec_fn(Seq<char>) -> bool {
    |id: Seq<char>| data.spec_tower_event(id) is Some
}

fn location_line(id: &String, tail: &str) -> (s: String)
    ensures
        s@ == "Tower special location '"@ + id@ + tail@,
{
    let mut s = String::from_str("Tower special location '");
    s.append(id.as_str());
    s.append(tail);
    s
}

impl Checked for TowerSpecialLocationDefinition {
    open spec fn problem(&self, data: GameData) -> Option<Seq<char>> {
        if self.min_floor == 0 || self.max_floor < self.min_floor {
            Some("Tower special location '"@ + self.id@ + "' has an invalid floor range"@)
        } else if self.event_ids@.len() == 0 {
            Some("Tower special location '"@ + self.id@ + "' needs at least one event"@)
        } else {
            match first_absent(self.event_ids@, event_present(data)) {
                Some(i) => Some("Tower special location '"@ + self.id@ + "' references missing event '"@ + self.event_ids@[i]@ + "'"@),
                None => None,
            }
        }
    }

    fn find_problem(&self, data: &GameData) -> (r: Option<String>) {
        if self.min_floor == 0 || self.max_floor < self.min_floor {
            return Some(location_line(&self.id, "' has an invalid floor range"));
        }
        if self.event_ids.len() == 0 {
            return Some(location_line(&self.id, "' needs at least one event"));
        }
        let ghost present = event_present(*data);
        let mut i: usize = 0;
        while i < self.event_ids.len()
            invariant
                i <= self.event_ids@.len(),
                present == event_present(*data),
                !(self.min_floor == 0 || self.max_floor < self.min_floor),
                self.event_ids@.len() != 0,
                first_absent(self.event_ids@.take(i as int), present) is None,
            decreases self.event_ids.len() - i,
        {
            assert(self.event_ids@.take(i as int + 1).drop_last() =~= self.event_ids@.take(i as int));
            if data.tower_event(self.event_ids[i].as_str()).is_none() {
                proof {
                    assert(first_absent(self.event_ids@.take(i as int + 1), present) == Some(i as int));
                    lemma_first_absent_prefix(self.event_ids@, present, i as int + 1);
                }
                let mut m = location_line(&self.id, "' references missing event '");
                m.append(self.event_ids[i].as_str());
                m.append("'");
                proof {
                    assert(m@ =~= "Tower special location '"@ + self.id@ + "' references missing event '"@ + self.event_ids@[i as int]@ + "'"@);
                }
                return Some(m);
            }
            i += 1;
        }
        assert(self.event_ids@.take(i as int) =~= self.event_ids@);
        None
    }
}

fn event_line(id: &String, tail: &str, other: &String) -> (s: String)
    ensures
        s@ == "Tower event '"@ + id@ + tail@ + other@ + "'"@,
{
    let mut s = String::from_str("Tower event '");
    s.append(id.as_str());
    s.append(tail);
    s.append(other.as_str());
    s.append("'");
    s
}

impl Checked for TowerEventDefinition {
    open spec fn problem(&self, data: GameData) -> Option<Seq<char>> {
        match stack_problem(data, self.rewards@, "tower event"@, self.id@) {
            Some(m) => Some(m),
            None => match stack_problem(data, self.cargo_costs@, "tower event cost"@, self.id@) {
                Some(m) => Some(m),
                None => if self.enemy_id@.len() > 0 && data.spec_enemy(self.enemy_id@) is None {
                    Some("Tower event '"@ + self.id@ + "' references missing enemy '"@ + self.enemy_id@ + "'"@)
                } else if self.egg_type_id@.len() > 0 && data.spec_egg_type(self.egg_type_id@) is None {
                    Some("Tower event '"@ + self.id@ + "' references missing egg type '"@ + self.egg_type_id@ + "'"@)
                } else {
                    None
                },
            },
        }
    }

    fn find_problem(&self, data: &GameData) -> (r: Option<String>) {
        match check_stacks(data, &self.rewards, "tower event", self.id.as_str()) {
            Some(m) => {
                return Some(m);
            },
            None => {},
        }
        match check_stacks(data, &self.cargo_costs, "tower event cost", self.id.as_str()) {
            Some(m) => {
                return Some(m);
            },
            None => {},
        }
        if self.enemy_id.as_str().unicode_len() > 0 && data.enemy(self.enemy_id.as_str()).is_none() {
            return Some(event_line(&self.id, "' references missing enemy '", &self.enemy_id));
        }
        if self.egg_type_id.as_str().unicode_len() > 0 && data.egg_type(self.egg_type_id.as_str()).is_none() {
            return Some(event_line(&self.id, "' references missing egg type '", &self.egg_type_id));
        }
        None
    }
}

impl Checked for TowerHazardDefinition {
    open spec fn problem(&self, data: GameData) -> Option<Seq<char>> {
        if self.min_floor == 0 || self.max_floor < self.min_floor || self.damage < 0 {
            Some("Tower hazard '"@ + self.id@ + "' has invalid bounds"@)
        } else {
            stack_problem(data, self.counter_rewards@, "tower hazard"@, self.id@)
        }
    }

    fn find_problem(&self, data: &GameData) -> (r: Option<String>) {
        if self.min_floor == 0 || self.max_floor < self.min_floor || self.damage < 0 {
            let mut m = String::from_str("Tower hazard '");
            m.append(self.id.as_str());
            m.append("' has invalid bounds");
            return Some(m);
        }
        check_stacks(data, &self.counter_rewards, "tower hazard", self.id.as_str())
    }
}

impl Checked for TowerContractDefinition {
    open spec fn problem(&self, data: GameData) -> Option<Seq<char>> {
        if self.target_amount == 0 || self.rewards@.len() == 0 {
            Some("Tower contract '"@ + self.id@ + "' needs a target and rewards"@)
        } else {
            stack_problem(data, self.rewards@, "tower contract"@, self.id@)
        }
    }

    fn find_problem(&self, data: &GameData) -> (r: Option<String>) {
        if self.target_amount == 0 || self.rewards.len() == 0 {
            let mut m = String::from_str("Tower contract '");
            m.append(self.id.as_str());
            m.append("' needs a target and rewards");
            return Some(m);
        }
        check_stacks(data, &self.rewards, "tower contract", self.id.as_str())
    }
}

/// The contracts every goal relies on.
pub open spec fn required_contracts() -> Seq<Seq<char>> {
    seq!["balanced"@, "egg_hunt"@, "salvage"@, "scout"@, "push_deeper"@, "safe_run"@]
}

/// The first required contract that is not defined.
pub open spec fn first_missing_contract(data: GameData, n: int) -> Option<int>
    decreases n,
{
    if n <= 0 {
        None
    } else {
        match first_missing_contract(data, n - 1) {
            Some(i) => Some(i),
            None => if data.spec_tower_contract(required_contracts()[n - 1]) is None { Some(n - 1) } else { None },
        }
    }
}

pub open spec fn contract_problem(data: GameData) -> Option<Seq<char>> {
    match first_missing_contract(data, 6) {
        Some(i) => Some("Missing tower contract '"@ + required_contracts()[i] + "'"@),
        None => None,
    }
}

fn check_required_contracts(data: &GameData) -> (r: Option<String>)
    ensures
        match contract_problem(*data) {
            Some(m) => r matches Some(s) && s@ == m,
            None => r is None,
        },
{
    let ids: [&str; 6] = ["balanced", "egg_hunt", "salvage", "scout", "push_deeper", "safe_run"];
    proof {
        reveal_strlit("balanced");
        reveal_strlit("egg_hunt");
        reveal_strlit("salvage");
        reveal_strlit("scout");
        reveal_strlit("push_deeper");
        reveal_strlit("safe_run");
        assert(ids@.map_values(|s: &str| s@) =~= required_contracts());
    }
    let mut i: usize = 0;
    while i < 6
        invariant
            i <= 6,
            ids@.map_values(|s: &str| s@) == required_contracts(),
            first_missing_contract(*data, i as int) is None,
        decreases 6 - i,
    {
        assert(ids@.map_values(|s: &str| s@)[i as int] == ids@[i as int]@);
        if data.tower_contract(ids[i]).is_none() {
            proof {
                assert(first_missing_contract(*data, i as int + 1) == Some(i as int));
                lemma_missing_contract_prefix(*data, i as int + 1);
            }
            let mut m = String::from_str("Missing tower contract '");
            m.append(ids[i]);
            m.append("'");
            return Some(m);
        }
        i += 1;
    }
    None
}

pub proof fn lemma_missing_contract_prefix(data: GameData, n: int)
    requires
        0 <= n <= 6,
        first_missing_contract(data, n) is Some,
    ensures
        first_missing_contract(data, 6) == first_missing_contract(data, n),
    decreases 6 - n,
{
    if n < 6 {
        lemma_missing_contract_prefix(data, n + 1);
    }
}

/// A stat curve is valid when every level adds health and no stat shrinks,
/// and speed rises on a positive interval.
pub open spec fn curve_valid(c: MonsterStatCurveDefinition) -> bool {
    !(c.hp_per_level <= 0 || c.attack_per_level < 0 || c.defense_per_level < 0 || c.speed_per_interval < 0
        || c.speed_interval == 0)
}

impl Checked for MonsterSpeciesDefinition {
    open spec fn problem(&self, data: GameData) -> Option<Seq<char>> {
        match lookup(data.balance.monster_stat_curves@, self.id@) {
            None => Some("Missing stat curve for species '"@ + self.id@ + "'"@),
            Some(c) => if !curve_valid(c) { Some("Invalid stat curve for species '"@ + self.id@ + "'"@) } else { None },
        }
    }

    fn find_problem(&self, data: &GameData) -> (r: Option<String>) {
        match data.stat_curve(self.id.as_str()) {
            None => {
                let mut m = String::from_str("Missing stat curve for species '");
                m.append(self.id.as_str());
                m.append("'");
                Some(m)
            },
            Some(c) => {
                if c.hp_per_level <= 0 || c.attack_per_level < 0 || c.defense_per_level < 0 || c.speed_per_interval < 0
                    || c.speed_interval == 0 {
                    let mut m = String::from_str("Invalid stat curve for species '");
                    m.append(self.id.as_str());
                    m.append("'");
                    Some(m)
                } else {
                    None
                }
            },
        }
    }
}

impl Checked for CombatCooldownDefinition {
    open spec fn problem(&self, data: GameData) -> Option<Seq<char>> {
        if self.id@ != "skill"@ && self.id@ != "item"@ {
            Some("Unknown combat cooldown '"@ + self.id@ + "'"@)
        } else if self.turns > 10 {
            Some("Combat cooldown '"@ + self.id@ + "' is too long"@)
        } else {
            None
        }
    }

    fn find_problem(&self, data: &GameData) -> (r: Option<String>) {
        if !crate::text::same_text(self.id.as_str(), "skill") && !crate::text::same_text(self.id.as_str(), "item") {
            let mut m = String::from_str("Unknown combat cooldown '");
            m.append(self.id.as_str());
            m.append("'");
            return Some(m);
        }
        if self.turns > 10 {
            let mut m = String::from_str("Combat cooldown '");
            m.append(self.id.as_str());
            m.append("' is too long");
            return Some(m);
        }
        None
    }
}

impl Checked for ShopTradeDefinition {
    open spec fn problem(&self, data: GameData) -> Option<Seq<char>> {
        if self.cost@.len() == 0 || self.reward@.len() == 0 {
            Some("Shop trade '"@ + self.id@ + "' needs cost and reward"@)
        } else {
            match stack_problem(data, self.cost@, "shop trade"@, self.id@) {
                Some(m) => Some(m),
                None => stack_problem(data, self.reward@, "shop trade"@, self.id@),
            }
        }
    }

    fn find_problem(&self, data: &GameData) -> (r: Option<String>) {
        if self.cost.len() == 0 || self.reward.len() == 0 {
            let mut m = String::from_str("Shop trade '");
            m.append(self.id.as_str());
            m.append("' needs cost and reward");
            return Some(m);
        }
        match check_stacks(data, &self.cost, "shop trade", self.id.as_str()) {
            Some(m) => Some(m),
            None => check_stacks(data, &self.reward, "shop trade", self.id.as_str()),
        }
    }
}

impl Checked for TowerRewardDefinition {
    open spec fn problem(&self, data: GameData) -> Option<Seq<char>> {
        if data.spec_tower_floor(self.floor) is None {
            Some("Tower reward references missing floor "@ + decimal(self.floor as nat))
        } else {
            stack_problem(data, self.rewards@, "tower reward"@, decimal(self.floor as nat))
        }
    }

    fn find_problem(&self, data: &GameData) -> (r: Option<String>) {
        let n = decimal_text(self.floor as u64);
        if data.tower_floor(self.floor).is_none() {
            let mut m = String::from_str("Tower reward references missing floor ");
            m.append(n.as_str());
            return Some(m);
        }
        check_stacks(data, &self.rewards, "tower reward", n.as_str())
    }
}

/// The first of two reports that has something to say.
pub open spec fn either(a: Option<Seq<char>>, b: Option<Seq<char>>) -> Option<Seq<char>> {
    if a is Some { a } else { b }
}

/// The first problem with loaded content, checked in this order: the
/// starter species, buildings, egg types, floors, anomalies, enemies,
/// landmarks, events, hazards, contracts, the goal contracts, one stat curve
/// per species, cooldowns, shop trades and floor rewards.
pub open spec fn validation_problem(data: GameData) -> Option<Seq<char>> {
    if data.spec_species(data.config.starter_species_id@) is None {
        Some("Starter species '"@ + data.config.starter_species_id@ + "' does not exist"@)
    } else {
        either(first_problem(data.buildings@, data),
        either(first_problem(data.egg_types@, data),
        either(first_problem(data.tower_floors@, data),
        either(first_problem(data.tower_anomalies@, data),
        either(first_problem(data.enemies@, data),
        either(first_problem(data.tower_special_locations@, data),
        either(first_problem(data.tower_events@, data),
        either(first_problem(data.tower_hazards@, data),
        either(first_problem(data.tower_contracts@, data),
        either(contract_problem(data),
        either(if data.balance.monster_stat_curves@.len() != data.monster_species@.len() {
                Some("Every monster species must have exactly one stat curve"@)
            } else {
                None
            },
        either(first_problem(data.monster_species@, data),
        either(first_problem(data.balance.combat_cooldowns@, data),
        either(first_problem(data.balance.shop_trades@, data),
        first_problem(data.balance.tower_rewards@, data)))))))))))))))
    }
}

/// When no item of `items` has a problem, each item is free of problems.
pub proof fn lemma_first_problem_none<T: Checked>(items: Seq<T>, data: GameData)
    requires
        first_problem(items, data) is None,
    ensures
        forall|i: int| 0 <= i < items.len() ==> (#[trigger] items[i]).problem(data) is None,
    decreases items.len(),
{
    if items.len() > 0 {
        let prefix = items.drop_last();
        lemma_first_problem_none(prefix, data);
        assert forall|i: int| 0 <= i < items.len() implies (#[trigger] items[i]).problem(data) is None by {
            if i < prefix.len() {
                assert(items[i] == prefix[i]);
            }
        }
    }
}

/// When no entry of `costs` names a missing resource, every entry names a defined one.
pub proof fn lemma_missing_resource_none(data: GameData, subject: Seq<char>, costs: Seq<ResourceAmount>)
    requires
        missing_resource(data, subject, costs) is None,
    ensures
        forall|i: int| 0 <= i < costs.len() ==> has_resource(data, (#[trigger] costs[i]).resource_id@),
    decreases costs.len(),
{
    if costs.len() > 0 {
        let prefix = costs.drop_last();
        lemma_missing_resource_none(data, subject, prefix);
        assert forall|i: int| 0 <= i < costs.len() implies has_resource(data, (#[trigger] costs[i]).resource_id@) by {
            if i < prefix.len() {
                assert(costs[i] == prefix[i]);
            }
        }
    }
}

/// When none of the first `n` goal contracts is missing, each of them is defined.
pub proof fn lemma_missing_contract_none(data: GameData, n: int)
    requires
        0 <= n <= 6,
        first_missing_contract(data, n) is None,
    ensures
        forall|k: int| 0 <= k < n ==> data.spec_tower_contract(#[trigger] required_contracts()[k]) is Some,
    decreases n,
{
    if n > 0 {
        lemma_missing_contract_none(data, n - 1);
    }
}

/// Content that passes validation has what the rest of the game relies on:
/// the starter species; no problem in any building, egg type, floor,
/// anomaly, enemy, landmark, event, hazard, contract, species, cooldown,
/// shop trade or floor reward; enemies with a sound floor range, positive
/// health, packs of one to three and rewards of defined resources; floors
/// with a positive pressure limit and loot of defined resources; contracts
/// with a target and rewards; every goal contract; one valid stat curve per
/// species; and cooldowns named "skill" or "item" of at most ten turns.
pub proof fn law_accepted_content(data: GameData)
    requires
        validation_problem(data) is None,
    ensures
        data.spec_species(data.config.starter_species_id@) is Some,
        forall|i: int| 0 <= i < data.buildings@.len() ==> (#[trigger] data.buildings@[i]).problem(data) is None,
        forall|i: int| 0 <= i < data.egg_types@.len() ==> (#[trigger] data.egg_types@[i]).problem(data) is None,
        forall|i: int| 0 <= i < data.tower_floors@.len() ==> (#[trigger] data.tower_floors@[i]).problem(data) is None,
        forall|i: int| 0 <= i < data.tower_anomalies@.len() ==> (#[trigger] data.tower_anomalies@[i]).problem(data) is None,
        forall|i: int| 0 <= i < data.enemies@.len() ==> (#[trigger] data.enemies@[i]).problem(data) is None,
        forall|i: int| 0 <= i < data.tower_special_locations@.len() ==> (#[trigger] data.tower_special_locations@[i]).problem(data) is None,
        forall|i: int| 0 <= i < data.tower_events@.len() ==> (#[trigger] data.tower_events@[i]).problem(data) is None,
        forall|i: int| 0 <= i < data.tower_hazards@.len() ==> (#[trigger] data.tower_hazards@[i]).problem(data) is None,
        forall|i: int| 0 <= i < data.tower_contracts@.len() ==> (#[trigger] data.tower_contracts@[i]).problem(data) is None,
        forall|i: int| 0 <= i < data.monster_species@.len() ==> (#[trigger] data.monster_species@[i]).problem(data) is None,
        forall|i: int| 0 <= i < data.balance.combat_cooldowns@.len() ==> (#[trigger] data.balance.combat_cooldowns@[i]).problem(data) is None,
        forall|i: int| 0 <= i < data.balance.shop_trades@.len() ==> (#[trigger] data.balance.shop_trades@[i]).problem(data) is None,
        forall|i: int| 0 <= i < data.balance.tower_rewards@.len() ==> (#[trigger] data.balance.tower_rewards@[i]).problem(data) is None,
        forall|i: int| #![trigger data.enemies@[i]] 0 <= i < data.enemies@.len() ==> {
            let e = data.enemies@[i];
            &&& 1 <= e.min_floor <= e.max_floor
            &&& e.max_hp > 0
            &&& 1 <= e.pack_size <= 3
            &&& forall|j: int| 0 <= j < e.rewards@.len() ==> has_resource(data, (#[trigger] e.rewards@[j]).resource_id@)
        },
        forall|i: int| #![trigger data.tower_floors@[i]] 0 <= i < data.tower_floors@.len() ==> {
            let f = data.tower_floors@[i];
            &&& f.pressure_limit > 0
            &&& forall|j: int| 0 <= j < f.loot@.len() ==> has_resource(data, (#[trigger] f.loot@[j]).resource_id@)
        },
        forall|i: int| #![trigger data.tower_contracts@[i]] 0 <= i < data.tower_contracts@.len()
            ==> data.tower_contracts@[i].target_amount > 0 && data.tower_contracts@[i].rewards@.len() > 0,
        forall|k: int| 0 <= k < 6 ==> data.spec_tower_contract(#[trigger] required_contracts()[k]) is Some,
        data.balance.monster_stat_curves@.len() == data.monster_species@.len(),
        forall|i: int| #![trigger data.monster_species@[i]] 0 <= i < data.monster_species@.len()
            ==> (lookup(data.balance.monster_stat_curves@, data.monster_species@[i].id@) matches Some(c) && curve_valid(c)),
        forall|i: int| #![trigger data.balance.combat_cooldowns@[i]] 0 <= i < data.balance.combat_cooldowns@.len() ==> {
            let c = data.balance.combat_cooldowns@[i];
            (c.id@ == "skill"@ || c.id@ == "item"@) && c.turns <= 10
        },
{
    lemma_first_problem_none(data.buildings@, data);
    lemma_first_problem_none(data.egg_types@, data);
    lemma_first_problem_none(data.tower_floors@, data);
    lemma_first_problem_none(data.tower_anomalies@, data);
    lemma_first_problem_none(data.enemies@, data);
    lemma_first_problem_none(data.tower_special_locations@, data);
    lemma_first_problem_none(data.tower_events@, data);
    lemma_first_problem_none(data.tower_hazards@, data);
    lemma_first_problem_none(data.tower_contracts@, data);
    lemma_first_problem_none(data.monster_species@, data);
    lemma_first_problem_none(data.balance.combat_cooldowns@, data);
    lemma_first_problem_none(data.balance.shop_trades@, data);
    lemma_first_problem_none(data.balance.tower_rewards@, data);
    lemma_missing_contract_none(data, 6);
    assert forall|i: int| #![trigger data.enemies@[i]] 0 <= i < data.enemies@.len() implies {
        let e = data.enemies@[i];
        &&& 1 <= e.min_floor <= e.max_floor
        &&& e.max_hp > 0
        &&& 1 <= e.pack_size <= 3
        &&& forall|j: int| 0 <= j < e.rewards@.len() ==> has_resource(data, (#[trigger] e.rewards@[j]).resource_id@)
    } by {
        let e = data.enemies@[i];
        assert(e.problem(data) is None);
        lemma_missing_resource_none(data, "Enemy '"@ + e.id@ + "' references missing reward resource '"@, e.rewards@);
    }
    assert forall|i: int| #![trigger data.tower_floors@[i]] 0 <= i < data.tower_floors@.len() implies {
        let f = data.tower_floors@[i];
        &&& f.pressure_limit > 0
        &&& forall|j: int| 0 <= j < f.loot@.len() ==> has_resource(data, (#[trigger] f.loot@[j]).resource_id@)
    } by {
        let f = data.tower_floors@[i];
        assert(f.problem(data) is None);
        lemma_missing_resource_none(data, floor_name(f) + " references missing resource '"@, f.loot@);
    }
    assert forall|i: int| #![trigger data.tower_contracts@[i]] 0 <= i < data.tower_contracts@.len()
        implies data.tower_contracts@[i].target_amount > 0 && data.tower_contracts@[i].rewards@.len() > 0 by {
        assert(data.tower_contracts@[i].problem(data) is None);
    }
    assert forall|i: int| #![trigger data.monster_species@[i]] 0 <= i < data.monster_species@.len()
        implies (lookup(data.balance.monster_stat_curves@, data.monster_species@[i].id@) matches Some(c) && curve_valid(c)) by {
        assert(data.monster_species@[i].problem(data) is None);
    }
    assert forall|i: int| #![trigger data.balance.combat_cooldowns@[i]] 0 <= i < data.balance.combat_cooldowns@.len() implies {
        let c = data.balance.combat_cooldowns@[i];
        (c.id@ == "skill"@ || c.id@ == "item"@) && c.turns <= 10
    } by {
        assert(data.balance.combat_cooldowns@[i].problem(data) is None);
    }
}

/// Checks loaded content and reports its first problem.
pub fn validate(data: &GameData) -> (r: Result<(), String>)
    ensures
        match validation_problem(*data) {
            Some(m) => r matches Err(e) && e@ == m,
            None => r is Ok,
        },
{
    if data.species(data.config.starter_species_id.as_str()).is_none() {
        let mut m = String::from_str("Starter species '");
        m.append(data.config.starter_species_id.as_str());
        m.append("' does not exist");
        return Err(m);
    }
    if let Some(m) = scan(&data.buildings, data) {
        return Err(m);
    }
    if let Some(m) = scan(&data.egg_types, data) {
        return Err(m);
    }
    if let Some(m) = scan(&data.tower_floors, data) {
        return Err(m);
    }
    if let Some(m) = scan(&data.tower_anomalies, data) {
        return Err(m);
    }
    if let Some(m) = scan(&data.enemies, data) {
        return Err(m);
    }
    if let Some(m) = scan(&data.tower_special_locations, data) {
        return Err(m);
    }
    if let Some(m) = scan(&data.tower_events, data) {
        return Err(m);
    }
    if let Some(m) = scan(&data.tower_hazards, data) {
        return Err(m);
    }
    if let Some(m) = scan(&data.tower_contracts, data) {
        return Err(m);
    }
    if let Some(m) = check_required_contracts(data) {
        return Err(m);
    }
    if data.balance.monster_stat_curves.len() != data.monster_species.len() {
        return Err(String::from_str("Every monster species must have exactly one stat curve"));
    }
    if let Some(m) = scan(&data.monster_species, data) {
        return Err(m);
    }
    if let Some(m) = scan(&data.balance.combat_cooldowns, data) {
        return Err(m);
    }
    if let Some(m) = scan(&data.balance.shop_trades, data) {
        return Err(m);
    }
    if let Some(m) = scan(&data.balance.tower_rewards, data) {
        return Err(m);
    }
    Ok(())
}

} // verus!
