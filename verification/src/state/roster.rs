//! Monsters, their daily condition, and the party formation.

use vstd::prelude::*;
use crate::data::schema::{Element, MonsterRole, MonsterSpeciesDefinition, PassiveSkill, Temperament, TownSkill};
use crate::state::keyed::{Numbered, first_numbered, find_numbered, find_record, lemma_first_numbered, lemma_first_numbered_push};

verus! {

/// How many slots the party formation has: three front, three back.
pub const PARTY_SLOTS: usize = 6;

#[derive(Clone, Copy, Debug, PartialEq, Eq, Structural)]
pub enum DailyCommitment {
    Free,
    Tower,
    Breeding,
    Rest,
}

#[derive(Clone, Copy, Debug, PartialEq, Eq, Structural)]
pub struct MonsterCondition {
    pub fatigue: u32,
    pub injury_days: u32,
    pub commitment: DailyCommitment,
}

pub struct MonsterInstance {
    pub id: u64,
    pub name: String,
    pub species_id: String,
    pub element: Element,
    pub temperament: Temperament,
    pub role: MonsterRole,
    pub passive: PassiveSkill,
    pub town_skill: TownSkill,
    pub level: u32,
    pub xp: u32,
    pub hp: i32,
    pub max_hp: i32,
    pub attack: i32,
    pub defense: i32,
    pub speed: i32,
    pub bond: u32,
    pub visual_seed: u64,
    pub condition: MonsterCondition,
}

impl Numbered for MonsterInstance {
    open spec fn number(&self) -> u64 { self.id }
    fn number_value(&self) -> (n: u64) { self.id }
}

/// The stat penalty that fatigue imposes in combat.
pub open spec fn spec_fatigue_penalty(fatigue: u32) -> i32 {
    if fatigue >= 5 { 2 } else if fatigue >= 3 { 1 } else { 0 }
}

impl MonsterInstance {
    pub open spec fn spec_injured(&self) -> bool {
        self.condition.injury_days > 0
    }

    pub open spec fn spec_battle_ready(&self) -> bool {
        !self.spec_injured() && self.hp > 0
    }

    pub fn is_injured(&self) -> (r: bool)
        ensures
            r == self.spec_injured(),
    {
        self.condition.injury_days > 0
    }

    pub fn is_battle_ready(&self) -> (r: bool)
        ensures
            r == self.spec_battle_ready(),
    {
        !self.is_injured() && self.hp > 0
    }

    pub fn fatigue_penalty(&self) -> (r: i32)
        ensures
            r == spec_fatigue_penalty(self.condition.fatigue),
    {
        if self.condition.fatigue >= 5 {
            2
        } else if self.condition.fatigue >= 3 {
            1
        } else {
            0
        }
    }

    /// An exact copy.
    pub fn duplicate(&self) -> (r: Self)
        ensures
            r == *self,
    {
        MonsterInstance {
            id: self.id,
            name: self.name.clone(),
            species_id: self.species_id.clone(),
            element: self.element,
            temperament: self.temperament,
            role: self.role,
            passive: self.passive,
            town_skill: self.town_skill,
            level: self.level,
            xp: self.xp,
            hp: self.hp,
            max_hp: self.max_hp,
            attack: self.attack,
            defense: self.defense,
            speed: self.speed,
            bond: self.bond,
            visual_seed: self.visual_seed,
            condition: self.condition,
        }
    }

    /// A fresh level-one monster of `species`.
    pub fn from_species(id: u64, name: String, species: &MonsterSpeciesDefinition, seed: u64) -> (m: Self)
        ensures
            m.id == id,
            m.name == name,
            m.species_id@ == species.id@,
            m.element == species.element,
            m.temperament == species.temperament,
            m.role == species.role,
            m.passive == species.passive,
            m.town_skill == species.town_skill,
            m.level == 1,
            m.xp == 0,
            m.hp == species.base_hp,
            m.max_hp == species.base_hp,
            m.attack == species.base_attack,
            m.defense == species.base_defense,
            m.speed == species.base_speed,
            m.bond == 1,
            m.visual_seed == seed,
            m.condition == (MonsterCondition { fatigue: 0, injury_days: 0, commitment: DailyCommitment::Free }),
    {
        MonsterInstance {
            id,
            name,
            species_id: species.id.clone(),
            element: species.element,
            temperament: species.temperament,
            role: species.role,
            passive: species.passive,
            town_skill: species.town_skill,
            level: 1,
            xp: 0,
            hp: species.base_hp,
            max_hp: species.base_hp,
            attack: species.base_attack,
            defense: species.base_defense,
            speed: species.base_speed,
            bond: 1,
            visual_seed: seed,
            condition: MonsterCondition { fatigue: 0, injury_days: 0, commitment: DailyCommitment::Free },
        }
    }
}

pub struct MonsterRoster {
    pub monsters: Vec<MonsterInstance>,
    pub party_slots: Vec<Option<u64>>,
    pub next_id: u64,
}

impl MonsterRoster {
    pub open spec fn spec_monster(&self, id: u64) -> Option<MonsterInstance> {
        find_record(self.monsters@, id)
    }

    pub open spec fn spec_position(&self, id: u64) -> Option<int> {
        first_numbered(self.monsters@, id)
    }

    /// An empty roster with an empty six-slot formation.
    pub fn new() -> (r: Self)
        ensures
            r.monsters@.len() == 0,
            r.party_slots@ == seq![None::<u64>, None, None, None, None, None],
            r.next_id == 1,
    {
        let mut party_slots: Vec<Option<u64>> = Vec::new();
        party_slots.push(None);
        party_slots.push(None);
        party_slots.push(None);
        party_slots.push(None);
        party_slots.push(None);
        party_slots.push(None);
        MonsterRoster { monsters: Vec::new(), party_slots, next_id: 1 }
    }

    /// Where the monster with `id` sits in the roster.
    pub fn position(&self, id: u64) -> (r: Option<usize>)
        ensures
            match r {
                Some(i) => self.spec_position(id) == Some(i as int),
                None => self.spec_position(id) == None::<int>,
            },
            r matches Some(i) ==> i < self.monsters.len() && self.monsters@[i as int].id == id,
    {
        find_numbered(&self.monsters, id)
    }

    pub fn monster(&self, id: u64) -> (r: Option<&MonsterInstance>)
        ensures
            match r {
                Some(m) => self.spec_monster(id) == Some(*m),
                None => self.spec_monster(id) is None,
            },
    {
        match find_numbered(&self.monsters, id) {
            Some(i) => Some(&self.monsters[i]),
            None => None,
        }
    }

    /// Adds a fresh monster of `species` under the next free id and returns that id.
    pub fn add_monster(&mut self, name: String, species: &MonsterSpeciesDefinition, seed: u64) -> (id: u64)
        ensures
            id == old(self).next_id,
            final(self).next_id == if old(self).next_id == u64::MAX { u64::MAX } else { (old(self).next_id + 1) as u64 },
            final(self).party_slots == old(self).party_slots,
            final(self).monsters@.len() == old(self).monsters@.len() + 1,
            final(self).monsters@.drop_last() == old(self).monsters@,
            final(self).monsters@.last().id == id,
            final(self).monsters@.last().name == name,
            final(self).monsters@.last().species_id@ == species.id@,
            final(self).monsters@.last().element == species.element,
            final(self).monsters@.last().temperament == species.temperament,
            final(self).monsters@.last().role == species.role,
            final(self).monsters@.last().passive == species.passive,
            final(self).monsters@.last().town_skill == species.town_skill,
            final(self).monsters@.last().level == 1,
            final(self).monsters@.last().hp == species.base_hp,
            final(self).monsters@.last().max_hp == species.base_hp,
            final(self).monsters@.last().attack == species.base_attack,
            final(self).monsters@.last().defense == species.base_defense,
            final(self).monsters@.last().speed == species.base_speed,
            final(self).monsters@.last().bond == 1,
            final(self).monsters@.last().xp == 0,
            final(self).monsters@.last().visual_seed == seed,
            final(self).monsters@.last().condition == (MonsterCondition { fatigue: 0, injury_days: 0, commitment: DailyCommitment::Free }),
    {
        let id = self.next_id;
        let monster = MonsterInstance::from_species(id, name, species, seed);
        self.monsters.push(monster);
        self.next_id = if self.next_id == u64::MAX { u64::MAX } else { self.next_id + 1 };
        proof {
            assert(self.monsters@.drop_last() =~= old(self).monsters@);
        }
        id
    }

    /// Puts `id` into the first empty formation slot.
    pub fn assign_to_party(&mut self, id: u64) -> (r: Result<usize, String>)
        ensures
            final(self).monsters == old(self).monsters,
            final(self).next_id == old(self).next_id,
            r matches Ok(slot) ==> slot < old(self).party_slots@.len(),
            match r {
                Ok(slot) => first_empty_slot(old(self).party_slots@) == Some(slot as int)
                    && final(self).party_slots@ == old(self).party_slots@.update(slot as int, Some(id)),
                Err(message) => first_empty_slot(old(self).party_slots@) is None
                    && final(self).party_slots == old(self).party_slots
                    && message@ == "The party formation is full. Bench a monster first."@,
            },
    {
        let mut i: usize = 0;
        while i < self.party_slots.len()
            invariant
                i <= self.party_slots@.len(),
                forall|j: int| 0 <= j < i ==> self.party_slots@[j] is Some,
                self.monsters == old(self).monsters,
                self.party_slots == old(self).party_slots,
                self.next_id == old(self).next_id,
            decreases self.party_slots.len() - i,
        {
            if self.party_slots[i].is_none() {
                proof {
                    let slots = self.party_slots@;
                    assert(slots[i as int] is None);
                    let c = choose|c: int| 0 <= c < slots.len() && slots[c] is None && forall|j: int| 0 <= j < c ==> slots[j] is Some;
                    assert(0 <= c < slots.len() && slots[c] is None && forall|j: int| 0 <= j < c ==> slots[j] is Some);
                    if c < i {
                        assert(slots[c] is Some);
                    }
                    if c > i {
                        assert(slots[i as int] is Some);
                    }
                    assert(first_empty_slot(slots) == Some(i as int));
                }
                self.party_slots.set(i, Some(id));
                return Ok(i);
            }
            i += 1;
        }
        Err(String::from_str("The party formation is full. Bench a monster first."))
    }

    /// Empties formation slot `slot` and returns the monster that stood there.
    pub fn remove_from_party(&mut self, slot: usize) -> (r: Option<u64>)
        ensures
            final(self).monsters == old(self).monsters,
            final(self).next_id == old(self).next_id,
            r == (if slot < old(self).party_slots@.len() { old(self).party_slots@[slot as int] } else { None }),
            final(self).party_slots@ == if r is Some {
                old(self).party_slots@.update(slot as int, None)
            } else {
                old(self).party_slots@
            },
            r is None ==> *final(self) == *old(self),
    {
        if slot < self.party_slots.len() {
            let current = self.party_slots[slot];
            if current.is_some() {
                self.party_slots.set(slot, None);
            }
            current
        } else {
            None
        }
    }
}

/// The first formation slot that is empty.
pub open spec fn first_empty_slot(slots: Seq<Option<u64>>) -> Option<int> {
    if exists|i: int| 0 <= i < slots.len() && slots[i] is None {
        Some(choose|i: int| 0 <= i < slots.len() && slots[i] is None && forall|j: int| 0 <= j < i ==> slots[j] is Some)
    } else {
        None
    }
}

proof fn lemma_least_empty(slots: Seq<Option<u64>>, i: int)
    requires
        0 <= i < slots.len(),
        slots[i] is None,
    ensures
        exists|k: int| 0 <= k < slots.len() && slots[k] is None && forall|j: int| 0 <= j < k ==> slots[j] is Some,
    decreases i,
{
    if exists|j: int| 0 <= j < i && slots[j] is None {
        let j = choose|j: int| 0 <= j < i && slots[j] is None;
        lemma_least_empty(slots, j);
    } else {
        assert(forall|j: int| 0 <= j < i ==> slots[j] is Some);
    }
}

/// The first empty slot is empty, and every slot before it is taken.
pub proof fn lemma_first_empty_slot(slots: Seq<Option<u64>>)
    ensures
        match first_empty_slot(slots) {
            Some(k) => 0 <= k < slots.len() && slots[k] is None && forall|j: int| 0 <= j < k ==> slots[j] is Some,
            None => forall|j: int| 0 <= j < slots.len() ==> slots[j] is Some,
        },
{
    if exists|i: int| 0 <= i < slots.len() && slots[i] is None {
        let i = choose|i: int| 0 <= i < slots.len() && slots[i] is None;
        lemma_least_empty(slots, i);
    }
}

} // verus!
