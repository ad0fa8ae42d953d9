//! Eggs waiting in the hatchery, with their care history and inherited traits.

use vstd::prelude::*;
use crate::data::schema::{Element, PassiveSkill, Temperament};
use crate::state::keyed::{Numbered, first_numbered, find_numbered};

verus! {

#[derive(Clone, Copy, Debug, PartialEq, Eq, Structural)]
pub enum EggCareFocus {
    Idle,
    Warm,
    Soothe,
    Study,
    Stabilise,
}

impl EggCareFocus {
    pub open spec fn spec_label(self) -> Seq<char> {
        match self {
            EggCareFocus::Idle => "Rest"@,
            EggCareFocus::Warm => "Warm"@,
            EggCareFocus::Soothe => "Soothe"@,
            EggCareFocus::Study => "Study"@,
            EggCareFocus::Stabilise => "Stabilise"@,
        }
    }

    /// The player-facing name of the care action.
    pub fn label(self) -> (s: &'static str)
        ensures
            s@ == self.spec_label(),
    {
        match self {
            EggCareFocus::Idle => "Rest",
            EggCareFocus::Warm => "Warm",
            EggCareFocus::Soothe => "Soothe",
            EggCareFocus::Study => "Study",
            EggCareFocus::Stabilise => "Stabilise",
        }
    }
}

/// What a bred egg carries from its parents.
pub struct EggInheritance {
    pub parent_ids: Vec<u64>,
    pub species_options: Vec<String>,
    pub element_options: Vec<Element>,
    pub temperament_options: Vec<Temperament>,
    pub passive_options: Vec<PassiveSkill>,
    pub mutation_floor: u32,
    pub mutated: bool,
    pub lineage_quality: u32,
}

pub struct EggInstance {
    pub id: u64,
    pub egg_type_id: String,
    pub days_remaining: u32,
    pub origin_floor: u32,
    pub palette_seed: u64,
    pub care_focus: EggCareFocus,
    pub care_points: u32,
    pub last_care_day: u32,
    pub studied: bool,
    pub stabilised: bool,
    pub inheritance: Option<EggInheritance>,
}

impl Numbered for EggInstance {
    open spec fn number(&self) -> u64 { self.id }
    fn number_value(&self) -> (n: u64) { self.id }
}

pub struct EggInventory {
    pub eggs: Vec<EggInstance>,
    pub next_id: u64,
}

impl EggInventory {
    pub fn new() -> (r: Self)
        ensures
            r.eggs@.len() == 0,
            r.next_id == 1,
    {
        EggInventory { eggs: Vec::new(), next_id: 1 }
    }

    pub fn position(&self, id: u64) -> (r: Option<usize>)
        ensures
            match r {
                Some(i) => first_numbered(self.eggs@, id) == Some(i as int),
                None => first_numbered(self.eggs@, id) == None::<int>,
            },
            r matches Some(i) ==> i < self.eggs.len() && self.eggs@[i as int].id == id,
    {
        find_numbered(&self.eggs, id)
    }

    /// Stores a new egg under the next free id and returns that id.
    pub fn add_egg(&mut self, egg_type_id: String, hatch_days: u32, origin_floor: u32, palette_seed: u64) -> (id: u64)
        ensures
            id == old(self).next_id,
            final(self).next_id == if old(self).next_id == u64::MAX { u64::MAX } else { (old(self).next_id + 1) as u64 },
            final(self).eggs@ == old(self).eggs@.push(final(self).eggs@.last()),
            final(self).eggs@.last().id == id,
            final(self).eggs@.last().egg_type_id == egg_type_id,
            final(self).eggs@.last().days_remaining == hatch_days,
            final(self).eggs@.last().origin_floor == origin_floor,
            final(self).eggs@.last().palette_seed == palette_seed,
            final(self).eggs@.last().care_focus == EggCareFocus::Idle,
            final(self).eggs@.last().care_points == 0,
            final(self).eggs@.last().last_care_day == 0,
            !final(self).eggs@.last().studied,
            !final(self).eggs@.last().stabilised,
            final(self).eggs@.last().inheritance is None,
    {
        let id = self.next_id;
        self.eggs.push(EggInstance {
            id,
            egg_type_id,
            days_remaining: hatch_days,
            origin_floor,
            palette_seed,
            care_focus: EggCareFocus::Idle,
            care_points: 0,
            last_care_day: 0,
            studied: false,
            stabilised: false,
            inheritance: None,
        });
        self.next_id = if self.next_id == u64::MAX { u64::MAX } else { self.next_id + 1 };
        id
    }

    /// Stores a bred egg that carries `inheritance` and returns its id.
    pub fn add_bred_egg(
        &mut self,
        egg_type_id: String,
        hatch_days: u32,
        origin_floor: u32,
        palette_seed: u64,
        inheritance: EggInheritance,
    ) -> (id: u64)
        ensures
            id == old(self).next_id,
            final(self).next_id == if old(self).next_id == u64::MAX { u64::MAX } else { (old(self).next_id + 1) as u64 },
            final(self).eggs@ == old(self).eggs@.push(final(self).eggs@.last()),
            final(self).eggs@.last().id == id,
            final(self).eggs@.last().egg_type_id == egg_type_id,
            final(self).eggs@.last().days_remaining == hatch_days,
            final(self).eggs@.last().origin_floor == origin_floor,
            final(self).eggs@.last().palette_seed == palette_seed,
            final(self).eggs@.last().care_focus == EggCareFocus::Idle,
            final(self).eggs@.last().care_points == 0,
            final(self).eggs@.last().last_care_day == 0,
            !final(self).eggs@.last().studied,
            !final(self).eggs@.last().stabilised,
            final(self).eggs@.last().inheritance == Some(inheritance),
    {
        let id = self.next_id;
        self.eggs.push(EggInstance {
            id,
            egg_type_id,
            days_remaining: hatch_days,
            origin_floor,
            palette_seed,
            care_focus: EggCareFocus::Idle,
            care_points: 0,
            last_care_day: 0,
            studied: false,
            stabilised: false,
            inheritance: Some(inheritance),
        });
        self.next_id = if self.next_id == u64::MAX { u64::MAX } else { self.next_id + 1 };
        id
    }

    /// Takes the egg with `id` out of the hatchery.
    pub fn remove_egg(&mut self, id: u64) -> (r: Option<EggInstance>)
        ensures
            final(self).next_id == old(self).next_id,
            match first_numbered(old(self).eggs@, id) {
                Some(i) => r == Some(old(self).eggs@[i]) && final(self).eggs@ == old(self).eggs@.remove(i),
                None => r is None && final(self).eggs@ == old(self).eggs@,
            },
    {
        match find_numbered(&self.eggs, id) {
            Some(i) => Some(self.eggs.remove(i)),
            None => None,
        }
    }
}

} // verus!
