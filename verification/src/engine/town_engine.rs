//! Camp capacity: how many eggs the hatchery and how many monsters the stable hold.

use vstd::prelude::*;
use crate::state::game::GameState;

verus! {

pub open spec fn spec_egg_capacity(hatchery_level: u32) -> int {
    if hatchery_level == 0 { 0 } else { 1 + 2 * hatchery_level }
}

pub open spec fn spec_monster_capacity(stable_level: u32) -> int {
    3 + 2 * stable_level
}

/// The hatchery holds nothing until it is built, then three eggs, and two
/// more for each further level; the stable holds three monsters, and two
/// more for each level.
pub proof fn law_capacities(level: u32)
    ensures
        spec_egg_capacity(0) == 0,
        level >= 1 ==> spec_egg_capacity(level) == 3 + 2 * (level - 1),
        spec_monster_capacity(0) == 3,
        spec_monster_capacity(level) == 3 + 2 * level,
        level < u32::MAX ==> spec_egg_capacity(level) <= spec_egg_capacity((level + 1) as u32),
{
}

/// Eggs the hatchery can hold: none without a hatchery, then three at level
/// one and two more per further level.
pub fn egg_capacity(state: &GameState) -> (n: u64)
    ensures
        n == spec_egg_capacity(state.town.spec_building_level("hatchery"@)),
{
    proof { reveal_strlit("hatchery"); }
    let level = state.town.building_level("hatchery");
    if level == 0 { 0 } else { 1 + 2 * level as u64 }
}

/// Monsters the stable can house: three, plus two per stable level.
pub fn monster_capacity(state: &GameState) -> (n: u64)
    ensures
        n == spec_monster_capacity(state.town.spec_building_level("stable"@)),
{
    proof { reveal_strlit("stable"); }
    let level = state.town.building_level("stable");
    3 + 2 * level as u64
}

pub fn has_egg_capacity(state: &GameState) -> (r: bool)
    ensures
        r == (state.egg_inventory.eggs@.len() < spec_egg_capacity(state.town.spec_building_level("hatchery"@))),
{
    (state.egg_inventory.eggs.len() as u64) < egg_capacity(state)
}

pub fn has_monster_capacity(state: &GameState) -> (r: bool)
    ensures
        r == (state.monster_roster.monsters@.len() < spec_monster_capacity(state.town.spec_building_level("stable"@))),
{
    (state.monster_roster.monsters.len() as u64) < monster_capacity(state)
}

} // verus!
