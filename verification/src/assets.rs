//! Which art a floor and a room are drawn with: the tower's biomes by floor
//! and each kind's cell in its sprite atlas.

use vstd::prelude::*;

verus! {

#[derive(Clone, Copy, Debug, PartialEq, Eq, Structural)]
pub enum DungeonBiome {
    Moss,
    Flooded,
    Ember,
    Frost,
    Root,
    Void,
}

#[derive(Clone, Copy, Debug, PartialEq, Eq, Structural)]
pub enum DungeonRoomPurpose {
    Camp,
    Cache,
    Encounter,
    Nest,
    Traversal,
    Shrine,
}

/// The biome of a floor: roots on the third floor, ember on the fourth and
/// seventh, flooding on the fifth and eighth, frost on the sixth and ninth,
/// the void at the crown, moss everywhere else.
pub open spec fn spec_biome_for_floor(floor: u32) -> DungeonBiome {
    if floor == 4 || floor == 7 {
        DungeonBiome::Ember
    } else if floor == 5 || floor == 8 {
        DungeonBiome::Flooded
    } else if floor == 6 || floor == 9 {
        DungeonBiome::Frost
    } else if floor == 10 {
        DungeonBiome::Void
    } else if floor == 3 {
        DungeonBiome::Root
    } else {
        DungeonBiome::Moss
    }
}

pub open spec fn spec_biome_index(b: DungeonBiome) -> usize {
    match b {
        DungeonBiome::Moss => 0,
        DungeonBiome::Flooded => 1,
        DungeonBiome::Ember => 2,
        DungeonBiome::Frost => 3,
        DungeonBiome::Root => 4,
        DungeonBiome::Void => 5,
    }
}

pub open spec fn spec_purpose_index(p: DungeonRoomPurpose) -> usize {
    match p {
        DungeonRoomPurpose::Camp => 0,
        DungeonRoomPurpose::Cache => 1,
        DungeonRoomPurpose::Encounter => 2,
        DungeonRoomPurpose::Nest => 3,
        DungeonRoomPurpose::Traversal => 4,
        DungeonRoomPurpose::Shrine => 5,
    }
}

impl DungeonBiome {
    pub fn for_floor(floor: u32) -> (b: Self)
        ensures
            b == spec_biome_for_floor(floor),
    {
        match floor {
            4 | 7 => DungeonBiome::Ember,
            5 | 8 => DungeonBiome::Flooded,
            6 | 9 => DungeonBiome::Frost,
            10 => DungeonBiome::Void,
            3 => DungeonBiome::Root,
            _ => DungeonBiome::Moss,
        }
    }

    /// The biome's cell in the room atlas.
    pub fn atlas_index(self) -> (i: usize)
        ensures
            i == spec_biome_index(self),
    {
        match self {
            DungeonBiome::Moss => 0,
            DungeonBiome::Flooded => 1,
            DungeonBiome::Ember => 2,
            DungeonBiome::Frost => 3,
            DungeonBiome::Root => 4,
            DungeonBiome::Void => 5,
        }
    }
}

impl DungeonRoomPurpose {
    /// The purpose's cell in the room atlas.
    pub fn atlas_index(self) -> (i: usize)
        ensures
            i == spec_purpose_index(self),
    {
        match self {
            DungeonRoomPurpose::Camp => 0,
            DungeonRoomPurpose::Cache => 1,
            DungeonRoomPurpose::Encounter => 2,
            DungeonRoomPurpose::Nest => 3,
            DungeonRoomPurpose::Traversal => 4,
            DungeonRoomPurpose::Shrine => 5,
        }
    }
}

} // verus!
