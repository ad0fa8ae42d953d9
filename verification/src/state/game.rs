//! The whole save: every piece of live state the engines act on.

use vstd::prelude::*;
use crate::data::game_data::{GameData, Keyed, lookup, keys_unique, lemma_lookup_own_key, lemma_first_keyed, first_keyed};
use crate::data::schema::MonsterSpeciesDefinition;
use crate::state::resources::ResourceLedger;
use crate::state::roster::{MonsterRoster, MonsterInstance, MonsterCondition, DailyCommitment};
use crate::state::eggs::EggInventory;
use crate::state::town::TownState;
use crate::state::tower_run::TowerRunState;
use crate::state::combat::CombatState;
use crate::state::records::{ActivityLog, ActivityEntry, StoryFlags, TowerDiscoveries, TowerProgress};

verus! {

/// The seed that gives the starter monster its look.
pub const STARTER_SEED: u64 = 0x5EED_0001;

pub struct GameState {
    pub day: u32,
    pub resources: ResourceLedger,
    pub monster_roster: MonsterRoster,
    pub egg_inventory: EggInventory,
    pub town: TownState,
    pub tower_run: Option<TowerRunState>,
    pub tower_progress: TowerProgress,
    pub combat: Option<CombatState>,
    pub activity_log: ActivityLog,
    pub story_flags: StoryFlags,
    pub tower_discoveries: TowerDiscoveries,
}

/// The starting amount of a resource under `data`.
pub open spec fn starting_amount(data: GameData, id: Seq<char>) -> int {
    match lookup(data.resources@, id) {
        Some(resource) => resource.starting_amount as int,
        None => 0,
    }
}

/// The starting level of a building under `data`.
pub open spec fn starting_level(data: GameData, id: Seq<char>) -> u32 {
    match lookup(data.buildings@, id) {
        Some(building) => building.starting_level,
        None => 0,
    }
}

/// `m` is the fresh starter monster of species `species` named `name`.
pub open spec fn is_fresh_starter(m: MonsterInstance, species: MonsterSpeciesDefinition, name: String) -> bool {
    &&& m.id == 1
    &&& m.name == name
    &&& m.species_id@ == species.id@
    &&& m.element == species.element
    &&& m.temperament == species.temperament
    &&& m.role == species.role
    &&& m.passive == species.passive
    &&& m.town_skill == species.town_skill
    &&& m.level == 1
    &&& m.xp == 0
    &&& m.hp == species.base_hp
    &&& m.max_hp == species.base_hp
    &&& m.attack == species.base_attack
    &&& m.defense == species.base_defense
    &&& m.speed == species.base_speed
    &&& m.bond == 1
    &&& m.visual_seed == STARTER_SEED
    &&& m.condition == (MonsterCondition { fatigue: 0, injury_days: 0, commitment: DailyCommitment::Free })
}

impl GameState {
    /// A new save: starting day, starting resources and building levels, the
    /// starter monster in the first party slot, and the opening log lines.
    pub fn new(data: &GameData) -> (s: Self)
        requires
            keys_unique(data.resources@),
            keys_unique(data.buildings@),
        ensures
            s.day == data.config.starting_day,
            forall|k: Seq<char>| #[trigger] s.resources.spec_amount(k) == starting_amount(*data, k),
            forall|k: Seq<char>| #[trigger] s.town.spec_building_level(k) == starting_level(*data, k),
            s.town.assignments@.len() == 0,
            match data.spec_species(data.config.starter_species_id@) {
                Some(species) => s.monster_roster.monsters@.len() == 1
                    && is_fresh_starter(s.monster_roster.monsters@[0], species, data.config.starter_name)
                    && s.monster_roster.party_slots@ == seq![Some(1u64), None, None, None, None, None]
                    && s.monster_roster.next_id == 2,
                None => s.monster_roster.monsters@.len() == 0
                    && s.monster_roster.party_slots@ == seq![None::<u64>, None, None, None, None, None]
                    && s.monster_roster.next_id == 1,
            },
            s.egg_inventory.eggs@.len() == 0,
            s.egg_inventory.next_id == 1,
            s.tower_run is None,
            s.combat is None,
            s.tower_progress == (TowerProgress { best_floor: 0, unlocked_floor: 1 }),
            s.activity_log.entries@.len() == data.config.starting_log@.len(),
            forall|i: int| 0 <= i < s.activity_log.entries@.len() ==> s.activity_log.entries@[i]
                == (ActivityEntry { day: data.config.starting_day, text: data.config.starting_log@[i] }),
            s.story_flags.flags@.len() == 0,
            s.tower_discoveries.enemies@.len() == 0,
            s.tower_discoveries.special_locations@.len() == 0,
            s.tower_discoveries.hazards@.len() == 0,
            s.tower_discoveries.events@.len() == 0,
    {
        let day = data.config.starting_day;
        let mut resources = ResourceLedger::new();
        let mut i: usize = 0;
        while i < data.resources.len()
            invariant
                i <= data.resources@.len(),
                keys_unique(data.resources@),
                forall|k: Seq<char>| #[trigger] resources.spec_amount(k) == match lookup(data.resources@.take(i as int), k) {
                    Some(resource) => resource.starting_amount as int,
                    None => 0,
                },
            decreases data.resources.len() - i,
        {
            let ghost before = resources;
            resources.add(data.resources[i].id.as_str(), data.resources[i].starting_amount);
            proof {
                let prev = data.resources@.take(i as int);
                let next = data.resources@.take(i as int + 1);
                assert(next.drop_last() =~= prev);
                assert forall|k: Seq<char>| #[trigger] resources.spec_amount(k) == match lookup(next, k) {
                    Some(resource) => resource.starting_amount as int,
                    None => 0,
                } by {
                    assert(before.spec_amount(k) == match lookup(prev, k) {
                        Some(resource) => resource.starting_amount as int,
                        None => 0,
                    });
                    lemma_first_keyed(prev, k);
                    if k == data.resources@[i as int].id@ {
                        assert forall|j: int| 0 <= j < prev.len() implies prev[j].key() != k by {
                            assert(prev[j] == data.resources@[j]);
                        }
                        assert(first_keyed(prev, k) == None::<int>);
                        assert(next.last() == data.resources@[i as int]);
                    }
                }
            }
            i += 1;
        }
        assert(data.resources@.take(data.resources@.len() as int) =~= data.resources@);

        let mut town = TownState::new();
        let mut b: usize = 0;
        while b < data.buildings.len()
            invariant
                b <= data.buildings@.len(),
                keys_unique(data.buildings@),
                town.assignments@.len() == 0,
                forall|k: Seq<char>| #[trigger] town.spec_building_level(k) == match lookup(data.buildings@.take(b as int), k) {
                    Some(building) => building.starting_level,
                    None => 0u32,
                },
            decreases data.buildings.len() - b,
        {
            let ghost before = town;
            town.set_building_level(data.buildings[b].id.as_str(), data.buildings[b].starting_level);
            proof {
                let prev = data.buildings@.take(b as int);
                let next = data.buildings@.take(b as int + 1);
                assert(next.drop_last() =~= prev);
                assert forall|k: Seq<char>| #[trigger] town.spec_building_level(k) == match lookup(next, k) {
                    Some(building) => building.starting_level,
                    None => 0u32,
                } by {
                    assert(before.spec_building_level(k) == match lookup(prev, k) {
                        Some(building) => building.starting_level,
                        None => 0u32,
                    });
                    lemma_first_keyed(prev, k);
                    if k == data.buildings@[b as int].id@ {
                        assert forall|j: int| 0 <= j < prev.len() implies prev[j].key() != k by {
                            assert(prev[j] == data.buildings@[j]);
                        }
                        assert(first_keyed(prev, k) == None::<int>);
                        assert(next.last() == data.buildings@[b as int]);
                    }
                }
            }
            b += 1;
        }
        assert(data.buildings@.take(data.buildings@.len() as int) =~= data.buildings@);

        let mut roster = MonsterRoster::new();
        match data.species(data.config.starter_species_id.as_str()) {
            Some(species) => {
                let id = roster.add_monster(data.config.starter_name.clone(), species, STARTER_SEED);
                let _ = roster.assign_to_party(id);
                proof {
                    assert(roster.monsters@[0] == roster.monsters@.last());
                    assert(roster.party_slots@ =~= seq![Some(1u64), None, None, None, None, None]);
                }
            },
            None => {},
        }

        let mut log = ActivityLog::new();
        let mut l: usize = 0;
        while l < data.config.starting_log.len()
            invariant
                l <= data.config.starting_log@.len(),
                log.entries@.len() == l,
                forall|t: int| 0 <= t < l ==> log.entries@[t] == (ActivityEntry { day, text: data.config.starting_log@[t] }),
            decreases data.config.starting_log.len() - l,
        {
            log.add(day, data.config.starting_log[l].clone());
            l += 1;
        }

        GameState {
            day,
            resources,
            monster_roster: roster,
            egg_inventory: EggInventory::new(),
            town,
            tower_run: None,
            tower_progress: TowerProgress { best_floor: 0, unlocked_floor: 1 },
            combat: None,
            activity_log: log,
            story_flags: StoryFlags::new(),
            tower_discoveries: TowerDiscoveries::new(),
        }
    }
}

} // verus!
