//! Definitions of authored content: resources, buildings, species, eggs,
//! tower floors, enemies, landmarks, events, hazards, contracts and anomalies.

use vstd::prelude::*;

verus! {

pub struct GameConfig {
    pub save_version: u32,
    pub starting_day: u32,
    pub starter_species_id: String,
    pub starter_name: String,
    pub starting_log: Vec<String>,
}

pub struct MonsterStatCurveDefinition {
    pub species_id: String,
    pub hp_per_level: i32,
    pub attack_per_level: i32,
    pub defense_per_level: i32,
    pub speed_per_interval: i32,
    pub speed_interval: u32,
}

pub struct CombatCooldownDefinition {
    pub id: String,
    pub turns: u32,
}

pub struct ShopTradeDefinition {
    pub id: String,
    pub label: String,
    pub detail: String,
    pub cost: Vec<ResourceAmount>,
    pub reward: Vec<ResourceAmount>,
}

pub struct TowerRewardDefinition {
    pub floor: u32,
    pub rewards: Vec<ResourceAmount>,
}

pub struct BalanceData {
    pub monster_stat_curves: Vec<MonsterStatCurveDefinition>,
    pub combat_cooldowns: Vec<CombatCooldownDefinition>,
    pub shop_trades: Vec<ShopTradeDefinition>,
    pub tower_rewards: Vec<TowerRewardDefinition>,
}

pub struct ResourceDefinition {
    pub id: String,
    pub name: String,
    pub starting_amount: i32,
}

pub struct ResourceAmount {
    pub resource_id: String,
    pub amount: i32,
}

pub struct BuildingDefinition {
    pub id: String,
    pub name: String,
    pub description: String,
    pub starting_level: u32,
    pub max_level: u32,
    pub upgrade_cost: Vec<ResourceAmount>,
}

#[derive(Clone, Copy, Debug, PartialEq, Eq, Structural)]
pub enum Element {
    Water,
    Fire,
    Earth,
}

#[derive(Clone, Copy, Debug, PartialEq, Eq, Structural)]
pub enum Temperament {
    Loyal,
    Patient,
    Curious,
    Brave,
    Restless,
    Gentle,
}

#[derive(Clone, Copy, Debug, PartialEq, Eq, Structural)]
pub enum MonsterRole {
    Scout,
    Tank,
    Support,
    Striker,
}

#[derive(Clone, Copy, Debug, PartialEq, Eq, Structural)]
pub enum PassiveSkill {
    FindsSmallLoot,
    ResistsPoison,
    DetectsEggs,
    FindsStone,
    BurnsBrambles,
    SoothesInjuries,
}

#[derive(Clone, Copy, Debug, PartialEq, Eq, Structural)]
pub enum TownSkill {
    HatcheryHelper,
    Farming,
    Lighting,
    Guarding,
    WorkshopHeat,
    Hatching,
}

pub struct MonsterSpeciesDefinition {
    pub id: String,
    pub name: String,
    pub element: Element,
    pub temperament: Temperament,
    pub role: MonsterRole,
    pub passive: PassiveSkill,
    pub town_skill: TownSkill,
    pub base_hp: i32,
    pub base_attack: i32,
    pub base_defense: i32,
    pub base_speed: i32,
}

pub struct EggTypeDefinition {
    pub id: String,
    pub name: String,
    pub rarity: String,
    pub hatch_days: u32,
    pub discovery_floor: u32,
    pub possible_species: Vec<String>,
    pub element_bias: Vec<Element>,
    pub temperament_bias: Vec<Temperament>,
}

pub struct TowerFloorDefinition {
    pub floor: u32,
    pub name: String,
    pub theme: String,
    pub enemy_hint: String,
    pub loot: Vec<ResourceAmount>,
    pub egg_types: Vec<String>,
    pub pressure_limit: u32,
    pub unlocks_floor: u32,
    pub is_boss_floor: bool,
    pub guardian_enemy_id: String,
    pub guardian_egg_type_id: String,
}

#[derive(Clone, Copy, Debug, PartialEq, Eq, Structural)]
pub enum TowerLocationVisual {
    Shrine,
    RecoverySpring,
    AncientMachinery,
    RelicArchive,
    SecretClue,
    Hazard,
}

pub struct TowerSpecialLocationDefinition {
    pub id: String,
    pub name: String,
    pub description: String,
    pub min_floor: u32,
    pub max_floor: u32,
    pub visual: TowerLocationVisual,
    pub event_ids: Vec<String>,
}

pub struct TowerEventDefinition {
    pub id: String,
    pub name: String,
    pub narrative: String,
    pub rewards: Vec<ResourceAmount>,
    pub cargo_costs: Vec<ResourceAmount>,
    pub pressure_delta: i32,
    pub party_healing: i32,
    pub enemy_id: String,
    pub egg_type_id: String,
    pub reveal_map: bool,
    pub refresh_camp: bool,
    pub blessing: Option<TowerBlessing>,
    pub required_passive: Option<PassiveSkill>,
    pub required_element: Option<Element>,
}

#[derive(Clone, Copy, Debug, PartialEq, Eq, Structural)]
pub enum TowerBlessing {
    QuietSteps,
    Wardstone,
    CacheSense,
}

impl TowerBlessing {
    /// The player-facing name of the blessing.
    pub fn label(self) -> (s: &'static str)
        ensures
            s@ == self.spec_label(),
    {
        match self {
            TowerBlessing::QuietSteps => "Quiet Steps",
            TowerBlessing::Wardstone => "Wardstone",
            TowerBlessing::CacheSense => "Cache Sense",
        }
    }

    pub open spec fn spec_label(self) -> Seq<char> {
        match self {
            TowerBlessing::QuietSteps => "Quiet Steps"@,
            TowerBlessing::Wardstone => "Wardstone"@,
            TowerBlessing::CacheSense => "Cache Sense"@,
        }
    }
}

#[derive(Clone, Copy, Debug, PartialEq, Eq, Structural)]
pub enum TowerHazardVisual {
    Spores,
    Brambles,
    CinderVent,
    Flood,
    Frostfall,
    CrownPollen,
}

pub struct TowerHazardDefinition {
    pub id: String,
    pub name: String,
    pub description: String,
    pub min_floor: u32,
    pub max_floor: u32,
    pub visual: TowerHazardVisual,
    pub damage: i32,
    pub pressure: u32,
    pub counter_passive: Option<PassiveSkill>,
    pub counter_element: Option<Element>,
    pub counter_rewards: Vec<ResourceAmount>,
}

#[derive(Clone, Copy, Debug, PartialEq, Eq, Structural)]
pub enum TowerContractTarget {
    Eggs,
    Cargo,
    Steps,
    Floors,
    Landmarks,
    HazardsCountered,
}

pub struct TowerContractDefinition {
    pub id: String,
    pub name: String,
    pub description: String,
    pub target: TowerContractTarget,
    pub target_amount: u32,
    pub rewards: Vec<ResourceAmount>,
}

#[derive(Clone, Copy, Debug, PartialEq, Eq, Structural)]
pub enum TowerAnomalyEffect {
    QuietVeil,
    EchoingRain,
    CacheBloom,
    MendingLights,
    NestingPulse,
    HunterTracks,
}

pub struct TowerAnomalyDefinition {
    pub id: String,
    pub name: String,
    pub description: String,
    pub min_floor: u32,
    pub max_floor: u32,
    pub visual_index: usize,
    pub effect: TowerAnomalyEffect,
}

pub struct EnemyDefinition {
    pub id: String,
    pub name: String,
    pub description: String,
    pub min_floor: u32,
    pub max_floor: u32,
    pub is_boss: bool,
    pub max_hp: i32,
    pub attack: i32,
    pub defense: i32,
    pub speed: i32,
    pub xp_reward: u32,
    pub rewards: Vec<ResourceAmount>,
    pub behavior: EnemyBehavior,
    pub visual: DungeonEnemyVisual,
    pub pack_size: u32,
}

#[derive(Clone, Copy, Debug, PartialEq, Eq, Structural)]
pub enum EnemyBehavior {
    Standard,
    Bruiser,
    Bulwark,
    Harrier,
    Hexer,
    Swarm,
    Ambusher,
    Regenerator,
}

#[derive(Clone, Copy, Debug, PartialEq, Eq, Structural)]
pub enum DungeonEnemyVisual {
    Crawler,
    Winged,
    Rooted,
    Wisp,
    Aquatic,
    Armored,
}

/// The pack size an enemy definition takes when none is authored.
pub fn default_enemy_pack_size() -> (n: u32)
    ensures
        n == 1,
{
    1
}

pub struct NpcDefinition {
    pub id: String,
    pub name: String,
    pub service: String,
    pub description: String,
}

impl Element {
    pub open spec fn spec_label(self) -> Seq<char> {
        match self {
            Element::Water => "Water"@,
            Element::Fire => "Fire"@,
            Element::Earth => "Earth"@,
        }
    }

    /// The player-facing name of the element.
    pub fn label(self) -> (s: &'static str)
        ensures
            s@ == self.spec_label(),
    {
        match self {
            Element::Water => "Water",
            Element::Fire => "Fire",
            Element::Earth => "Earth",
        }
    }
}

impl Temperament {
    pub open spec fn spec_label(self) -> Seq<char> {
        match self {
            Temperament::Loyal => "Loyal"@,
            Temperament::Patient => "Patient"@,
            Temperament::Curious => "Curious"@,
            Temperament::Brave => "Brave"@,
            Temperament::Restless => "Restless"@,
            Temperament::Gentle => "Gentle"@,
        }
    }

    /// The player-facing name of the temperament.
    pub fn label(self) -> (s: &'static str)
        ensures
            s@ == self.spec_label(),
    {
        match self {
            Temperament::Loyal => "Loyal",
            Temperament::Patient => "Patient",
            Temperament::Curious => "Curious",
            Temperament::Brave => "Brave",
            Temperament::Restless => "Restless",
            Temperament::Gentle => "Gentle",
        }
    }
}

impl MonsterRole {
    pub open spec fn spec_label(self) -> Seq<char> {
        match self {
            MonsterRole::Scout => "Scout"@,
            MonsterRole::Tank => "Tank"@,
            MonsterRole::Support => "Support"@,
            MonsterRole::Striker => "Striker"@,
        }
    }

    /// The player-facing name of the role.
    pub fn label(self) -> (s: &'static str)
        ensures
            s@ == self.spec_label(),
    {
        match self {
            MonsterRole::Scout => "Scout",
            MonsterRole::Tank => "Tank",
            MonsterRole::Support => "Support",
            MonsterRole::Striker => "Striker",
        }
    }
}

impl PassiveSkill {
    pub open spec fn spec_label(self) -> Seq<char> {
        match self {
            PassiveSkill::FindsSmallLoot => "Finds small loot"@,
            PassiveSkill::ResistsPoison => "Resists poison"@,
            PassiveSkill::DetectsEggs => "Detects eggs"@,
            PassiveSkill::FindsStone => "Finds stone"@,
            PassiveSkill::BurnsBrambles => "Burns brambles"@,
            PassiveSkill::SoothesInjuries => "Soothes injuries"@,
        }
    }

    /// The player-facing name of the passive skill.
    pub fn label(self) -> (s: &'static str)
        ensures
            s@ == self.spec_label(),
    {
        match self {
            PassiveSkill::FindsSmallLoot => "Finds small loot",
            PassiveSkill::ResistsPoison => "Resists poison",
            PassiveSkill::DetectsEggs => "Detects eggs",
            PassiveSkill::FindsStone => "Finds stone",
            PassiveSkill::BurnsBrambles => "Burns brambles",
            PassiveSkill::SoothesInjuries => "Soothes injuries",
        }
    }
}

impl TownSkill {
    pub open spec fn spec_label(self) -> Seq<char> {
        match self {
            TownSkill::HatcheryHelper => "Hatchery helper"@,
            TownSkill::Farming => "Farming"@,
            TownSkill::Lighting => "Lighting"@,
            TownSkill::Guarding => "Guarding"@,
            TownSkill::WorkshopHeat => "Workshop heat"@,
            TownSkill::Hatching => "Hatching"@,
        }
    }

    /// The player-facing name of the town skill.
    pub fn label(self) -> (s: &'static str)
        ensures
            s@ == self.spec_label(),
    {
        match self {
            TownSkill::HatcheryHelper => "Hatchery helper",
            TownSkill::Farming => "Farming",
            TownSkill::Lighting => "Lighting",
            TownSkill::Guarding => "Guarding",
            TownSkill::WorkshopHeat => "Workshop heat",
            TownSkill::Hatching => "Hatching",
        }
    }
}

} // verus!
