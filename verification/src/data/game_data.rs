//! The validated content set and its lookups by id.

use vstd::prelude::*;
use crate::data::schema::{
    BalanceData, BuildingDefinition, CombatCooldownDefinition, EggTypeDefinition, EnemyDefinition,
    GameConfig, MonsterSpeciesDefinition, MonsterStatCurveDefinition, NpcDefinition,
    ResourceDefinition, ShopTradeDefinition, TowerAnomalyDefinition, TowerContractDefinition,
    TowerEventDefinition, TowerFloorDefinition, TowerHazardDefinition, TowerRewardDefinition,
    TowerSpecialLocationDefinition,
};
use crate::text::same_text;
use crate::data::indexes::{check_floor_repeats, check_repeats, floor_repeats_line, repeats_line};
use crate::data::validation::{either, validate, validation_problem};

verus! {

/// Authored entries that are found by a text id.
pub trait Keyed {
    spec fn key(&self) -> Seq<char>;

    fn key_text(&self) -> (s: &str)
        ensures
            s@ == self.key(),
    ;
}

/// The position of the first entry whose id is `id`.
pub open spec fn first_keyed<T: Keyed>(items: Seq<T>, id: Seq<char>) -> Option<int>
    decreases items.len(),
{
    if items.len() == 0 {
        None
    } else {
        match first_keyed(items.drop_last(), id) {
            Some(i) => Some(i),
            None => if items.last().key() == id {
                Some(items.len() - 1)
            } else {
                None
            },
        }
    }
}

/// The first entry whose id is `id`.
pub open spec fn lookup<T: Keyed>(items: Seq<T>, id: Seq<char>) -> Option<T> {
    match first_keyed(items, id) {
        Some(i) => Some(items[i]),
        None => None,
    }
}

/// No two entries share an id.
pub open spec fn keys_unique<T: Keyed>(items: Seq<T>) -> bool {
    forall|i: int, j: int|
        0 <= i < items.len() && 0 <= j < items.len() && i != j ==> items[i].key() != items[j].key()
}

pub proof fn lemma_first_keyed<T: Keyed>(items: Seq<T>, id: Seq<char>)
    ensures
        match first_keyed(items, id) {
            Some(i) => 0 <= i < items.len() && items[i].key() == id && forall|j: int|
                0 <= j < i ==> items[j].key() != id,
            None => forall|j: int| 0 <= j < items.len() ==> items[j].key() != id,
        },
    decreases items.len(),
{
    if items.len() > 0 {
        let prefix = items.drop_last();
        lemma_first_keyed(prefix, id);
        assert forall|j: int| 0 <= j < prefix.len() implies prefix[j] == items[j] by {}
    }
}

/// Under unique ids, the lookup of an entry's own id finds that entry.
pub proof fn lemma_lookup_own_key<T: Keyed>(items: Seq<T>, k: int)
    requires
        keys_unique(items),
        0 <= k < items.len(),
    ensures
        first_keyed(items, items[k].key()) == Some(k),
        lookup(items, items[k].key()) == Some(items[k]),
{
    lemma_first_keyed(items, items[k].key());
}

/// An entry's own id always finds some entry.
pub proof fn lemma_lookup_present<T: Keyed>(items: Seq<T>, k: int)
    requires
        0 <= k < items.len(),
    ensures
        lookup(items, items[k].key()) is Some,
{
    lemma_first_keyed(items, items[k].key());
}

/// Replacing an entry by one with the same id keeps every first match in place.
pub proof fn lemma_first_keyed_update<T: Keyed>(items: Seq<T>, i: int, x: T, id: Seq<char>)
    requires
        0 <= i < items.len(),
        x.key() == items[i].key(),
    ensures
        first_keyed(items.update(i, x), id) == first_keyed(items, id),
    decreases items.len(),
{
    let updated = items.update(i, x);
    if i == items.len() - 1 {
        assert(updated.drop_last() =~= items.drop_last());
    } else {
        assert(updated.drop_last() =~= items.drop_last().update(i, x));
        lemma_first_keyed_update(items.drop_last(), i, x, id);
    }
}

/// Appending an entry only gives a first match to its own, previously absent, id.
pub proof fn lemma_first_keyed_push<T: Keyed>(items: Seq<T>, x: T, id: Seq<char>)
    ensures
        first_keyed(items.push(x), id) == (match first_keyed(items, id) {
            Some(i) => Some(i),
            None => if x.key() == id {
                Some(items.len() as int)
            } else {
                None
            },
        }),
{
    assert(items.push(x).drop_last() =~= items);
}

/// Finds the position of the first entry whose id is `id`.
pub fn find_keyed<T: Keyed>(items: &Vec<T>, id: &str) -> (r: Option<usize>)
    ensures
        match r {
            Some(i) => first_keyed(items@, id@) == Some(i as int),
            None => first_keyed(items@, id@) == None::<int>,
        },
        r matches Some(i) ==> i < items.len(),
{
    let mut i: usize = 0;
    while i < items.len()
        invariant
            i <= items.len(),
            first_keyed(items@.take(i as int), id@) == None::<int>,
        decreases items.len() - i,
    {
        assert(items@.take(i as int + 1).drop_last() =~= items@.take(i as int));
        if same_text(items[i].key_text(), id) {
            assert(items@.take(i as int + 1).last() == items@[i as int]);
            proof {
                lemma_prefix_first(items@, id@, i as int + 1);
            }
            return Some(i);
        }
        i += 1;
    }
    assert(items@.take(items.len() as int) =~= items@);
    None
}

/// Once the first match lies in a prefix, the whole sequence has the same first match.
proof fn lemma_prefix_first<T: Keyed>(items: Seq<T>, id: Seq<char>, n: int)
    requires
        0 <= n <= items.len(),
        first_keyed(items.take(n), id) is Some,
    ensures
        first_keyed(items, id) == first_keyed(items.take(n), id),
    decreases items.len() - n,
{
    if n < items.len() {
        assert(items.take(n + 1).drop_last() =~= items.take(n));
        lemma_prefix_first(items, id, n + 1);
    } else {
        assert(items.take(n) =~= items);
    }
}

impl Keyed for ResourceDefinition {
    open spec fn key(&self) -> Seq<char> { self.id@ }
    fn key_text(&self) -> (s: &str) { self.id.as_str() }
}

impl Keyed for BuildingDefinition {
    open spec fn key(&self) -> Seq<char> { self.id@ }
    fn key_text(&self) -> (s: &str) { self.id.as_str() }
}

impl Keyed for MonsterSpeciesDefinition {
    open spec fn key(&self) -> Seq<char> { self.id@ }
    fn key_text(&self) -> (s: &str) { self.id.as_str() }
}

impl Keyed for EggTypeDefinition {
    open spec fn key(&self) -> Seq<char> { self.id@ }
    fn key_text(&self) -> (s: &str) { self.id.as_str() }
}

impl Keyed for EnemyDefinition {
    open spec fn key(&self) -> Seq<char> { self.id@ }
    fn key_text(&self) -> (s: &str) { self.id.as_str() }
}

impl Keyed for TowerSpecialLocationDefinition {
    open spec fn key(&self) -> Seq<char> { self.id@ }
    fn key_text(&self) -> (s: &str) { self.id.as_str() }
}

impl Keyed for TowerEventDefinition {
    open spec fn key(&self) -> Seq<char> { self.id@ }
    fn key_text(&self) -> (s: &str) { self.id.as_str() }
}

impl Keyed for TowerHazardDefinition {
    open spec fn key(&self) -> Seq<char> { self.id@ }
    fn key_text(&self) -> (s: &str) { self.id.as_str() }
}

impl Keyed for TowerContractDefinition {
    open spec fn key(&self) -> Seq<char> { self.id@ }
    fn key_text(&self) -> (s: &str) { self.id.as_str() }
}

impl Keyed for TowerAnomalyDefinition {
    open spec fn key(&self) -> Seq<char> { self.id@ }
    fn key_text(&self) -> (s: &str) { self.id.as_str() }
}

impl Keyed for NpcDefinition {
    open spec fn key(&self) -> Seq<char> { self.id@ }
    fn key_text(&self) -> (s: &str) { self.id.as_str() }
}

impl Keyed for MonsterStatCurveDefinition {
    open spec fn key(&self) -> Seq<char> { self.species_id@ }
    fn key_text(&self) -> (s: &str) { self.species_id.as_str() }
}

impl Keyed for CombatCooldownDefinition {
    open spec fn key(&self) -> Seq<char> { self.id@ }
    fn key_text(&self) -> (s: &str) { self.id.as_str() }
}

impl Keyed for ShopTradeDefinition {
    open spec fn key(&self) -> Seq<char> { self.id@ }
    fn key_text(&self) -> (s: &str) { self.id.as_str() }
}

/// Entries that are found by a floor number.
pub trait FloorKeyed {
    spec fn floor_key(&self) -> u32;

    fn floor_number(&self) -> (n: u32)
        ensures
            n == self.floor_key(),
    ;
}

impl FloorKeyed for TowerFloorDefinition {
    open spec fn floor_key(&self) -> u32 { self.floor }
    fn floor_number(&self) -> (n: u32) { self.floor }
}

impl FloorKeyed for TowerRewardDefinition {
    open spec fn floor_key(&self) -> u32 { self.floor }
    fn floor_number(&self) -> (n: u32) { self.floor }
}

/// The position of the first entry for floor `floor`.
pub open spec fn first_floor<T: FloorKeyed>(items: Seq<T>, floor: u32) -> Option<int>
    decreases items.len(),
{
    if items.len() == 0 {
        None
    } else {
        match first_floor(items.drop_last(), floor) {
            Some(i) => Some(i),
            None => if items.last().floor_key() == floor {
                Some(items.len() - 1)
            } else {
                None
            },
        }
    }
}

pub open spec fn lookup_floor<T: FloorKeyed>(items: Seq<T>, floor: u32) -> Option<T> {
    match first_floor(items, floor) {
        Some(i) => Some(items[i]),
        None => None,
    }
}

pub open spec fn floors_unique<T: FloorKeyed>(items: Seq<T>) -> bool {
    forall|i: int, j: int|
        0 <= i < items.len() && 0 <= j < items.len() && i != j ==> items[i].floor_key()
            != items[j].floor_key()
}

pub proof fn lemma_first_floor<T: FloorKeyed>(items: Seq<T>, floor: u32)
    ensures
        match first_floor(items, floor) {
            Some(i) => 0 <= i < items.len() && items[i].floor_key() == floor && forall|j: int|
                0 <= j < i ==> items[j].floor_key() != floor,
            None => forall|j: int| 0 <= j < items.len() ==> items[j].floor_key() != floor,
        },
    decreases items.len(),
{
    if items.len() > 0 {
        let prefix = items.drop_last();
        lemma_first_floor(prefix, floor);
        assert forall|j: int| 0 <= j < prefix.len() implies prefix[j] == items[j] by {}
    }
}

proof fn lemma_prefix_first_floor<T: FloorKeyed>(items: Seq<T>, floor: u32, n: int)
    requires
        0 <= n <= items.len(),
        first_floor(items.take(n), floor) is Some,
    ensures
        first_floor(items, floor) == first_floor(items.take(n), floor),
    decreases items.len() - n,
{
    if n < items.len() {
        assert(items.take(n + 1).drop_last() =~= items.take(n));
        lemma_prefix_first_floor(items, floor, n + 1);
    } else {
        assert(items.take(n) =~= items);
    }
}

/// Finds the position of the first entry for floor `floor`.
pub fn find_floor<T: FloorKeyed>(items: &Vec<T>, floor: u32) -> (r: Option<usize>)
    ensures
        match r {
            Some(i) => first_floor(items@, floor) == Some(i as int),
            None => first_floor(items@, floor) == None::<int>,
        },
        r matches Some(i) ==> i < items.len(),
{
    let mut i: usize = 0;
    while i < items.len()
        invariant
            i <= items.len(),
            first_floor(items@.take(i as int), floor) == None::<int>,
        decreases items.len() - i,
    {
        assert(items@.take(i as int + 1).drop_last() =~= items@.take(i as int));
        if items[i].floor_number() == floor {
            assert(items@.take(i as int + 1).last() == items@[i as int]);
            proof {
                lemma_prefix_first_floor(items@, floor, i as int + 1);
            }
            return Some(i);
        }
        i += 1;
    }
    assert(items@.take(items.len() as int) =~= items@);
    None
}

/// A borrowed entry agrees with an optional entry.
pub open spec fn same_entry<T>(r: Option<&T>, v: Option<T>) -> bool {
    match r {
        Some(x) => v == Some(*x),
        None => v is None,
    }
}

pub struct GameData {
    pub config: GameConfig,
    pub balance: BalanceData,
    pub resources: Vec<ResourceDefinition>,
    pub buildings: Vec<BuildingDefinition>,
    pub monster_species: Vec<MonsterSpeciesDefinition>,
    pub egg_types: Vec<EggTypeDefinition>,
    pub tower_floors: Vec<TowerFloorDefinition>,
    pub enemies: Vec<EnemyDefinition>,
    pub tower_special_locations: Vec<TowerSpecialLocationDefinition>,
    pub tower_events: Vec<TowerEventDefinition>,
    pub tower_hazards: Vec<TowerHazardDefinition>,
    pub tower_contracts: Vec<TowerContractDefinition>,
    pub tower_anomalies: Vec<TowerAnomalyDefinition>,
    pub npcs: Vec<NpcDefinition>,
}

impl GameData {
    /// Every collection is free of repeated ids (and repeated floors).
    pub open spec fn indexed(&self) -> bool {
        &&& keys_unique(self.resources@)
        &&& keys_unique(self.buildings@)
        &&& keys_unique(self.monster_species@)
        &&& keys_unique(self.egg_types@)
        &&& floors_unique(self.tower_floors@)
        &&& keys_unique(self.enemies@)
        &&& keys_unique(self.tower_special_locations@)
        &&& keys_unique(self.tower_events@)
        &&& keys_unique(self.tower_hazards@)
        &&& keys_unique(self.tower_contracts@)
        &&& keys_unique(self.tower_anomalies@)
        &&& keys_unique(self.npcs@)
        &&& keys_unique(self.balance.monster_stat_curves@)
        &&& keys_unique(self.balance.combat_cooldowns@)
        &&& keys_unique(self.balance.shop_trades@)
        &&& floors_unique(self.balance.tower_rewards@)
    }

    pub open spec fn spec_species(&self, id: Seq<char>) -> Option<MonsterSpeciesDefinition> {
        lookup(self.monster_species@, id)
    }

    pub open spec fn spec_egg_type(&self, id: Seq<char>) -> Option<EggTypeDefinition> {
        lookup(self.egg_types@, id)
    }

    pub open spec fn spec_enemy(&self, id: Seq<char>) -> Option<EnemyDefinition> {
        lookup(self.enemies@, id)
    }

    pub open spec fn spec_tower_floor(&self, floor: u32) -> Option<TowerFloorDefinition> {
        lookup_floor(self.tower_floors@, floor)
    }

    pub open spec fn spec_special_location(&self, id: Seq<char>) -> Option<TowerSpecialLocationDefinition> {
        lookup(self.tower_special_locations@, id)
    }

    pub open spec fn spec_tower_event(&self, id: Seq<char>) -> Option<TowerEventDefinition> {
        lookup(self.tower_events@, id)
    }

    pub open spec fn spec_tower_hazard(&self, id: Seq<char>) -> Option<TowerHazardDefinition> {
        lookup(self.tower_hazards@, id)
    }

    pub open spec fn spec_tower_contract(&self, id: Seq<char>) -> Option<TowerContractDefinition> {
        lookup(self.tower_contracts@, id)
    }

    pub open spec fn spec_tower_anomaly(&self, id: Seq<char>) -> Option<TowerAnomalyDefinition> {
        lookup(self.tower_anomalies@, id)
    }

    /// The display name of a resource, or the id itself when the resource is unknown.
    pub open spec fn spec_resource_name(&self, id: Seq<char>) -> Seq<char> {
        match lookup(self.resources@, id) {
            Some(resource) => resource.name@,
            None => id,
        }
    }

    pub fn building(&self, id: &str) -> (r: Option<&BuildingDefinition>)
        ensures
            same_entry(r, lookup(self.buildings@, id@)),
    {
        match find_keyed(&self.buildings, id) {
            Some(i) => Some(&self.buildings[i]),
            None => None,
        }
    }

    pub fn resource_name<'a>(&'a self, id: &'a str) -> (r: &'a str)
        ensures
            r@ == self.spec_resource_name(id@),
    {
        match find_keyed(&self.resources, id) {
            Some(i) => self.resources[i].name.as_str(),
            None => id,
        }
    }

    pub fn species(&self, id: &str) -> (r: Option<&MonsterSpeciesDefinition>)
        ensures
            same_entry(r, self.spec_species(id@)),
    {
        match find_keyed(&self.monster_species, id) {
            Some(i) => Some(&self.monster_species[i]),
            None => None,
        }
    }

    pub fn egg_type(&self, id: &str) -> (r: Option<&EggTypeDefinition>)
        ensures
            same_entry(r, self.spec_egg_type(id@)),
    {
        match find_keyed(&self.egg_types, id) {
            Some(i) => Some(&self.egg_types[i]),
            None => None,
        }
    }

    pub fn tower_floor(&self, floor: u32) -> (r: Option<&TowerFloorDefinition>)
        ensures
            same_entry(r, self.spec_tower_floor(floor)),
    {
        match find_floor(&self.tower_floors, floor) {
            Some(i) => Some(&self.tower_floors[i]),
            None => None,
        }
    }

    pub fn enemy(&self, id: &str) -> (r: Option<&EnemyDefinition>)
        ensures
            same_entry(r, self.spec_enemy(id@)),
    {
        match find_keyed(&self.enemies, id) {
            Some(i) => Some(&self.enemies[i]),
            None => None,
        }
    }

    pub fn tower_special_location(&self, id: &str) -> (r: Option<&TowerSpecialLocationDefinition>)
        ensures
            same_entry(r, self.spec_special_location(id@)),
    {
        match find_keyed(&self.tower_special_locations, id) {
            Some(i) => Some(&self.tower_special_locations[i]),
            None => None,
        }
    }

    pub fn tower_event(&self, id: &str) -> (r: Option<&TowerEventDefinition>)
        ensures
            same_entry(r, self.spec_tower_event(id@)),
    {
        match find_keyed(&self.tower_events, id) {
            Some(i) => Some(&self.tower_events[i]),
            None => None,
        }
    }

    pub fn tower_hazard(&self, id: &str) -> (r: Option<&TowerHazardDefinition>)
        ensures
            same_entry(r, self.spec_tower_hazard(id@)),
    {
        match find_keyed(&self.tower_hazards, id) {
            Some(i) => Some(&self.tower_hazards[i]),
            None => None,
        }
    }

    pub fn tower_contract(&self, id: &str) -> (r: Option<&TowerContractDefinition>)
        ensures
            same_entry(r, self.spec_tower_contract(id@)),
    {
        match find_keyed(&self.tower_contracts, id) {
            Some(i) => Some(&self.tower_contracts[i]),
            None => None,
        }
    }

    pub fn tower_anomaly(&self, id: &str) -> (r: Option<&TowerAnomalyDefinition>)
        ensures
            same_entry(r, self.spec_tower_anomaly(id@)),
    {
        match find_keyed(&self.tower_anomalies, id) {
            Some(i) => Some(&self.tower_anomalies[i]),
            None => None,
        }
    }

    pub fn npc(&self, id: &str) -> (r: Option<&NpcDefinition>)
        ensures
            same_entry(r, lookup(self.npcs@, id@)),
    {
        match find_keyed(&self.npcs, id) {
            Some(i) => Some(&self.npcs[i]),
            None => None,
        }
    }

    pub fn stat_curve(&self, species_id: &str) -> (r: Option<&MonsterStatCurveDefinition>)
        ensures
            same_entry(r, lookup(self.balance.monster_stat_curves@, species_id@)),
    {
        match find_keyed(&self.balance.monster_stat_curves, species_id) {
            Some(i) => Some(&self.balance.monster_stat_curves[i]),
            None => None,
        }
    }

    pub fn combat_cooldown(&self, id: &str) -> (r: Option<u32>)
        ensures
            r == (match lookup(self.balance.combat_cooldowns@, id@) {
                Some(definition) => Some(definition.turns),
                None => None,
            }),
    {
        match find_keyed(&self.balance.combat_cooldowns, id) {
            Some(i) => Some(self.balance.combat_cooldowns[i].turns),
            None => None,
        }
    }

    pub fn shop_trade(&self, id: &str) -> (r: Option<&ShopTradeDefinition>)
        ensures
            same_entry(r, lookup(self.balance.shop_trades@, id@)),
    {
        match find_keyed(&self.balance.shop_trades, id) {
            Some(i) => Some(&self.balance.shop_trades[i]),
            None => None,
        }
    }

    pub fn tower_reward(&self, floor: u32) -> (r: Option<&TowerRewardDefinition>)
        ensures
            same_entry(r, lookup_floor(self.balance.tower_rewards@, floor)),
    {
        match find_floor(&self.balance.tower_rewards, floor) {
            Some(i) => Some(&self.balance.tower_rewards[i]),
            None => None,
        }
    }
}

/// The first kind of content with repeated ids, reported with those ids, in
/// this order: resources, buildings, species, egg types, floors, enemies,
/// landmarks, events, hazards, contracts, anomalies, characters, stat curves,
/// cooldowns, shop trades and floor rewards.
pub open spec fn index_problem(data: GameData) -> Option<Seq<char>> {
    either(repeats_line("resource"@, data.resources@),
    either(repeats_line("building"@, data.buildings@),
    either(repeats_line("monster species"@, data.monster_species@),
    either(repeats_line("egg type"@, data.egg_types@),
    either(floor_repeats_line(data.tower_floors@),
    either(repeats_line("enemy"@, data.enemies@),
    either(repeats_line("tower special location"@, data.tower_special_locations@),
    either(repeats_line("tower event"@, data.tower_events@),
    either(repeats_line("tower hazard"@, data.tower_hazards@),
    either(repeats_line("tower contract"@, data.tower_contracts@),
    either(repeats_line("tower anomaly"@, data.tower_anomalies@),
    either(repeats_line("npc"@, data.npcs@),
    either(repeats_line("monster stat curve"@, data.balance.monster_stat_curves@),
    either(repeats_line("combat cooldown"@, data.balance.combat_cooldowns@),
    either(repeats_line("shop trade"@, data.balance.shop_trades@),
    floor_repeats_line(data.balance.tower_rewards@))))))))))))))))
}

/// Each entry's id finds that entry, and an id finds an entry only when some
/// entry carries it.
pub open spec fn lookups_exact<T: Keyed>(items: Seq<T>) -> bool {
    &&& forall|k: int| 0 <= k < items.len() ==> lookup(items, (#[trigger] items[k]).key()) == Some(items[k])
    &&& forall|id: Seq<char>| (#[trigger] lookup(items, id)) is Some <==> exists|k: int| 0 <= k < items.len() && items[k].key() == id
}

/// Each entry's floor finds that entry, and a floor finds an entry only when
/// some entry stands for it.
pub open spec fn floor_lookups_exact<T: FloorKeyed>(items: Seq<T>) -> bool {
    &&& forall|k: int| 0 <= k < items.len() ==> lookup_floor(items, (#[trigger] items[k]).floor_key()) == Some(items[k])
    &&& forall|floor: u32| (#[trigger] lookup_floor(items, floor)) is Some <==> exists|k: int| 0 <= k < items.len() && items[k].floor_key() == floor
}

pub proof fn lemma_lookups_exact<T: Keyed>(items: Seq<T>)
    requires
        keys_unique(items),
    ensures
        lookups_exact(items),
{
    assert forall|k: int| 0 <= k < items.len() implies lookup(items, (#[trigger] items[k]).key()) == Some(items[k]) by {
        lemma_lookup_own_key(items, k);
    }
    assert forall|id: Seq<char>| (#[trigger] lookup(items, id)) is Some <==> exists|k: int| 0 <= k < items.len() && items[k].key() == id by {
        lemma_first_keyed(items, id);
    }
}

pub proof fn lemma_floor_lookups_exact<T: FloorKeyed>(items: Seq<T>)
    requires
        floors_unique(items),
    ensures
        floor_lookups_exact(items),
{
    assert forall|k: int| 0 <= k < items.len() implies lookup_floor(items, (#[trigger] items[k]).floor_key()) == Some(items[k]) by {
        lemma_first_floor(items, items[k].floor_key());
    }
    assert forall|floor: u32| (#[trigger] lookup_floor(items, floor)) is Some <==> exists|k: int| 0 <= k < items.len() && items[k].floor_key() == floor by {
        lemma_first_floor(items, floor);
    }
}

/// In content whose ids and floors are each used once, as `from_parts`
/// accepts it, every lookup finds its own entry and nothing else.
pub proof fn law_indexed_lookups(data: GameData)
    requires
        data.indexed(),
    ensures
        lookups_exact(data.resources@),
        lookups_exact(data.buildings@),
        lookups_exact(data.monster_species@),
        lookups_exact(data.egg_types@),
        floor_lookups_exact(data.tower_floors@),
        lookups_exact(data.enemies@),
        lookups_exact(data.tower_special_locations@),
        lookups_exact(data.tower_events@),
        lookups_exact(data.tower_hazards@),
        lookups_exact(data.tower_contracts@),
        lookups_exact(data.tower_anomalies@),
        lookups_exact(data.npcs@),
        lookups_exact(data.balance.monster_stat_curves@),
        lookups_exact(data.balance.combat_cooldowns@),
        lookups_exact(data.balance.shop_trades@),
        floor_lookups_exact(data.balance.tower_rewards@),
{
    lemma_lookups_exact(data.resources@);
    lemma_lookups_exact(data.buildings@);
    lemma_lookups_exact(data.monster_species@);
    lemma_lookups_exact(data.egg_types@);
    lemma_floor_lookups_exact(data.tower_floors@);
    lemma_lookups_exact(data.enemies@);
    lemma_lookups_exact(data.tower_special_locations@);
    lemma_lookups_exact(data.tower_events@);
    lemma_lookups_exact(data.tower_hazards@);
    lemma_lookups_exact(data.tower_contracts@);
    lemma_lookups_exact(data.tower_anomalies@);
    lemma_lookups_exact(data.npcs@);
    lemma_lookups_exact(data.balance.monster_stat_curves@);
    lemma_lookups_exact(data.balance.combat_cooldowns@);
    lemma_lookups_exact(data.balance.shop_trades@);
    lemma_floor_lookups_exact(data.balance.tower_rewards@);
}

/// What loading content from its parts reports: the first repeated ids,
/// else the first failed check, else nothing.
pub open spec fn load_problem(data: GameData) -> Option<Seq<char>> {
    either(index_problem(data), validation_problem(data))
}

impl GameData {
    /// Assembles content from its parts, refusing repeated ids and content
    /// that fails its checks.
    pub fn from_parts(
        config: GameConfig,
        balance: BalanceData,
        resources: Vec<ResourceDefinition>,
        buildings: Vec<BuildingDefinition>,
        monster_species: Vec<MonsterSpeciesDefinition>,
        egg_types: Vec<EggTypeDefinition>,
        tower_floors: Vec<TowerFloorDefinition>,
        enemies: Vec<EnemyDefinition>,
        tower_special_locations: Vec<TowerSpecialLocationDefinition>,
        tower_events: Vec<TowerEventDefinition>,
        tower_hazards: Vec<TowerHazardDefinition>,
        tower_contracts: Vec<TowerContractDefinition>,
        tower_anomalies: Vec<TowerAnomalyDefinition>,
        npcs: Vec<NpcDefinition>,
    ) -> (r: Result<GameData, String>)
        ensures
            ({
                let data = GameData {
                    config,
                    balance,
                    resources,
                    buildings,
                    monster_species,
                    egg_types,
                    tower_floors,
                    enemies,
                    tower_special_locations,
                    tower_events,
                    tower_hazards,
                    tower_contracts,
                    tower_anomalies,
                    npcs,
                };
                match load_problem(data) {
                    Some(m) => r matches Err(e) && e@ == m,
                    None => r == Ok::<GameData, String>(data) && data.indexed(),
                }
            }),
    {
        let data = GameData {
            config,
            balance,
            resources,
            buildings,
            monster_species,
            egg_types,
            tower_floors,
            enemies,
            tower_special_locations,
            tower_events,
            tower_hazards,
            tower_contracts,
            tower_anomalies,
            npcs,
        };
        if let Some(m) = check_repeats("resource", &data.resources) {
            return Err(m);
        }
        if let Some(m) = check_repeats("building", &data.buildings) {
            return Err(m);
        }
        if let Some(m) = check_repeats("monster species", &data.monster_species) {
            return Err(m);
        }
        if let Some(m) = check_repeats("egg type", &data.egg_types) {
            return Err(m);
        }
        if let Some(m) = check_floor_repeats(&data.tower_floors) {
            return Err(m);
        }
        if let Some(m) = check_repeats("enemy", &data.enemies) {
            return Err(m);
        }
        if let Some(m) = check_repeats("tower special location", &data.tower_special_locations) {
            return Err(m);
        }
        if let Some(m) = check_repeats("tower event", &data.tower_events) {
            return Err(m);
        }
        if let Some(m) = check_repeats("tower hazard", &data.tower_hazards) {
            return Err(m);
        }
        if let Some(m) = check_repeats("tower contract", &data.tower_contracts) {
            return Err(m);
        }
        if let Some(m) = check_repeats("tower anomaly", &data.tower_anomalies) {
            return Err(m);
        }
        if let Some(m) = check_repeats("npc", &data.npcs) {
            return Err(m);
        }
        if let Some(m) = check_repeats("monster stat curve", &data.balance.monster_stat_curves) {
            return Err(m);
        }
        if let Some(m) = check_repeats("combat cooldown", &data.balance.combat_cooldowns) {
            return Err(m);
        }
        if let Some(m) = check_repeats("shop trade", &data.balance.shop_trades) {
            return Err(m);
        }
        if let Some(m) = check_floor_repeats(&data.balance.tower_rewards) {
            return Err(m);
        }
        match validate(&data) {
            Err(m) => Err(m),
            Ok(()) => Ok(data),
        }
    }
}

} // verus!
