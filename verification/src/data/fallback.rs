//! The minimal built-in content: one species, one floor and one enemy.

use vstd::prelude::*;
use crate::data::game_data::{first_keyed, keys_unique, lemma_first_keyed, load_problem, index_problem, GameData, Keyed, lookup};
use crate::data::indexes::{lemma_unique_no_repeated_floors, lemma_unique_no_repeats};
use crate::data::validation::{
    contract_problem, curve_valid, first_missing_contract, first_problem, floor_name, floor_tail_problem, has_resource,
    missing_resource, required_contracts, stack_problem, validation_problem, Checked,
};
use crate::text::decimal;
use crate::data::schema::{
    BalanceData, BuildingDefinition, CombatCooldownDefinition, DungeonEnemyVisual, Element, EnemyBehavior,
    EnemyDefinition, GameConfig, MonsterRole, MonsterSpeciesDefinition, MonsterStatCurveDefinition, PassiveSkill,
    ResourceAmount, ResourceDefinition, ShopTradeDefinition, Temperament, TowerFloorDefinition,
    TowerRewardDefinition, TownSkill, EggTypeDefinition, TowerSpecialLocationDefinition, TowerEventDefinition,
    TowerHazardDefinition, TowerContractDefinition, TowerContractTarget, TowerAnomalyDefinition, NpcDefinition,
};

verus! {

fn amount(id: &str, n: i32) -> (a: ResourceAmount)
    ensures
        a.resource_id@ == id@,
        a.amount == n,
{
    ResourceAmount { resource_id: String::from_str(id), amount: n }
}

fn trade(id: &str, label: &str, detail: &str, cost: ResourceAmount, reward: ResourceAmount) -> (t: ShopTradeDefinition)
    ensures
        t.id@ == id@,
        t.cost@ == seq![cost],
        t.reward@ == seq![reward],
{
    let c = vec![cost];
    let r = vec![reward];
    proof {
        assert(c@ =~= seq![cost]);
        assert(r@ =~= seq![reward]);
    }
    ShopTradeDefinition {
        id: String::from_str(id),
        label: String::from_str(label),
        detail: String::from_str(detail),
        cost: c,
        reward: r,
    }
}

fn resource(id: &str, name: &str, start: i32) -> (r: ResourceDefinition)
    ensures
        r.id@ == id@,
        r.name@ == name@,
{
    ResourceDefinition { id: String::from_str(id), name: String::from_str(name), starting_amount: start }
}

fn contract(id: &str, name: &str, description: &str, target: TowerContractTarget, n: u32, coins: i32) -> (c: TowerContractDefinition)
    ensures
        c.id@ == id@,
        c.target_amount == n,
        c.rewards@.len() == 1,
        c.rewards@[0].resource_id@ == "coins"@,
        c.rewards@[0].amount == coins,
{
    let rewards = vec![amount("coins", coins)];
    TowerContractDefinition {
        id: String::from_str(id),
        name: String::from_str(name),
        description: String::from_str(description),
        target,
        target_amount: n,
        rewards,
    }
}

/// The goal contracts of the built-in content are all defined and valid.
proof fn lemma_fallback_contracts(d: GameData)
    requires
        d.resources@.len() == 4,
        d.resources@[0].id@ == "coins"@,
        d.tower_contracts@.len() == 6,
        forall|i: int| 0 <= i < 6 ==> #[trigger] d.tower_contracts@[i].id@ == required_contracts()[i],
        forall|i: int| 0 <= i < 6 ==> (#[trigger] d.tower_contracts@[i]).target_amount >= 1
            && d.tower_contracts@[i].rewards@.len() == 1
            && d.tower_contracts@[i].rewards@[0].resource_id@ == "coins"@
            && d.tower_contracts@[i].rewards@[0].amount > 0,
    ensures
        keys_unique(d.tower_contracts@),
        first_problem(d.tower_contracts@, d) is None,
        contract_problem(d) is None,
        forall|i: int| 0 <= i < 6 ==> (#[trigger] d.spec_tower_contract(required_contracts()[i])) is Some,
{
    reveal_strlit("balanced");
    reveal_strlit("egg_hunt");
    reveal_strlit("salvage");
    reveal_strlit("scout");
    reveal_strlit("push_deeper");
    reveal_strlit("safe_run");
    reveal_strlit("coins");
    let c = d.tower_contracts@;
    let r = required_contracts();
    assert(c[0].id@ == r[0] && c[1].id@ == r[1] && c[2].id@ == r[2] && c[3].id@ == r[3] && c[4].id@ == r[4] && c[5].id@ == r[5]);
    assert(r[0][0] != r[1][0] && r[0][0] != r[2][0] && r[0][0] != r[3][0] && r[0][0] != r[4][0] && r[0][0] != r[5][0]);
    assert(r[1][0] != r[2][0] && r[1][0] != r[3][0] && r[1][0] != r[4][0] && r[1][0] != r[5][0]);
    assert(r[2][1] != r[3][1] && r[2][0] != r[4][0] && r[2][2] != r[5][2]);
    assert(r[3][0] != r[4][0] && r[3][1] != r[5][1]);
    assert(r[4][0] != r[5][0]);
    assert(keys_unique(c));
    lemma_first_keyed(d.resources@, "coins"@);
    assert(has_resource(d, "coins"@));
    assert forall|k: int| 0 <= k <= 6 implies first_problem(#[trigger] c.take(k), d) is None by {
        lemma_contract_prefix(d, k);
    }
    assert(c.take(6) =~= c);
    assert forall|i: int| 0 <= i < 6 implies (#[trigger] d.spec_tower_contract(r[i])) is Some by {
        lemma_first_keyed(c, r[i]);
        assert(c[i].key() == r[i]);
    }
    assert forall|k: int| 0 <= k <= 6 implies #[trigger] first_missing_contract(d, k) is None by {
        lemma_goal_contracts_present(d, k);
    }
}

proof fn lemma_contract_prefix(d: GameData, k: int)
    requires
        0 <= k <= 6,
        d.tower_contracts@.len() == 6,
        has_resource(d, "coins"@),
        forall|i: int| 0 <= i < 6 ==> (#[trigger] d.tower_contracts@[i]).target_amount >= 1
            && d.tower_contracts@[i].rewards@.len() == 1
            && d.tower_contracts@[i].rewards@[0].resource_id@ == "coins"@
            && d.tower_contracts@[i].rewards@[0].amount > 0,
    ensures
        first_problem(d.tower_contracts@.take(k), d) is None,
    decreases k,
{
    if k > 0 {
        lemma_contract_prefix(d, k - 1);
        let c = d.tower_contracts@.take(k);
        assert(c.drop_last() =~= d.tower_contracts@.take(k - 1));
        let x = c.last();
        assert(x == d.tower_contracts@[k - 1]);
        assert(x.rewards@.drop_last().len() == 0);
        assert(x.rewards@.last() == x.rewards@[0]);
        assert(stack_problem(d, x.rewards@.drop_last(), "tower contract"@, x.id@) is None);
        assert(stack_problem(d, x.rewards@, "tower contract"@, x.id@) is None);
        assert(x.problem(d) is None);
    }
}

proof fn lemma_goal_contracts_present(d: GameData, k: int)
    requires
        0 <= k <= 6,
        forall|i: int| 0 <= i < 6 ==> (#[trigger] d.spec_tower_contract(required_contracts()[i])) is Some,
    ensures
        first_missing_contract(d, k) is None,
    decreases k,
{
    if k > 0 {
        lemma_goal_contracts_present(d, k - 1);
        assert(d.spec_tower_contract(required_contracts()[k - 1]) is Some);
    }
}

/// Stat curves, cooldowns, trades and floor rewards of the built-in content pass their checks.
proof fn lemma_fallback_tail(d: GameData)
    requires
        d.resources@.len() == 4,
        d.resources@[0].id@ == "coins"@,
        d.resources@[2].id@ == "stone"@,
        d.resources@[3].id@ == "herbs"@,
        d.monster_species@.len() == 1,
        d.monster_species@[0].id@ == "slime"@,
        d.balance.monster_stat_curves@.len() == 1,
        d.balance.monster_stat_curves@[0].species_id@ == "slime"@,
        curve_valid(d.balance.monster_stat_curves@[0]),
        d.balance.combat_cooldowns@.len() == 2,
        d.balance.combat_cooldowns@[0].id@ == "skill"@,
        d.balance.combat_cooldowns@[0].turns == 0,
        d.balance.combat_cooldowns@[1].id@ == "item"@,
        d.balance.combat_cooldowns@[1].turns == 0,
        d.balance.shop_trades@.len() == 3,
        forall|i: int| 0 <= i < 3 ==> (#[trigger] d.balance.shop_trades@[i]).cost@.len() == 1
            && d.balance.shop_trades@[i].reward@.len() == 1
            && d.balance.shop_trades@[i].cost@[0].amount > 0
            && d.balance.shop_trades@[i].reward@[0].amount > 0,
        d.balance.shop_trades@[0].cost@[0].resource_id@ == "coins"@,
        d.balance.shop_trades@[0].reward@[0].resource_id@ == "herbs"@,
        d.balance.shop_trades@[1].cost@[0].resource_id@ == "coins"@,
        d.balance.shop_trades@[1].reward@[0].resource_id@ == "stone"@,
        d.balance.shop_trades@[2].cost@[0].resource_id@ == "herbs"@,
        d.balance.shop_trades@[2].reward@[0].resource_id@ == "coins"@,
        d.balance.tower_rewards@.len() == 1,
        d.balance.tower_rewards@[0].floor == 1,
        d.balance.tower_rewards@[0].rewards@.len() == 1,
        d.balance.tower_rewards@[0].rewards@[0].resource_id@ == "coins"@,
        d.balance.tower_rewards@[0].rewards@[0].amount > 0,
        d.tower_floors@.len() == 1,
        d.tower_floors@[0].floor == 1,
    ensures
        first_problem(d.monster_species@, d) is None,
        first_problem(d.balance.combat_cooldowns@, d) is None,
        first_problem(d.balance.shop_trades@, d) is None,
        first_problem(d.balance.tower_rewards@, d) is None,
{
    reveal_strlit("coins");
    reveal_strlit("stone");
    reveal_strlit("herbs");
    reveal_strlit("slime");
    reveal_strlit("skill");
    reveal_strlit("item");
    lemma_first_keyed(d.resources@, "coins"@);
    lemma_first_keyed(d.resources@, "stone"@);
    lemma_first_keyed(d.resources@, "herbs"@);
    assert(has_resource(d, "coins"@) && has_resource(d, "stone"@) && has_resource(d, "herbs"@));
    let sp = d.monster_species@;
    lemma_first_keyed(d.balance.monster_stat_curves@, "slime"@);
    assert(sp.drop_last().len() == 0);
    assert(first_problem(sp.drop_last(), d) is None);
    assert(sp.last() == sp[0]);
    assert(lookup(d.balance.monster_stat_curves@, "slime"@) == Some(d.balance.monster_stat_curves@[0]));
    assert(sp.last().problem(d) is None);
    assert(first_problem(sp, d) is None);
    let cd = d.balance.combat_cooldowns@;
    assert(cd.drop_last().drop_last().len() == 0);
    assert(cd.drop_last().last() == cd[0]);
    assert(cd.last() == cd[1]);
    assert(cd[0].problem(d) is None);
    assert(cd[1].problem(d) is None);
    assert(first_problem(cd.drop_last().drop_last(), d) is None);
    assert(first_problem(cd.drop_last(), d) is None);
    assert(first_problem(cd, d) is None);
    let t = d.balance.shop_trades@;
    assert forall|i: int| 0 <= i < 3 implies (#[trigger] t[i]).problem(d) is None by {
        let x = t[i];
        assert(x.cost@.drop_last().len() == 0);
        assert(x.reward@.drop_last().len() == 0);
        assert(x.cost@.last() == x.cost@[0]);
        assert(x.reward@.last() == x.reward@[0]);
        assert(has_resource(d, x.cost@[0].resource_id@));
        assert(has_resource(d, x.reward@[0].resource_id@));
        assert(stack_problem(d, x.cost@.drop_last(), "shop trade"@, x.id@) is None);
        assert(stack_problem(d, x.cost@, "shop trade"@, x.id@) is None);
        assert(stack_problem(d, x.reward@.drop_last(), "shop trade"@, x.id@) is None);
        assert(stack_problem(d, x.reward@, "shop trade"@, x.id@) is None);
    }
    assert(t.drop_last().drop_last().drop_last().len() == 0);
    assert(t.drop_last().drop_last().last() == t[0]);
    assert(t.drop_last().last() == t[1]);
    assert(t.last() == t[2]);
    assert(first_problem(t.drop_last().drop_last().drop_last(), d) is None);
    assert(first_problem(t.drop_last().drop_last(), d) is None);
    assert(first_problem(t.drop_last(), d) is None);
    assert(first_problem(t, d) is None);
    let tr = d.balance.tower_rewards@;
    crate::data::game_data::lemma_first_floor(d.tower_floors@, 1);
    assert(d.spec_tower_floor(1) is Some);
    let x = tr[0];
    assert(x.rewards@.drop_last().len() == 0);
    assert(x.rewards@.last() == x.rewards@[0]);
    assert(stack_problem(d, x.rewards@.drop_last(), "tower reward"@, decimal(1nat)) is None);
    assert(stack_problem(d, x.rewards@, "tower reward"@, decimal(1nat)) is None);
    assert(x.problem(d) is None);
    assert(tr.drop_last().len() == 0);
    assert(first_problem(tr.drop_last(), d) is None);
    assert(tr.last() == x);
    assert(tr.last().problem(d) is None);
    assert(first_problem(tr, d) is None);
}

proof fn lemma_fallback_problem(d: GameData)
    requires
        d.config.starter_species_id@ == "slime"@,
        d.resources@.len() == 4,
        d.resources@[0].id@ == "coins"@,
        d.resources@[1].id@ == "wood"@,
        d.resources@[2].id@ == "stone"@,
        d.resources@[3].id@ == "herbs"@,
        d.buildings@.len() == 1,
        d.buildings@[0].upgrade_cost@.len() == 0,
        d.monster_species@.len() == 1,
        d.monster_species@[0].id@ == "slime"@,
        d.egg_types@.len() == 0,
        d.tower_floors@.len() == 1,
        d.tower_floors@[0].pressure_limit == 8,
        d.tower_floors@[0].loot@.len() == 2,
        d.tower_floors@[0].loot@[0].resource_id@ == "wood"@,
        d.tower_floors@[0].loot@[1].resource_id@ == "herbs"@,
        d.tower_floors@[0].guardian_enemy_id@.len() == 0,
        d.tower_floors@[0].egg_types@.len() == 0,
        d.enemies@.len() == 1,
        d.enemies@[0].min_floor == 1,
        d.enemies@[0].max_floor == 3,
        d.enemies@[0].max_hp == 14,
        d.enemies@[0].pack_size == 1,
        d.enemies@[0].rewards@.len() == 1,
        d.enemies@[0].rewards@[0].resource_id@ == "coins"@,
        d.tower_special_locations@.len() == 0,
        d.tower_events@.len() == 0,
        d.tower_hazards@.len() == 0,
        d.tower_contracts@.len() == 6,
        forall|i: int| 0 <= i < 6 ==> #[trigger] d.tower_contracts@[i].id@ == required_contracts()[i],
        forall|i: int| 0 <= i < 6 ==> (#[trigger] d.tower_contracts@[i]).target_amount >= 1
            && d.tower_contracts@[i].rewards@.len() == 1
            && d.tower_contracts@[i].rewards@[0].resource_id@ == "coins"@
            && d.tower_contracts@[i].rewards@[0].amount > 0,
        d.tower_anomalies@.len() == 0,
        d.npcs@.len() == 0,
        d.balance.monster_stat_curves@.len() == 1,
        d.balance.monster_stat_curves@[0].species_id@ == "slime"@,
        curve_valid(d.balance.monster_stat_curves@[0]),
        d.balance.combat_cooldowns@[0].turns == 0,
        d.balance.combat_cooldowns@[1].turns == 0,
        forall|i: int| 0 <= i < 3 ==> (#[trigger] d.balance.shop_trades@[i]).cost@.len() == 1
            && d.balance.shop_trades@[i].reward@.len() == 1
            && d.balance.shop_trades@[i].cost@[0].amount > 0
            && d.balance.shop_trades@[i].reward@[0].amount > 0,
        d.balance.shop_trades@[0].cost@[0].resource_id@ == "coins"@,
        d.balance.shop_trades@[0].reward@[0].resource_id@ == "herbs"@,
        d.balance.shop_trades@[1].cost@[0].resource_id@ == "coins"@,
        d.balance.shop_trades@[1].reward@[0].resource_id@ == "stone"@,
        d.balance.shop_trades@[2].cost@[0].resource_id@ == "herbs"@,
        d.balance.shop_trades@[2].reward@[0].resource_id@ == "coins"@,
        d.balance.tower_rewards@[0].floor == 1,
        d.balance.tower_rewards@[0].rewards@.len() == 1,
        d.balance.tower_rewards@[0].rewards@[0].resource_id@ == "coins"@,
        d.balance.tower_rewards@[0].rewards@[0].amount > 0,
        d.tower_floors@[0].floor == 1,
        d.balance.combat_cooldowns@.len() == 2,
        d.balance.combat_cooldowns@[0].id@ == "skill"@,
        d.balance.combat_cooldowns@[1].id@ == "item"@,
        d.balance.shop_trades@.len() == 3,
        d.balance.shop_trades@[0].id@ == "buy_herbs"@,
        d.balance.shop_trades@[1].id@ == "buy_stone"@,
        d.balance.shop_trades@[2].id@ == "sell_herbs"@,
        d.balance.tower_rewards@.len() == 1,
    ensures
        load_problem(d) is None,
        d.indexed(),
{
    reveal_strlit("coins");
    reveal_strlit("wood");
    reveal_strlit("stone");
    reveal_strlit("herbs");
    reveal_strlit("skill");
    reveal_strlit("item");
    reveal_strlit("buy_herbs");
    reveal_strlit("buy_stone");
    reveal_strlit("sell_herbs");
    reveal_strlit("balanced");
    reveal_strlit("slime");
    let r = d.resources@;
    assert(r[0].id@[0] != r[1].id@[0]);
    assert(r[0].id@[0] != r[2].id@[0]);
    assert(r[0].id@[0] != r[3].id@[0]);
    assert(r[1].id@[0] != r[2].id@[0]);
    assert(r[1].id@[0] != r[3].id@[0]);
    assert(r[2].id@[0] != r[3].id@[0]);
    assert(keys_unique(r));
    assert(d.balance.combat_cooldowns@[0].id@[0] != d.balance.combat_cooldowns@[1].id@[0]);
    assert(keys_unique(d.balance.combat_cooldowns@));
    let t = d.balance.shop_trades@;
    assert(t[0].id@[4] != t[1].id@[4]);
    assert(t[0].id@[0] != t[2].id@[0]);
    assert(t[1].id@[0] != t[2].id@[0]);
    assert(keys_unique(t));
    lemma_unique_no_repeats("resource"@, d.resources@);
    lemma_unique_no_repeats("building"@, d.buildings@);
    lemma_unique_no_repeats("monster species"@, d.monster_species@);
    lemma_unique_no_repeats("egg type"@, d.egg_types@);
    lemma_unique_no_repeated_floors(d.tower_floors@);
    lemma_unique_no_repeats("enemy"@, d.enemies@);
    lemma_unique_no_repeats("tower special location"@, d.tower_special_locations@);
    lemma_unique_no_repeats("tower event"@, d.tower_events@);
    lemma_unique_no_repeats("tower hazard"@, d.tower_hazards@);
    lemma_fallback_contracts(d);
    lemma_unique_no_repeats("tower contract"@, d.tower_contracts@);
    lemma_unique_no_repeats("tower anomaly"@, d.tower_anomalies@);
    lemma_unique_no_repeats("npc"@, d.npcs@);
    lemma_unique_no_repeats("monster stat curve"@, d.balance.monster_stat_curves@);
    lemma_unique_no_repeats("combat cooldown"@, d.balance.combat_cooldowns@);
    lemma_unique_no_repeats("shop trade"@, d.balance.shop_trades@);
    lemma_unique_no_repeated_floors(d.balance.tower_rewards@);
    assert(index_problem(d) is None);
    lemma_first_keyed(d.monster_species@, "slime"@);
    assert(d.spec_species("slime"@) is Some);
    assert(d.buildings@.drop_last().len() == 0);
    assert(first_problem(d.buildings@.drop_last(), d) is None);
    assert(d.buildings@.last().problem(d) is None) by {
        assert(d.buildings@.last().upgrade_cost@.len() == 0);
    }
    assert(first_problem(d.buildings@, d) is None);
    lemma_first_keyed(r, "wood"@);
    lemma_first_keyed(r, "herbs"@);
    lemma_first_keyed(r, "coins"@);
    let f = d.tower_floors@[0];
    assert(f.loot@.drop_last().drop_last().len() == 0);
    assert(missing_resource(d, floor_name(f) + " references missing resource '"@, f.loot@) is None) by {
        let lead = floor_name(f) + " references missing resource '"@;
        assert(f.loot@.drop_last().last() == f.loot@[0]);
        assert(f.loot@.last() == f.loot@[1]);
        assert(has_resource(d, "wood"@));
        assert(has_resource(d, "herbs"@));
        assert(missing_resource(d, lead, f.loot@.drop_last().drop_last()) is None);
        assert(missing_resource(d, lead, f.loot@.drop_last()) is None);
    }
    assert(floor_tail_problem(d, f) is None);
    assert(f.problem(d) is None);
    assert(d.tower_floors@.drop_last().len() == 0);
    assert(first_problem(d.tower_floors@.drop_last(), d) is None);
    assert(d.tower_floors@.last() == f);
    assert(first_problem(d.tower_floors@, d) is None);
    let e = d.enemies@[0];
    assert(has_resource(d, "coins"@));
    assert(e.rewards@.drop_last().len() == 0);
    assert(e.rewards@.last() == e.rewards@[0]);
    let lead = "Enemy '"@ + e.id@ + "' references missing reward resource '"@;
    assert(missing_resource(d, lead, e.rewards@.drop_last()) is None);
    assert(missing_resource(d, lead, e.rewards@) is None);
    assert(e.problem(d) is None);
    assert(d.enemies@.drop_last().len() == 0);
    assert(first_problem(d.enemies@.drop_last(), d) is None);
    assert(d.enemies@.last() == e);
    assert(first_problem(d.enemies@, d) is None);
    lemma_fallback_contracts(d);
    lemma_fallback_tail(d);
    assert(validation_problem(d) is None);
    assert(d.indexed());
}

impl GameData {
    /// The built-in content the game falls back on: the slime starter, four
    /// resources, a first floor with the Moss Mite, and a contract for each
    /// run goal. It passes every check that loaded content goes through.
    pub fn fallback() -> (r: GameData)
        ensures
            load_problem(r) is None,
            r.indexed(),
            r.config.starter_species_id@ == "slime"@,
            r.spec_species("slime"@) is Some,
            r.spec_resource_name("coins"@) == "Coins"@,
            r.spec_tower_floor(1) matches Some(f) && f.pressure_limit == 8,
            r.spec_enemy("moss_mite"@) matches Some(e) && e.max_hp == 14,
            forall|i: int| 0 <= i < 6 ==> (#[trigger] r.spec_tower_contract(required_contracts()[i])) is Some,
    {
        let balance = BalanceData {
            monster_stat_curves: vec![MonsterStatCurveDefinition {
                species_id: String::from_str("slime"),
                hp_per_level: 3,
                attack_per_level: 1,
                defense_per_level: 1,
                speed_per_interval: 1,
                speed_interval: 2,
            }],
            combat_cooldowns: vec![
                CombatCooldownDefinition { id: String::from_str("skill"), turns: 0 },
                CombatCooldownDefinition { id: String::from_str("item"), turns: 0 },
            ],
            shop_trades: vec![
                trade("buy_herbs", "Buy Herbs", "Restock egg warming and grove supplies.", amount("coins", 6), amount("herbs", 3)),
                trade("buy_stone", "Buy Stone", "Convert coins into upgrade materials.", amount("coins", 8), amount("stone", 4)),
                trade("sell_herbs", "Sell Herbs", "Turn spare herbs back into coins.", amount("herbs", 2), amount("coins", 5)),
            ],
            tower_rewards: vec![TowerRewardDefinition { floor: 1, rewards: vec![amount("coins", 2)] }],
        };
        let config = GameConfig {
            save_version: 1,
            starting_day: 1,
            starter_species_id: String::from_str("slime"),
            starter_name: String::from_str("Pip"),
            starting_log: vec![
                String::from_str("A ruined tower rises above the camp."),
                String::from_str("Pip the slime waits beside a cold hatchery brazier."),
            ],
        };
        let resources = vec![
            resource("coins", "Coins", 30),
            resource("wood", "Wood", 12),
            resource("stone", "Stone", 8),
            resource("herbs", "Herbs", 5),
        ];
        let buildings = vec![BuildingDefinition {
            id: String::from_str("camp"),
            name: String::from_str("Tower Camp"),
            description: String::from_str("A small shelter where each new day begins."),
            starting_level: 1,
            max_level: 3,
            upgrade_cost: Vec::new(),
        }];
        let species = vec![MonsterSpeciesDefinition {
            id: String::from_str("slime"),
            name: String::from_str("Slime"),
            element: Element::Water,
            temperament: Temperament::Loyal,
            role: MonsterRole::Scout,
            passive: PassiveSkill::FindsSmallLoot,
            town_skill: TownSkill::HatcheryHelper,
            base_hp: 18,
            base_attack: 4,
            base_defense: 3,
            base_speed: 6,
        }];
        let floors = vec![TowerFloorDefinition {
            floor: 1,
            name: String::from_str("Tower Edge"),
            theme: String::from_str("Broken stairways and mossy rooms."),
            enemy_hint: String::from_str("Wary tower vermin"),
            loot: vec![amount("wood", 4), amount("herbs", 2)],
            egg_types: Vec::new(),
            pressure_limit: 8,
            unlocks_floor: 2,
            is_boss_floor: false,
            guardian_enemy_id: String::new(),
            guardian_egg_type_id: String::new(),
        }];
        let enemies = vec![EnemyDefinition {
            id: String::from_str("moss_mite"),
            name: String::from_str("Moss Mite"),
            description: String::from_str("A skittering tower pest."),
            min_floor: 1,
            max_floor: 3,
            is_boss: false,
            max_hp: 14,
            attack: 4,
            defense: 1,
            speed: 5,
            xp_reward: 5,
            rewards: vec![amount("coins", 3)],
            behavior: EnemyBehavior::Standard,
            visual: DungeonEnemyVisual::Crawler,
            pack_size: 1,
        }];
        let eggs: Vec<EggTypeDefinition> = Vec::new();
        let locations: Vec<TowerSpecialLocationDefinition> = Vec::new();
        let events: Vec<TowerEventDefinition> = Vec::new();
        let hazards: Vec<TowerHazardDefinition> = Vec::new();
        let contracts = vec![
            contract("balanced", "Steady Descent", "Resolve a landmark on this run.", TowerContractTarget::Landmarks, 1, 4),
            contract("egg_hunt", "Nest Survey", "Carry two eggs home.", TowerContractTarget::Eggs, 2, 6),
            contract("salvage", "Salvage Haul", "Carry twelve cargo home.", TowerContractTarget::Cargo, 12, 4),
            contract("scout", "Scout Sweep", "Walk twenty steps through the tower.", TowerContractTarget::Steps, 20, 4),
            contract("push_deeper", "Deep Push", "Reach a new floor.", TowerContractTarget::Floors, 1, 4),
            contract("safe_run", "Safe Passage", "Counter a hazard.", TowerContractTarget::HazardsCountered, 1, 4),
        ];
        let anomalies: Vec<TowerAnomalyDefinition> = Vec::new();
        let npcs: Vec<NpcDefinition> = Vec::new();
        let d = GameData {
            config,
            balance,
            resources,
            buildings,
            monster_species: species,
            egg_types: eggs,
            tower_floors: floors,
            enemies,
            tower_special_locations: locations,
            tower_events: events,
            tower_hazards: hazards,
            tower_contracts: contracts,
            tower_anomalies: anomalies,
            npcs,
        };
        proof {
            reveal_strlit("balanced");
            reveal_strlit("egg_hunt");
            reveal_strlit("salvage");
            reveal_strlit("scout");
            reveal_strlit("push_deeper");
            reveal_strlit("safe_run");
            assert(forall|i: int| 0 <= i < 6 ==> #[trigger] d.tower_contracts@[i].id@ == required_contracts()[i]);
            lemma_fallback_problem(d);
            lemma_fallback_contracts(d);
            reveal_strlit("coins");
            reveal_strlit("moss_mite");
            lemma_first_keyed(d.resources@, "coins"@);
            lemma_first_keyed(d.enemies@, "moss_mite"@);
            lemma_first_keyed(d.monster_species@, "slime"@);
            crate::data::game_data::lemma_first_floor(d.tower_floors@, 1);
        }
        d
    }
}

} // verus!
