use lib::assets::{DungeonBiome, DungeonRoomPurpose};
use lib::data::game_data::GameData;
use lib::data::schema::{
    BalanceData, BuildingDefinition, CombatCooldownDefinition, DungeonEnemyVisual, EggTypeDefinition, Element,
    EnemyBehavior, EnemyDefinition, GameConfig, MonsterRole, MonsterSpeciesDefinition, MonsterStatCurveDefinition,
    NpcDefinition, PassiveSkill, ResourceAmount, ResourceDefinition, ShopTradeDefinition, Temperament,
    TowerAnomalyDefinition, TowerAnomalyEffect, TowerBlessing, TowerContractDefinition, TowerContractTarget,
    TowerEventDefinition, TowerFloorDefinition, TowerHazardDefinition, TowerHazardVisual, TowerLocationVisual,
    TowerRewardDefinition, TowerSpecialLocationDefinition, TownSkill,
};
use lib::engine::breeding_engine::{
    breed_pair, breeding_cost, compatibility_label, forecast_pair, lineage_quality, lineage_quality_label, mutation_chance,
    pair_is_compatible,
};
use lib::engine::day_engine::sleep;
use lib::engine::tower_engine::survey::{reveal_secret_in_current_room, survey_floor};
use lib::state::eggs::EggCareFocus;
use lib::engine::combat_engine::{finish_combat, player_action, start_encounter, CombatCommand};
use lib::engine::egg_engine::{care_bonus, care_for_egg, hatch_egg, likely_species_text, trait_preview_text};
use lib::engine::job_engine::{assign_job, clear_job, job_detail, job_preview, run_daily_jobs};
use lib::engine::monster_engine::{recover_monsters, toggle_party_member};
use lib::state::combat::{CombatSide, CombatTurn};
use lib::state::town::TownJobKind;
use lib::engine::combat_replay::{CombatReplay, ReplayReport};
use lib::engine::tower_engine::anomalies::select_anomaly_id;
use lib::engine::tower_engine::camp::camp_party;
use lib::engine::tower_engine::discovery::record_visible_discoveries;
use lib::engine::tower_engine::event_choices::{apply_tower_event, choose_special_event, event_choice_available, leave_special_event};
use lib::engine::tower_engine::map_gen::{generate_map, reveal_current_area};
use lib::engine::tower_engine::navigation::{explore_direction, route_direction};
use lib::engine::tower_engine::return_to_town;
use lib::engine::tower_engine::runs::ensure_map;
use lib::engine::tower_engine::contracts::{contract_progress, refresh_contract};
use lib::engine::tower_engine::pressure::refresh_pressure;
use lib::engine::tower_engine::survey::reveal_hidden_room_for_goal;
use lib::engine::tower_engine::map_objects::{egg_objects, hazard_objects, spawn_pressure_enemy, special_location_objects};
use lib::engine::tower_engine::movement::{move_party, resolve_hazard, resolve_map_object};
use lib::engine::tower_engine::navigation::{advance_wandering_enemy, WanderingAdvance};
use lib::engine::tower_engine::runs::start_run;
use lib::state::combat::CombatOutcome;
use lib::state::game::GameState;
use lib::state::tower_map::{
    TowerMapObject, TowerMapObjectKind, TowerMapRng, TowerMapState, TowerRoom, TowerRoomKind, TowerTileKind,
    TowerTileVisibility,
};
use lib::state::tower_run::{TowerFoundEgg, TowerPendingEvent, TowerRunGoal, TowerRunState};

fn amount(id: &str, n: i32) -> ResourceAmount {
    ResourceAmount { resource_id: id.to_owned(), amount: n }
}

fn resource(id: &str, name: &str, start: i32) -> ResourceDefinition {
    ResourceDefinition { id: id.to_owned(), name: name.to_owned(), starting_amount: start }
}

fn building(id: &str, name: &str, start: u32) -> BuildingDefinition {
    BuildingDefinition {
        id: id.to_owned(),
        name: name.to_owned(),
        description: String::new(),
        starting_level: start,
        max_level: 3,
        upgrade_cost: vec![amount("wood", 4)],
    }
}

#[allow(clippy::too_many_arguments)]
fn species(
    id: &str,
    name: &str,
    element: Element,
    role: MonsterRole,
    passive: PassiveSkill,
    hp: i32,
    attack: i32,
    defense: i32,
    speed: i32,
) -> MonsterSpeciesDefinition {
    MonsterSpeciesDefinition {
        id: id.to_owned(),
        name: name.to_owned(),
        element,
        temperament: Temperament::Loyal,
        role,
        passive,
        town_skill: TownSkill::HatcheryHelper,
        base_hp: hp,
        base_attack: attack,
        base_defense: defense,
        base_speed: speed,
    }
}

fn curve(id: &str) -> MonsterStatCurveDefinition {
    MonsterStatCurveDefinition {
        species_id: id.to_owned(),
        hp_per_level: 3,
        attack_per_level: 1,
        defense_per_level: 1,
        speed_per_interval: 1,
        speed_interval: 2,
    }
}

fn egg_type(id: &str, name: &str, days: u32, species: &[&str]) -> EggTypeDefinition {
    EggTypeDefinition {
        id: id.to_owned(),
        name: name.to_owned(),
        rarity: "common".to_owned(),
        hatch_days: days,
        discovery_floor: 1,
        possible_species: species.iter().map(|s| s.to_string()).collect(),
        element_bias: vec![Element::Earth],
        temperament_bias: vec![Temperament::Patient],
    }
}

fn floor(n: u32, boss: bool) -> TowerFloorDefinition {
    TowerFloorDefinition {
        floor: n,
        name: format!("Floor {n}"),
        theme: "Mossy rooms.".to_owned(),
        enemy_hint: "Tower vermin".to_owned(),
        loot: vec![amount("wood", 4), amount("herbs", 2)],
        egg_types: vec!["mossy_egg".to_owned()],
        pressure_limit: 10,
        unlocks_floor: n + 1,
        is_boss_floor: boss,
        guardian_enemy_id: if boss { "verdant_crown".to_owned() } else { String::new() },
        guardian_egg_type_id: if boss { "boss_egg".to_owned() } else { String::new() },
    }
}

#[allow(clippy::too_many_arguments)]
fn enemy(id: &str, name: &str, min: u32, max: u32, boss: bool, hp: i32, attack: i32, behavior: EnemyBehavior) -> EnemyDefinition {
    EnemyDefinition {
        id: id.to_owned(),
        name: name.to_owned(),
        description: String::new(),
        min_floor: min,
        max_floor: max,
        is_boss: boss,
        max_hp: hp,
        attack,
        defense: 1,
        speed: 4,
        xp_reward: 5,
        rewards: vec![amount("coins", 3)],
        behavior,
        visual: DungeonEnemyVisual::Crawler,
        pack_size: 1,
    }
}

fn anomaly(id: &str, effect: TowerAnomalyEffect) -> TowerAnomalyDefinition {
    TowerAnomalyDefinition {
        id: id.to_owned(),
        name: id.to_owned(),
        description: String::new(),
        min_floor: 2,
        max_floor: 10,
        visual_index: 0,
        effect,
    }
}

fn contract(id: &str, name: &str, target: TowerContractTarget, n: u32, coins: i32) -> TowerContractDefinition {
    TowerContractDefinition {
        id: id.to_owned(),
        name: name.to_owned(),
        description: String::new(),
        target,
        target_amount: n,
        rewards: vec![amount("coins", coins)],
    }
}

fn event(id: &str, name: &str) -> TowerEventDefinition {
    TowerEventDefinition {
        id: id.to_owned(),
        name: name.to_owned(),
        narrative: String::new(),
        rewards: Vec::new(),
        cargo_costs: Vec::new(),
        pressure_delta: 0,
        party_healing: 0,
        enemy_id: String::new(),
        egg_type_id: String::new(),
        reveal_map: false,
        refresh_camp: false,
        blessing: None,
        required_passive: None,
        required_element: None,
    }
}

fn game_data() -> GameData {
    let mut blessing = event("keepers_blessing", "Keeper's Blessing");
    blessing.blessing = Some(TowerBlessing::QuietSteps);
    let mut offering = event("moss_mite_offering", "Moss Mite Offering");
    offering.enemy_id = "moss_mite".to_owned();
    let mut draught = event("restorative_draught", "Restorative Draught");
    draught.party_healing = 4;
    draught.required_passive = Some(PassiveSkill::SoothesInjuries);
    let mut reveal = event("roots_reveal_cache", "Buried Route");
    reveal.rewards = vec![amount("wood", 3)];
    reveal.cargo_costs = vec![amount("herbs", 1)];
    reveal.reveal_map = true;
    GameData {
        config: GameConfig {
            save_version: 1,
            starting_day: 1,
            starter_species_id: "slime".to_owned(),
            starter_name: "Pip".to_owned(),
            starting_log: vec!["A ruined tower rises above the camp.".to_owned()],
        },
        balance: BalanceData {
            monster_stat_curves: vec![curve("slime"), curve("rootling"), curve("rillfin")],
            combat_cooldowns: vec![
                CombatCooldownDefinition { id: "skill".to_owned(), turns: 0 },
                CombatCooldownDefinition { id: "item".to_owned(), turns: 0 },
            ],
            shop_trades: vec![ShopTradeDefinition {
                id: "buy_herbs".to_owned(),
                label: "Buy Herbs".to_owned(),
                detail: String::new(),
                cost: vec![amount("coins", 6)],
                reward: vec![amount("herbs", 3)],
            }],
            tower_rewards: vec![TowerRewardDefinition { floor: 1, rewards: vec![amount("coins", 2)] }],
        },
        resources: vec![
            resource("coins", "Coins", 30),
            resource("wood", "Wood", 12),
            resource("stone", "Stone", 8),
            resource("herbs", "Herbs", 5),
            resource("ore", "Ore", 0),
        ],
        buildings: vec![
            building("camp", "Tower Camp", 1),
            building("hatchery", "Hatchery", 1),
            building("stable", "Stable", 0),
            building("workshop", "Workshop", 0),
            building("breeding_grove", "Breeding Grove", 0),
        ],
        monster_species: vec![
            species("slime", "Slime", Element::Water, MonsterRole::Scout, PassiveSkill::FindsSmallLoot, 18, 6, 3, 6),
            species("rootling", "Rootling", Element::Earth, MonsterRole::Tank, PassiveSkill::FindsStone, 24, 4, 5, 3),
            species("rillfin", "Rillfin", Element::Water, MonsterRole::Support, PassiveSkill::SoothesInjuries, 16, 4, 2, 7),
        ],
        egg_types: vec![
            egg_type("mossy_egg", "Mossy Egg", 3, &["rootling", "rillfin"]),
            egg_type("boss_egg", "Crown Egg", 4, &["rootling"]),
        ],
        tower_floors: vec![floor(1, false), floor(2, false), floor(3, true)],
        enemies: vec![
            enemy("moss_mite", "Moss Mite", 1, 3, false, 10, 3, EnemyBehavior::Standard),
            enemy("moss_crawler", "Moss Crawler", 1, 3, false, 12, 3, EnemyBehavior::Standard),
            enemy("crystal_anemone", "Crystal Anemone", 2, 5, false, 14, 4, EnemyBehavior::Standard),
            enemy("verdant_crown", "Verdant Crown", 3, 3, true, 40, 7, EnemyBehavior::Bruiser),
        ],
        tower_special_locations: vec![
            TowerSpecialLocationDefinition {
                id: "mossbound_shrine".to_owned(),
                name: "Mossbound Shrine".to_owned(),
                description: String::new(),
                min_floor: 1,
                max_floor: 5,
                visual: TowerLocationVisual::Shrine,
                event_ids: vec!["keepers_blessing".to_owned(), "moss_mite_offering".to_owned()],
            },
            TowerSpecialLocationDefinition {
                id: "lantern_well".to_owned(),
                name: "Lantern Well".to_owned(),
                description: String::new(),
                min_floor: 1,
                max_floor: 5,
                visual: TowerLocationVisual::RecoverySpring,
                event_ids: vec!["restorative_draught".to_owned()],
            },
            TowerSpecialLocationDefinition {
                id: "root_oracle".to_owned(),
                name: "Root Oracle".to_owned(),
                description: String::new(),
                min_floor: 1,
                max_floor: 5,
                visual: TowerLocationVisual::SecretClue,
                event_ids: vec!["roots_reveal_cache".to_owned()],
            },
        ],
        tower_events: vec![blessing, offering, draught, reveal],
        tower_hazards: vec![
            TowerHazardDefinition {
                id: "spore_bloom".to_owned(),
                name: "Spore Bloom".to_owned(),
                description: String::new(),
                min_floor: 1,
                max_floor: 5,
                visual: TowerHazardVisual::Spores,
                damage: 3,
                pressure: 1,
                counter_passive: Some(PassiveSkill::ResistsPoison),
                counter_element: None,
                counter_rewards: vec![amount("herbs", 1)],
            },
            TowerHazardDefinition {
                id: "cinder_vent".to_owned(),
                name: "Cinder Vent".to_owned(),
                description: String::new(),
                min_floor: 4,
                max_floor: 6,
                visual: TowerHazardVisual::CinderVent,
                damage: 5,
                pressure: 1,
                counter_passive: None,
                counter_element: Some(Element::Water),
                counter_rewards: vec![amount("ore", 2)],
            },
            TowerHazardDefinition {
                id: "frostfall".to_owned(),
                name: "Frostfall Arch".to_owned(),
                description: String::new(),
                min_floor: 6,
                max_floor: 9,
                visual: TowerHazardVisual::Frostfall,
                damage: 4,
                pressure: 2,
                counter_passive: Some(PassiveSkill::BurnsBrambles),
                counter_element: Some(Element::Fire),
                counter_rewards: vec![amount("ore", 1)],
            },
        ],
        tower_contracts: vec![
            contract("balanced", "Steady Descent", TowerContractTarget::Landmarks, 1, 4),
            contract("egg_hunt", "Nest Survey", TowerContractTarget::Eggs, 2, 6),
            contract("salvage", "Salvage Haul", TowerContractTarget::Cargo, 12, 4),
            contract("scout", "Scout Sweep", TowerContractTarget::Steps, 20, 4),
            contract("push_deeper", "Deep Push", TowerContractTarget::Floors, 1, 4),
            contract("safe_run", "Safe Passage", TowerContractTarget::HazardsCountered, 1, 4),
        ],
        tower_anomalies: vec![
            anomaly("echo_rain", TowerAnomalyEffect::EchoingRain),
            anomaly("veil_mist", TowerAnomalyEffect::QuietVeil),
            anomaly("crystal_bloom", TowerAnomalyEffect::CacheBloom),
            anomaly("nesting_pollen", TowerAnomalyEffect::NestingPulse),
            anomaly("mending_lights", TowerAnomalyEffect::MendingLights),
            anomaly("hunter_tracks", TowerAnomalyEffect::HunterTracks),
        ],
        npcs: vec![NpcDefinition {
            id: "keeper".to_owned(),
            name: "Keeper".to_owned(),
            service: "hatchery".to_owned(),
            description: String::new(),
        }],
    }
}

fn data_and_state() -> (GameData, GameState) {
    let data = game_data();
    let state = GameState::new(&data);
    (data, state)
}

// ---------------------------------------------------------------- combat replay

fn complete_with(data: &GameData, state: &mut GameState, command: CombatCommand) -> CombatReplay {
    start_encounter(state, data, 1, false);
    for _ in 0..80 {
        if state.combat.as_ref().is_some_and(|combat| combat.outcome.is_some()) {
            break;
        }
        player_action(state, data, command);
    }
    CombatReplay::from_combat(state.combat.as_ref().expect("combat should remain for replay"))
}

fn starter_index(state: &GameState) -> usize {
    state.monster_roster.position(1).expect("starter exists")
}

#[test]
fn victory_replay_matches_every_command() {
    let (data, mut state) = data_and_state();
    let replay = complete_with(&data, &mut state, CombatCommand::Attack);
    assert_eq!(replay.expected_outcome, Some(CombatOutcome::Victory));
    assert_eq!(replay.run(&data), ReplayReport::Match);
}

#[test]
fn defeat_replay_matches_the_rescue_path() {
    let (data, mut state) = data_and_state();
    let i = starter_index(&state);
    state.monster_roster.monsters[i].hp = 1;
    state.monster_roster.monsters[i].max_hp = 1;
    let replay = complete_with(&data, &mut state, CombatCommand::Defend);
    assert_eq!(replay.expected_outcome, Some(CombatOutcome::Defeat));
    assert_eq!(replay.run(&data), ReplayReport::Match);
}

#[test]
fn fleeing_replay_uses_the_recorded_seed() {
    let (data, mut state) = data_and_state();
    let replay = complete_with(&data, &mut state, CombatCommand::Flee);
    assert_eq!(replay.expected_outcome, Some(CombatOutcome::Fled));
    assert_eq!(replay.run(&data), ReplayReport::Match);
}

#[test]
fn item_use_replay_matches_healing_and_resource_consumption() {
    let (data, mut state) = data_and_state();
    let i = starter_index(&state);
    state.monster_roster.monsters[i].hp = 2;
    start_encounter(&mut state, &data, 1, false);
    let herbs_before = state.resources.amount("herbs");
    player_action(&mut state, &data, CombatCommand::Item);
    let replay = CombatReplay::from_combat(state.combat.as_ref().expect("combat remains"));
    assert_eq!(state.resources.amount("herbs"), herbs_before - 1);
    assert_eq!(replay.run(&data), ReplayReport::Match);
}

// ---------------------------------------------------------------- anomalies at run time

fn run_with_anomaly(id: &str) -> (GameData, GameState) {
    let data = game_data();
    let mut state = GameState::new(&data);
    start_run(&mut state, &data, TowerRunGoal::Balanced);
    state.tower_run.as_mut().unwrap().anomaly_id = id.to_owned();
    (data, state)
}

fn adjacent_step(map: &TowerMapState) -> (i32, i32, u32, u32) {
    [(1, 0), (-1, 0), (0, 1), (0, -1)]
        .into_iter()
        .find_map(|(dx, dy)| {
            let x = map.player_x as i32 + dx;
            let y = map.player_y as i32 + dy;
            (x >= 0 && y >= 0 && map.is_passable(x as u32, y as u32)).then_some((dx, dy, x as u32, y as u32))
        })
        .expect("start room should have an adjacent passable tile")
}

fn map_object(kind: TowerMapObjectKind, resource_id: &str, amount: i32, hatch_days: u32) -> TowerMapObject {
    TowerMapObject {
        kind,
        x: 0,
        y: 0,
        resource_id: resource_id.to_owned(),
        amount,
        egg_type_id: String::new(),
        hatch_days,
        palette_seed: 17,
        enemy_id: String::new(),
        special_location_id: String::new(),
        event_id: String::new(),
        hazard_id: String::new(),
        wandering: false,
        revealed: false,
    }
}

#[test]
fn echo_rain_raises_pressure_on_the_third_step() {
    let (data, mut state) = run_with_anomaly("echo_rain");
    let run = state.tower_run.as_mut().unwrap();
    run.rooms_explored = 2;
    run.pressure = 0;
    let (dx, dy, x, y) = adjacent_step(&run.map);
    run.map.objects.retain(|object| object.x != x || object.y != y);

    move_party(&mut state, &data, dx, dy);

    assert_eq!(state.tower_run.as_ref().unwrap().pressure, 1);
}

#[test]
fn veil_mist_skips_the_normal_fourth_step_pressure_tick() {
    let (data, mut state) = run_with_anomaly("veil_mist");
    let run = state.tower_run.as_mut().unwrap();
    run.rooms_explored = 3;
    run.pressure = 0;
    let (dx, dy, x, y) = adjacent_step(&run.map);
    run.map.objects.retain(|object| object.x != x || object.y != y);

    move_party(&mut state, &data, dx, dy);

    assert_eq!(state.tower_run.as_ref().unwrap().pressure, 0);
}

#[test]
fn crystal_bloom_adds_material_to_cache_pickups() {
    let (data, mut state) = run_with_anomaly("crystal_bloom");
    let cache = map_object(TowerMapObjectKind::Loot, "wood", 3, 0);

    resolve_map_object(&mut state, &data, cache);

    assert_eq!(state.tower_run.as_ref().unwrap().cargo_amount(), 5);
}

#[test]
fn nesting_pollen_shortens_found_egg_incubation() {
    let (data, mut state) = run_with_anomaly("nesting_pollen");
    let mut egg = map_object(TowerMapObjectKind::Egg, "", 0, 4);
    egg.egg_type_id = "mossy_egg".to_owned();

    resolve_map_object(&mut state, &data, egg);

    assert_eq!(state.tower_run.as_ref().unwrap().found_eggs[0].hatch_days, 3);
}

#[test]
fn mending_lights_improve_camp_healing_and_cooldown() {
    let (data, mut state) = run_with_anomaly("mending_lights");
    state.monster_roster.monsters[0].hp -= 8;
    let hp_before = state.monster_roster.monsters[0].hp;

    camp_party(&mut state, &data);

    assert_eq!(state.monster_roster.monsters[0].hp, hp_before + 5);
    assert_eq!(state.tower_run.as_ref().unwrap().camp_cooldown, 6);
}

#[test]
fn hunter_tracks_move_a_wandering_enemy_every_step() {
    let (data, mut state) = run_with_anomaly("hunter_tracks");
    let mut map = TowerMapState::new(7, 5, 5, 51);
    for y in 1..4 {
        for x in 1..6 {
            map.set_tile(x, y, TowerTileKind::Corridor);
        }
    }
    map.player_x = 3;
    map.player_y = 2;
    let mut hunter = map_object(TowerMapObjectKind::Enemy, "", 0, 0);
    hunter.enemy_id = "crystal_anemone".to_owned();
    hunter.x = 1;
    hunter.y = 2;
    hunter.wandering = true;
    map.objects.push(hunter);
    state.tower_run.as_mut().unwrap().map = map;

    move_party(&mut state, &data, 1, 0);

    let hunter = state
        .tower_run
        .as_ref()
        .unwrap()
        .map
        .objects
        .iter()
        .find(|object| object.wandering)
        .expect("hunter should remain on the map");
    assert_eq!((hunter.x, hunter.y), (2, 2));
}

// ---------------------------------------------------------------- wandering hunters

fn open_chase_map() -> TowerMapState {
    let mut map = TowerMapState::new(7, 5, 1, 41);
    for y in 1..4 {
        for x in 1..6 {
            map.set_tile(x, y, TowerTileKind::Corridor);
        }
    }
    map
}

#[test]
fn wandering_enemy_routes_around_an_occupied_tile() {
    let mut map = open_chase_map();
    map.player_x = 5;
    map.player_y = 2;
    let mut hunter = TowerMapObject::enemy("moss_crawler");
    hunter.x = 1;
    hunter.y = 2;
    hunter.wandering = true;
    let mut blocker = TowerMapObject::hazard("spore_bloom");
    blocker.x = 2;
    blocker.y = 2;
    map.objects = vec![hunter, blocker];

    assert!(matches!(advance_wandering_enemy(&mut map), Some(WanderingAdvance::Moved)));
    let hunter = map.objects.iter().find(|object| object.wandering).unwrap();
    assert_eq!((hunter.x, hunter.y), (1, 1));
}

#[test]
fn wandering_enemy_intercepts_and_leaves_the_map() {
    let mut map = open_chase_map();
    map.player_x = 5;
    map.player_y = 2;
    let mut hunter = TowerMapObject::enemy("moss_crawler");
    hunter.x = 4;
    hunter.y = 2;
    hunter.wandering = true;
    map.objects.push(hunter);

    let Some(WanderingAdvance::Encounter(encounter)) = advance_wandering_enemy(&mut map) else {
        panic!("adjacent hunter should intercept the party");
    };
    assert_eq!(encounter.enemy_id, "moss_crawler");
    assert!(encounter.wandering);
    assert!(map.objects.is_empty());
}

// ---------------------------------------------------------------- combat outcomes

fn victory_adds_fatigue_case() {
    let (data, mut state) = data_and_state();
    start_encounter(&mut state, &data, 1, false);
    state.combat.as_mut().unwrap().outcome = Some(CombatOutcome::Victory);
    finish_combat(&mut state, &data);

    let starter = state.monster_roster.monster(1).unwrap();
    assert_eq!(starter.condition.fatigue, 1);
    assert_eq!(starter.condition.injury_days, 0);
}

#[test]
fn combat_engine_victory_adds_fatigue_to_surviving_party_members() {
    victory_adds_fatigue_case();
}

#[test]
fn tests_victory_adds_fatigue_to_surviving_party_members() {
    victory_adds_fatigue_case();
}

fn defeat_injures_case() {
    let (data, mut state) = data_and_state();
    start_encounter(&mut state, &data, 1, false);
    state.combat.as_mut().unwrap().outcome = Some(CombatOutcome::Defeat);
    finish_combat(&mut state, &data);

    let starter = state.monster_roster.monster(1).unwrap();
    assert_eq!(starter.hp, 1);
    assert_eq!(starter.condition.injury_days, 2);
    assert_eq!(starter.condition.fatigue, 3);
}

#[test]
fn combat_engine_defeat_injures_and_tires_party_members() {
    defeat_injures_case();
}

#[test]
fn tests_defeat_injures_and_tires_party_members() {
    defeat_injures_case();
}

fn scout_mark_case() {
    let (data, mut state) = data_and_state();
    let starting_coins = state.resources.amount("coins");

    start_encounter(&mut state, &data, 1, false);
    let result = player_action(&mut state, &data, CombatCommand::Skill);
    assert!(result.summary.contains("marks"));
    assert!(state.combat.as_ref().unwrap().enemies.iter().any(|enemy| enemy.is_marked));

    state.combat.as_mut().unwrap().outcome = Some(CombatOutcome::Victory);
    finish_combat(&mut state, &data);

    assert!(state.resources.amount("coins") >= starting_coins + 5);
}

#[test]
fn combat_engine_scout_mark_adds_victory_loot_bonus() {
    scout_mark_case();
}

#[test]
fn tests_scout_mark_adds_victory_loot_bonus() {
    scout_mark_case();
}

fn tank_guard_case() {
    let (data, mut state) = data_and_state();
    let rootling = data.species("rootling").expect("rootling should exist");
    let rillfin = data.species("rillfin").expect("rillfin should exist");
    let tank_id = state.monster_roster.add_monster("Root".to_owned(), rootling, 0x7007);
    let back_id = state.monster_roster.add_monster("Ripple".to_owned(), rillfin, 0x7008);
    state.monster_roster.party_slots = vec![Some(tank_id), None, None, Some(back_id), None, None];

    start_encounter(&mut state, &data, 3, false);
    let tank_index = state
        .combat
        .as_ref()
        .unwrap()
        .allies
        .iter()
        .position(|ally| ally.monster_id == Some(tank_id))
        .unwrap();
    let enemy_index = 0;
    {
        let combat = state.combat.as_mut().unwrap();
        combat.floor = 3;
        combat.round = 1;
        combat.turn_order = vec![
            CombatTurn { side: CombatSide::Ally, slot: tank_index },
            CombatTurn { side: CombatSide::Enemy, slot: enemy_index },
        ];
        combat.turn_index = 0;
    }
    let back_hp_before = state
        .combat
        .as_ref()
        .unwrap()
        .allies
        .iter()
        .find(|ally| ally.monster_id == Some(back_id))
        .unwrap()
        .hp;

    let result = player_action(&mut state, &data, CombatCommand::Skill);
    assert!(result.summary.contains("guards"));

    let combat = state.combat.as_ref().unwrap();
    let tank = combat.allies.iter().find(|ally| ally.monster_id == Some(tank_id)).unwrap();
    let back = combat.allies.iter().find(|ally| ally.monster_id == Some(back_id)).unwrap();
    assert!(tank.hp < tank.max_hp);
    assert_eq!(back.hp, back_hp_before);
}

#[test]
fn combat_engine_tank_guard_redirects_back_row_pressure() {
    tank_guard_case();
}

#[test]
fn tests_tank_guard_redirects_back_row_pressure() {
    tank_guard_case();
}

// ---------------------------------------------------------------- recovery

fn recovery_case() {
    let (_data, mut state) = data_and_state();
    let i = starter_index(&state);
    state.monster_roster.monsters[i].condition.fatigue = 5;
    state.monster_roster.monsters[i].condition.injury_days = 1;
    state.monster_roster.monsters[i].hp = 1;

    let result = recover_monsters(&mut state);
    let recovered = state.monster_roster.monster(1).unwrap();

    assert_eq!(result.fatigue_reduced, 1);
    assert_eq!(result.injuries_healed, 1);
    assert_eq!(result.rested, 1);
    assert_eq!(recovered.condition.fatigue, 3);
    assert_eq!(recovered.condition.injury_days, 0);
    assert_eq!(recovered.hp, recovered.max_hp);
}

#[test]
fn monster_engine_recovery_reduces_strain_and_heals_injury_timer() {
    recovery_case();
}

#[test]
fn tests_recovery_reduces_strain_and_heals_injury_timer() {
    recovery_case();
}

// ---------------------------------------------------------------- eggs

fn stable_full_case() {
    let (data, mut state) = data_and_state();
    state.town.set_building_level("hatchery", 1);
    let rootling = data.species("rootling").expect("rootling should exist");
    let rillfin = data.species("rillfin").expect("rillfin should exist");
    state.monster_roster.add_monster("Root".to_owned(), rootling, 0x1001);
    state.monster_roster.add_monster("Ripple".to_owned(), rillfin, 0x1002);
    let egg_id = state.egg_inventory.add_egg("mossy_egg".to_owned(), 0, 1, 0x2001);

    let result = hatch_egg(&mut state, &data, egg_id);

    assert!(result.summary.contains("Stable capacity is full"));
    assert_eq!(state.monster_roster.monsters.len(), 3);
    assert!(state.egg_inventory.eggs.iter().any(|egg| egg.id == egg_id));
}

#[test]
fn egg_engine_stable_capacity_blocks_hatching_without_consuming_egg() {
    stable_full_case();
}

#[test]
fn tests_stable_capacity_blocks_hatching_without_consuming_egg() {
    stable_full_case();
}

fn upgraded_stable_case() {
    let (data, mut state) = data_and_state();
    state.town.set_building_level("hatchery", 1);
    state.town.set_building_level("stable", 1);
    let rootling = data.species("rootling").expect("rootling should exist");
    let rillfin = data.species("rillfin").expect("rillfin should exist");
    state.monster_roster.add_monster("Root".to_owned(), rootling, 0x1001);
    state.monster_roster.add_monster("Ripple".to_owned(), rillfin, 0x1002);
    let egg_id = state.egg_inventory.add_egg("mossy_egg".to_owned(), 0, 1, 0x2001);

    let result = hatch_egg(&mut state, &data, egg_id);

    assert!(result.summary.contains("hatched"));
    assert_eq!(state.monster_roster.monsters.len(), 4);
    assert!(state.egg_inventory.eggs.is_empty());
}

#[test]
fn egg_engine_upgraded_stable_allows_hatching_past_base_capacity() {
    upgraded_stable_case();
}

#[test]
fn tests_upgraded_stable_allows_hatching_past_base_capacity() {
    upgraded_stable_case();
}

// ---------------------------------------------------------------- breeding

fn breeding_case() {
    let (data, mut state) = data_and_state();
    state.town.set_building_level("breeding_grove", 1);
    state.town.set_building_level("hatchery", 1);
    state.resources.add("herbs", 10);
    state.tower_progress.best_floor = 5;

    let rillfin = data.species("rillfin").expect("rillfin should exist");
    let second_id = state.monster_roster.add_monster("Ripple".to_owned(), rillfin, 0xBEE5_7001);
    let first_id = 1;
    let first_bond = state.monster_roster.monster(first_id).unwrap().bond;
    let second_bond = state.monster_roster.monster(second_id).unwrap().bond;

    let result = breed_pair(&mut state, &data, first_id, second_id);
    assert!(result.summary.contains("nested"));
    assert_eq!(state.egg_inventory.eggs.len(), 1);
    assert_eq!(state.monster_roster.monster(first_id).unwrap().bond, first_bond + 1);
    assert_eq!(state.monster_roster.monster(second_id).unwrap().bond, second_bond + 1);

    let egg_id = state.egg_inventory.eggs[0].id;
    let inheritance = state.egg_inventory.eggs[0].inheritance.as_ref().expect("bred egg should carry inheritance");
    let parent_ids = inheritance.parent_ids.clone();
    let species_options = inheritance.species_options.clone();
    let element_options = inheritance.element_options.clone();
    let temperament_options = inheritance.temperament_options.clone();
    let passive_options = inheritance.passive_options.clone();
    let lineage_quality = inheritance.lineage_quality;
    assert!(parent_ids.contains(&first_id));
    assert!(parent_ids.contains(&second_id));
    assert!(species_options.iter().any(|id| id == "slime"));
    assert!(species_options.iter().any(|id| id == "rillfin"));
    assert!(lineage_quality >= 2);

    state.egg_inventory.eggs[0].days_remaining = 0;
    let hatch = hatch_egg(&mut state, &data, egg_id);
    assert!(hatch.summary.contains("hatched"));
    let child = state.monster_roster.monsters.last().unwrap();
    assert!(species_options.contains(&child.species_id));
    assert!(element_options.contains(&child.element));
    assert!(temperament_options.contains(&child.temperament));
    assert!(passive_options.contains(&child.passive));
    assert!(child.bond >= lineage_quality);
}

#[test]
fn breeding_engine_breeding_creates_an_inherited_hatchable_egg() {
    breeding_case();
}

#[test]
fn tests_breeding_creates_an_inherited_hatchable_egg() {
    breeding_case();
}

fn breeding_capacity_case() {
    let (data, mut state) = data_and_state();
    state.town.set_building_level("breeding_grove", 1);
    state.town.set_building_level("hatchery", 1);
    state.resources.add("herbs", 10);
    for seed in 0..3 {
        state.egg_inventory.add_egg("mossy_egg".to_owned(), 1, 1, 0x300 + seed);
    }
    let rillfin = data.species("rillfin").expect("rillfin should exist");
    let second_id = state.monster_roster.add_monster("Ripple".to_owned(), rillfin, 0xBEE5_7001);
    let herbs_before = state.resources.amount("herbs");

    let result = breed_pair(&mut state, &data, 1, second_id);

    assert!(result.summary.contains("Hatchery egg capacity is full"));
    assert_eq!(state.resources.amount("herbs"), herbs_before);
    assert_eq!(state.egg_inventory.eggs.len(), 3);
}

#[test]
fn breeding_engine_breeding_respects_hatchery_egg_capacity_before_spending_costs() {
    breeding_capacity_case();
}

#[test]
fn tests_breeding_respects_hatchery_egg_capacity_before_spending_costs() {
    breeding_capacity_case();
}

// ---------------------------------------------------------------- town jobs

fn daily_jobs_case() {
    let (data, mut state) = data_and_state();
    state.town.set_building_level("workshop", 1);
    let monster_id = 1;
    let starting_herbs = state.resources.amount("herbs");
    let starting_bond = state.monster_roster.monster(monster_id).unwrap().bond;

    assign_job(&mut state, &data, monster_id, TownJobKind::Forage);
    let result = run_daily_jobs(&mut state, &data);

    assert!(result.summary.contains("Town jobs produced"));
    assert!(state.resources.amount("herbs") > starting_herbs);
    assert_eq!(state.monster_roster.monster(monster_id).unwrap().bond, starting_bond + 1);
}

#[test]
fn job_engine_daily_jobs_produce_resources_and_bond() {
    daily_jobs_case();
}

#[test]
fn tests_daily_jobs_produce_resources_and_bond() {
    daily_jobs_case();
}

// ---------------------------------------------------------------- survey flares

fn three_room_map(seed: u64) -> TowerMapState {
    let mut map = TowerMapState::new(20, 10, 1, seed);
    map.player_x = 2;
    map.player_y = 3;
    map.rooms = vec![
        TowerRoom { start_x: 1, start_y: 1, width: 4, height: 4 },
        TowerRoom { start_x: 7, start_y: 1, width: 4, height: 4 },
        TowerRoom { start_x: 14, start_y: 1, width: 4, height: 4 },
    ];
    map
}

fn carve_rooms(map: &mut TowerMapState) {
    let rooms: Vec<(u32, u32, u32, u32)> = map.rooms.iter().map(|r| (r.start_x, r.start_y, r.width, r.height)).collect();
    for (sx, sy, w, h) in rooms {
        for y in sy..sy + h {
            for x in sx..sx + w {
                map.set_tile(x, y, TowerTileKind::Floor);
            }
        }
    }
}

#[test]
fn survey_reveals_the_nearest_hidden_room() {
    let mut map = three_room_map(7);
    carve_rooms(&mut map);
    map.set_visibility(3, 3, TowerTileVisibility::Visible);

    let reveal = reveal_hidden_room_for_goal(&mut map, TowerRunGoal::Balanced).expect("a hidden room should remain");

    assert_eq!(reveal.center, (9, 3));
    assert_eq!(map.visibility_at(9, 3), TowerTileVisibility::Visible);
    assert_eq!(map.visibility_at(16, 3), TowerTileVisibility::Hidden);
}

#[test]
fn egg_hunt_survey_prefers_a_far_nest_over_a_near_generic_room() {
    let mut map = three_room_map(9);
    map.ensure_room_kinds();
    map.set_room_kind(0, TowerRoomKind::Camp);
    map.set_room_kind(1, TowerRoomKind::Traversal);
    map.set_room_kind(2, TowerRoomKind::Nest);
    carve_rooms(&mut map);
    map.set_visibility(3, 3, TowerTileVisibility::Visible);

    let reveal = reveal_hidden_room_for_goal(&mut map, TowerRunGoal::EggHunt).expect("a nest should remain");

    assert_eq!(reveal.center, (16, 3));
    assert_eq!(map.visibility_at(16, 3), TowerTileVisibility::Visible);
    assert_eq!(map.visibility_at(9, 3), TowerTileVisibility::Hidden);
}

#[test]
fn survey_counts_and_exposes_secret_caches_in_the_charted_room() {
    let mut map = three_room_map(5);
    carve_rooms(&mut map);
    map.set_visibility(3, 3, TowerTileVisibility::Visible);
    let mut cache = TowerMapObject::empty(TowerMapObjectKind::SecretCache);
    cache.x = 8;
    cache.y = 2;
    let mut loot = TowerMapObject::empty(TowerMapObjectKind::Loot);
    loot.x = 9;
    loot.y = 3;
    let mut far = TowerMapObject::empty(TowerMapObjectKind::SecretCache);
    far.x = 15;
    far.y = 2;
    map.objects = vec![cache, loot, far];

    let reveal = reveal_hidden_room_for_goal(&mut map, TowerRunGoal::Balanced).expect("a hidden room should remain");

    assert_eq!(reveal.signatures, 2);
    assert_eq!(reveal.secrets, 1);
    assert!(map.objects[0].revealed);
    assert!(!map.objects[1].revealed);
    assert!(!map.objects[2].revealed);
}

#[test]
fn survey_finds_nothing_when_every_room_is_charted() {
    let mut map = three_room_map(3);
    carve_rooms(&mut map);
    for (x, y) in [(3, 3), (9, 3), (16, 3)] {
        map.set_visibility(x, y, TowerTileVisibility::Explored);
    }
    assert!(reveal_hidden_room_for_goal(&mut map, TowerRunGoal::Scout).is_none());
}

// ---------------------------------------------------------------- camp

#[test]
fn marked_camp_room_improves_healing_pressure_and_cooldown() {
    let (data, mut state) = data_and_state();
    let mut map = TowerMapState::new(12, 8, 1, 9);
    map.rooms.push(TowerRoom { start_x: 1, start_y: 1, width: 5, height: 5 });
    map.ensure_room_kinds();
    map.set_room_kind(0, TowerRoomKind::Camp);
    map.player_x = 3;
    map.player_y = 3;
    let mut run = TowerRunState::new(1, 10, TowerRunGoal::Balanced).with_map(map);
    run.pressure = 5;
    state.tower_run = Some(run);
    let party_id = state.monster_roster.party_slots[0].unwrap();
    let i = state.monster_roster.position(party_id).unwrap();
    state.monster_roster.monsters[i].hp = (state.monster_roster.monsters[i].max_hp - 7).max(1);
    let before = state.monster_roster.monsters[i].hp;

    let result = camp_party(&mut state, &data);
    let run = state.tower_run.as_ref().unwrap();
    let healed = state.monster_roster.monster(party_id).unwrap().hp - before;

    assert!(result.summary.contains("marked shelter"));
    assert_eq!(healed, 5);
    assert_eq!(run.pressure, 2);
    assert_eq!(run.camp_cooldown, 6);
}

#[test]
fn corridor_camp_retains_the_weaker_fallback() {
    let (data, mut state) = data_and_state();
    let mut map = TowerMapState::new(12, 8, 1, 11);
    map.player_x = 9;
    map.player_y = 6;
    let mut run = TowerRunState::new(1, 10, TowerRunGoal::Balanced).with_map(map);
    run.pressure = 5;
    state.tower_run = Some(run);

    let result = camp_party(&mut state, &data);
    let run = state.tower_run.as_ref().unwrap();

    assert!(result.summary.contains("corridor camp"));
    assert_eq!(run.pressure, 3);
    assert_eq!(run.camp_cooldown, 8);
}

// ---------------------------------------------------------------- contracts

#[test]
fn egg_contract_awards_its_bonus_exactly_once() {
    let data = game_data();
    let mut run = TowerRunState::new(1, 9, TowerRunGoal::EggHunt);
    for seed in [1, 2] {
        run.found_eggs.push(TowerFoundEgg {
            egg_type_id: "mossy_egg".to_owned(),
            hatch_days: 1,
            origin_floor: 1,
            palette_seed: seed,
        });
    }

    let completion = refresh_contract(&mut run, &data);
    let cargo_after_completion = run.cargo_amount();
    let repeated = refresh_contract(&mut run, &data);

    assert!(completion.unwrap().contains("Nest Survey"));
    assert!(run.contract_complete);
    assert_eq!(cargo_after_completion, 6);
    assert_eq!(run.cargo_amount(), cargo_after_completion);
    assert!(repeated.is_none());
}

#[test]
fn older_run_without_contract_id_uses_its_goal_contract() {
    let data = game_data();
    let mut run = TowerRunState::new(1, 9, TowerRunGoal::Salvage);
    run.contract_id.clear();
    run.add_cargo("wood", 9);

    let (progress, contract) = contract_progress(&run, &data).expect("contract should resolve");

    assert_eq!(progress, 9);
    assert_eq!(contract.id, "salvage");
}

// ---------------------------------------------------------------- pressure

#[test]
fn high_pressure_adds_one_named_wandering_enemy() {
    let (data, mut state) = data_and_state();
    start_run(&mut state, &data, TowerRunGoal::Balanced);
    let run = state.tower_run.as_mut().expect("run should start");
    let enemy_count = run.map.objects.iter().filter(|object| object.kind == TowerMapObjectKind::Enemy).count();
    run.pressure = (run.pressure_limit.saturating_mul(2) + 2) / 3;

    let summary = refresh_pressure(&mut state, &data).expect("threshold should produce a warning");
    let run = state.tower_run.as_ref().unwrap();
    let new_enemy_count = run.map.objects.iter().filter(|object| object.kind == TowerMapObjectKind::Enemy).count();

    assert_eq!(run.pressure_stage, 2);
    assert_eq!(new_enemy_count, enemy_count + 1);
    assert!(summary.contains("wandering"));
    assert!(run.map.objects.iter().any(|object| object.kind == TowerMapObjectKind::Enemy && object.wandering));
    assert!(
        run.map
            .objects
            .iter()
            .filter(|object| object.kind == TowerMapObjectKind::Enemy && data.enemy(&object.enemy_id).is_some())
            .count()
            >= new_enemy_count
    );
    let object_count = run.map.objects.len();

    assert!(refresh_pressure(&mut state, &data).is_none());
    assert_eq!(state.tower_run.as_ref().unwrap().map.objects.len(), object_count);
}

#[test]
fn jumping_to_the_limit_records_every_crossed_wake_stage() {
    let (data, mut state) = data_and_state();
    start_run(&mut state, &data, TowerRunGoal::Scout);
    let run = state.tower_run.as_mut().expect("run should start");
    run.pressure = run.pressure_limit;

    let summary = refresh_pressure(&mut state, &data).expect("limit should produce warnings");
    let run = state.tower_run.as_ref().unwrap();

    assert_eq!(run.pressure_stage, 3);
    assert!(summary.contains("tower stirs"));
    assert!(summary.contains("High pressure"));
    assert!(summary.contains("fully awake"));
    assert_eq!(run.event_log.last(), Some(&summary));
}

// ---------------------------------------------------------------- content checks

fn rebuild(d: GameData) -> Result<GameData, String> {
    GameData::from_parts(
        d.config,
        d.balance,
        d.resources,
        d.buildings,
        d.monster_species,
        d.egg_types,
        d.tower_floors,
        d.enemies,
        d.tower_special_locations,
        d.tower_events,
        d.tower_hazards,
        d.tower_contracts,
        d.tower_anomalies,
        d.npcs,
    )
}

#[test]
fn test_content_passes_every_check() {
    assert!(rebuild(game_data()).is_ok());
}

#[test]
fn repeated_ids_are_reported_sorted_and_once() {
    let mut d = game_data();
    d.resources.push(resource("wood", "Wood again", 1));
    d.resources.push(resource("coins", "Coins again", 1));
    d.resources.push(resource("wood", "Wood thrice", 1));
    assert_eq!(rebuild(d).err().unwrap(), "Duplicate resource id(s): coins, wood");
}

#[test]
fn repeated_floors_are_reported_in_order() {
    let mut d = game_data();
    d.tower_floors.push(floor(2, false));
    d.tower_floors.push(floor(1, false));
    assert_eq!(rebuild(d).err().unwrap(), "Duplicate tower floor(s): 1, 2");
}

#[test]
fn missing_starter_is_reported_first() {
    let mut d = game_data();
    d.config.starter_species_id = "ghost".to_owned();
    d.buildings[0].upgrade_cost = vec![amount("gold", 1)];
    assert_eq!(rebuild(d).err().unwrap(), "Starter species 'ghost' does not exist");
}

#[test]
fn building_cost_must_name_a_resource() {
    let mut d = game_data();
    d.buildings[1].upgrade_cost = vec![amount("wood", 2), amount("gold", 1)];
    assert_eq!(rebuild(d).err().unwrap(), "Building 'hatchery' references missing resource 'gold'");
}

#[test]
fn enemy_pack_size_is_bounded() {
    let mut d = game_data();
    d.enemies[0].pack_size = 4;
    assert_eq!(rebuild(d).err().unwrap(), "Enemy 'moss_mite' must use a pack size from 1 to 3");
}

#[test]
fn event_rewards_need_positive_amounts() {
    let mut d = game_data();
    d.tower_events[0].rewards = vec![amount("wood", 0)];
    assert_eq!(rebuild(d).err().unwrap(), "tower event 'keepers_blessing' has invalid resource amount 'wood': 0");
}

#[test]
fn every_goal_contract_is_required() {
    let mut d = game_data();
    d.tower_contracts.remove(1);
    assert_eq!(rebuild(d).err().unwrap(), "Missing tower contract 'egg_hunt'");
}

#[test]
fn floor_guardian_must_be_an_eligible_boss() {
    let mut d = game_data();
    d.tower_floors[2].guardian_enemy_id = "moss_mite".to_owned();
    assert_eq!(rebuild(d).err().unwrap(), "Tower floor 3 guardian 'moss_mite' is not an eligible boss");
}

#[test]
fn built_in_content_is_valid_and_playable() {
    let d = GameData::fallback();
    assert_eq!(d.config.starter_species_id, "slime");
    assert_eq!(d.resource_name("coins"), "Coins");
    assert_eq!(d.tower_floor(1).unwrap().pressure_limit, 8);
    assert_eq!(d.enemy("moss_mite").unwrap().max_hp, 14);
    for goal in ["balanced", "egg_hunt", "salvage", "scout", "push_deeper", "safe_run"] {
        assert!(d.tower_contract(goal).is_some());
    }
    assert!(rebuild(d).is_ok());
}

// ---------------------------------------------------------------- egg care

#[test]
fn warming_an_egg_spends_a_herb_once_a_day() {
    let (data, mut state) = data_and_state();
    state.town.set_building_level("hatchery", 1);
    let egg_id = state.egg_inventory.add_egg("mossy_egg".to_owned(), 3, 1, 0x44);
    let herbs = state.resources.amount("herbs");

    let first = care_for_egg(&mut state, &data, egg_id, EggCareFocus::Warm);
    assert_eq!(first.summary, "Warm Mossy Egg #1. Care: warmed; 2 day(s) remain.");
    assert_eq!(state.egg_inventory.eggs[0].days_remaining, 2);
    assert_eq!(state.resources.amount("herbs"), herbs - 1);

    let second = care_for_egg(&mut state, &data, egg_id, EggCareFocus::Study);
    assert_eq!(second.summary, "That egg has already received care today.");
    assert_eq!(state.resources.amount("herbs"), herbs - 1);
    assert!(!state.egg_inventory.eggs[0].studied);
}

#[test]
fn egg_care_needs_a_hatchery_and_herbs() {
    let (data, mut state) = data_and_state();
    let egg_id = state.egg_inventory.add_egg("mossy_egg".to_owned(), 3, 1, 0x44);
    state.town.set_building_level("hatchery", 0);
    assert_eq!(care_for_egg(&mut state, &data, egg_id, EggCareFocus::Warm).summary, "Build the hatchery before caring for eggs.");
    state.town.set_building_level("hatchery", 1);
    let herbs = state.resources.amount("herbs");
    state.resources.add("herbs", -herbs);
    assert_eq!(care_for_egg(&mut state, &data, egg_id, EggCareFocus::Soothe).summary, "Soothe needs 1 Herbs.");
    assert_eq!(care_for_egg(&mut state, &data, 99, EggCareFocus::Study).summary, "That egg is no longer in the hatchery.");
    let studied = care_for_egg(&mut state, &data, egg_id, EggCareFocus::Study);
    assert_eq!(studied.summary, "Study Mossy Egg #1. Care: studied; species and trait hints improved.");
}

#[test]
fn unready_egg_waits_to_hatch() {
    let (data, mut state) = data_and_state();
    state.town.set_building_level("hatchery", 1);
    let egg_id = state.egg_inventory.add_egg("mossy_egg".to_owned(), 3, 1, 0x44);
    assert_eq!(hatch_egg(&mut state, &data, egg_id).summary, "That egg needs 3 more day(s).");
    assert_eq!(state.egg_inventory.eggs.len(), 1);
}

#[test]
fn hatching_names_the_hatchling_from_its_seed() {
    let (data, mut state) = data_and_state();
    state.town.set_building_level("hatchery", 1);
    let egg_id = state.egg_inventory.add_egg("mossy_egg".to_owned(), 0, 1, 0);
    // seed 0 ^ (1 << 16) ^ 0xA7C4 = 0x1A7C4 = 108484; 108484 % 12 = 4 -> "Pico";
    // species seed 0 picks the first species, Rootling.
    let result = hatch_egg(&mut state, &data, egg_id);
    assert_eq!(result.summary, "Mossy Egg hatched into Pico the Rootling.");
    let child = state.monster_roster.monsters.last().unwrap();
    assert_eq!(child.name, "Pico");
    assert_eq!(child.species_id, "rootling");
    assert_eq!(child.element, Element::Earth);
    assert_eq!(child.temperament, Temperament::Patient);
}

#[test]
fn egg_hints_read_from_its_type() {
    let (data, mut state) = data_and_state();
    state.egg_inventory.add_egg("mossy_egg".to_owned(), 3, 1, 0x44);
    let egg = &state.egg_inventory.eggs[0];
    assert_eq!(likely_species_text(egg, &data), "Likely: Rootling / Rillfin");
    assert_eq!(trait_preview_text(egg, &data), "Traits: study for hints");
    assert_eq!(care_bonus(egg), "No care bonus yet.");
    state.egg_inventory.eggs[0].studied = true;
    assert_eq!(trait_preview_text(&state.egg_inventory.eggs[0], &data), "Traits: Earth Patient");
}

// ---------------------------------------------------------------- breeding rules

#[test]
fn breeding_formulas_follow_floor_and_bonds() {
    let (data, state) = data_and_state();
    let slime = state.monster_roster.monsters[0].duplicate();
    let mut rootling = lib::state::roster::MonsterInstance::from_species(9, "Root".to_owned(), data.species("rootling").unwrap(), 3);
    assert!(!pair_is_compatible(&slime, &rootling));
    assert_eq!(compatibility_label(&slime, &rootling), "Needs shared trait or bond 6+");
    rootling.bond = 5;
    assert!(pair_is_compatible(&slime, &rootling));
    assert_eq!(compatibility_label(&slime, &rootling), "Bonded pair");
    assert_eq!(mutation_chance(0), 4);
    assert_eq!(mutation_chance(5), 20);
    assert_eq!(mutation_chance(12), 35);
    assert_eq!(lineage_quality(&slime, &rootling, 1), 2);
    assert_eq!(lineage_quality(&slime, &rootling, 6), 3);
    assert_eq!(lineage_quality_label(1), "plain");
    assert_eq!(lineage_quality_label(3), "resonant");
    assert_eq!(lineage_quality_label(9), "mythic");
    let cost = breeding_cost();
    assert_eq!(cost, vec![("herbs".to_owned(), 2)]);
}

#[test]
fn breeding_refusals_leave_the_state_alone() {
    let (data, mut state) = data_and_state();
    let rillfin = data.species("rillfin").unwrap();
    let second = state.monster_roster.add_monster("Ripple".to_owned(), rillfin, 0x55);
    assert_eq!(breed_pair(&mut state, &data, 1, second).summary, "Build the Breeding Grove before pairing monsters.");
    state.town.set_building_level("breeding_grove", 1);
    state.town.set_building_level("hatchery", 1);
    assert_eq!(breed_pair(&mut state, &data, 1, 1).summary, "Choose two different monsters for a breeding pair.");
    assert_eq!(breed_pair(&mut state, &data, 1, 77).summary, "The second parent is no longer in the roster.");
    assert!(state.egg_inventory.eggs.is_empty());
}

#[test]
fn forecast_shows_the_pairs_lineage() {
    let (data, mut state) = data_and_state();
    let rillfin = data.species("rillfin").unwrap();
    let second = state.monster_roster.add_monster("Ripple".to_owned(), rillfin, 0x55);
    let a = state.monster_roster.monster(1).unwrap().duplicate();
    let b = state.monster_roster.monster(second).unwrap().duplicate();
    let forecast = forecast_pair(&state, &data, &a, &b).expect("a shared element makes the pair compatible");
    assert_eq!(forecast.egg_options, vec![("Mossy Egg".to_owned(), 60)]);
    assert_eq!(forecast.mutation_chance, 4);
    assert_eq!(forecast.lineage_quality, 2);
    assert!(forecast.element_options.contains(&Element::Water));
}

// ---------------------------------------------------------------- town jobs

#[test]
fn job_previews_show_the_day_yield() {
    let (data, state) = data_and_state();
    let pip = state.monster_roster.monster(1).unwrap();
    assert_eq!(job_preview(pip, &data, TownJobKind::Forage), "3 Herbs, 5 Coins; Bond +1");
    assert_eq!(job_preview(pip, &data, TownJobKind::HatcheryCare), "2 egg warmth; Bond +1");
    assert_eq!(job_preview(pip, &data, TownJobKind::Quarry), "3 Stone; Bond +1");
    assert_eq!(job_detail(TownJobKind::Workshop), "Wood and stone; heat traits add ore.");
    let mut tired = pip.duplicate();
    tired.condition.fatigue = 4;
    assert_eq!(job_preview(&tired, &data, TownJobKind::Forage), "2 Herbs, 4 Coins; Bond +1");
    tired.condition.injury_days = 1;
    assert_eq!(job_preview(&tired, &data, TownJobKind::Forage), "Recovering; no job output.");
}

#[test]
fn cleared_jobs_leave_the_monster_resting() {
    let (data, mut state) = data_and_state();
    assert_eq!(assign_job(&mut state, &data, 1, TownJobKind::Forage).summary, "Build the workshop before assigning town jobs.");
    state.town.set_building_level("workshop", 1);
    assert_eq!(assign_job(&mut state, &data, 1, TownJobKind::Forage).summary, "Pip the Slime is assigned to Forage.");
    assert_eq!(clear_job(&mut state, 1).summary, "Pip is resting from town work.");
    assert_eq!(clear_job(&mut state, 1).summary, "Pip has no town job assigned.");
    assert_eq!(state.town.monster_job(1), None);
}

// ---------------------------------------------------------------- days

#[test]
fn sleeping_warms_eggs_and_advances_the_day() {
    let (data, mut state) = data_and_state();
    let summary = sleep(&mut state, &data).summary;
    assert_eq!(summary, "Day 1 ends. The camp rests, and every monster wakes recovered.");
    assert_eq!(state.day, 2);
    state.egg_inventory.add_egg("mossy_egg".to_owned(), 2, 1, 0x9);
    let summary = sleep(&mut state, &data).summary;
    assert_eq!(summary, "Day 2 ends. 1 egg(s) warmed overnight and the monsters recovered.");
    assert_eq!(state.egg_inventory.eggs[0].days_remaining, 1);
    assert_eq!(state.activity_log.entries.last().unwrap().day, 3);
}

// ---------------------------------------------------------------- survey flares in a run

#[test]
fn survey_flare_spends_a_charge_and_raises_pressure() {
    let (data, mut state) = data_and_state();
    start_run(&mut state, &data, TowerRunGoal::Balanced);
    let (charges, pressure) = {
        let run = state.tower_run.as_ref().unwrap();
        (run.survey_charges, run.pressure)
    };
    let result = survey_floor(&mut state, &data);
    let run = state.tower_run.as_ref().unwrap();
    if result.summary.starts_with("A survey flare charts a hidden room near grid ") {
        assert_eq!(run.survey_charges, charges - 1);
        assert_eq!(run.pressure, (pressure + 1).min(run.pressure_limit));
    } else {
        assert_eq!(result.summary, "Every room on this floor is already charted. Tap EXPLORE or RETREAT.");
        assert_eq!(run.survey_charges, charges);
    }
}

#[test]
fn survey_needs_flares_and_a_calm_tower() {
    let (data, mut state) = data_and_state();
    assert_eq!(survey_floor(&mut state, &data).summary, "No tower run is active. Tap Town to choose a run.");
    start_run(&mut state, &data, TowerRunGoal::Balanced);
    state.tower_run.as_mut().unwrap().survey_charges = 0;
    assert_eq!(
        survey_floor(&mut state, &data).summary,
        "No survey flares remain on this floor. Tap EXPLORE or descend for a fresh kit."
    );
    let run = state.tower_run.as_mut().unwrap();
    run.pressure = run.pressure_limit;
    assert_eq!(survey_floor(&mut state, &data).summary, "The tower is fully awake. Tap CAMP or RETREAT before surveying.");
}

#[test]
fn secrets_in_the_current_room_are_exposed_once() {
    let mut map = three_room_map(2);
    let mut cache = TowerMapObject::empty(TowerMapObjectKind::SecretCache);
    cache.x = 1;
    cache.y = 1;
    let mut other = TowerMapObject::empty(TowerMapObjectKind::SecretCache);
    other.x = 8;
    other.y = 1;
    map.objects = vec![cache, other];
    assert_eq!(reveal_secret_in_current_room(&mut map), 1);
    assert!(map.objects[0].revealed);
    assert!(!map.objects[1].revealed);
    assert_eq!(reveal_secret_in_current_room(&mut map), 0);
}

// ---------------------------------------------------------------- tower runs

#[test]
fn generated_map_has_start_and_stairs() {
    let (data, state) = data_and_state();
    let map = generate_map(&state, &data, 1, TowerRunGoal::Scout, 42);

    assert!(map.is_passable(map.player_x, map.player_y));
    assert!(map.objects.iter().any(|object| object.kind == TowerMapObjectKind::Stairs));
    assert!(map.rooms.len() >= 4);
    assert!(map.is_visible(map.player_x, map.player_y));
    assert!(map.visibility.contains(&TowerTileVisibility::Hidden));
    assert!(map.objects.iter().any(|object| {
        object.kind == TowerMapObjectKind::SpecialLocation
            && !object.special_location_id.is_empty()
            && !object.event_id.is_empty()
    }));
    assert!(map
        .objects
        .iter()
        .filter(|object| object.kind == TowerMapObjectKind::Enemy)
        .all(|object| data.enemy(&object.enemy_id).is_some()));
    assert!(map
        .objects
        .iter()
        .filter(|object| object.kind == TowerMapObjectKind::Hazard)
        .all(|object| data.tower_hazard(&object.hazard_id).is_some()));
}

#[test]
fn visible_map_content_enters_the_persistent_field_guide_once() {
    let (data, mut state) = data_and_state();
    start_run(&mut state, &data, TowerRunGoal::Scout);
    let positions = state.tower_run.as_ref().unwrap().map.objects.iter().map(|object| (object.x, object.y)).collect::<Vec<_>>();
    for (x, y) in positions {
        state.tower_run.as_mut().unwrap().map.set_visibility(x, y, TowerTileVisibility::Visible);
    }

    record_visible_discoveries(&mut state, &data, None);
    let counts = (
        state.tower_discoveries.enemies.len(),
        state.tower_discoveries.special_locations.len(),
        state.tower_discoveries.hazards.len(),
    );
    record_visible_discoveries(&mut state, &data, None);

    assert!(counts.0 > 0 && counts.1 > 0 && counts.2 > 0);
    assert_eq!(
        counts,
        (
            state.tower_discoveries.enemies.len(),
            state.tower_discoveries.special_locations.len(),
            state.tower_discoveries.hazards.len(),
        )
    );
}

#[test]
fn landmark_ambush_waits_for_the_players_visible_choice() {
    let (data, mut state) = data_and_state();
    start_run(&mut state, &data, TowerRunGoal::Scout);
    state.tower_run.as_mut().unwrap().pending_event = Some(TowerPendingEvent {
        special_location_id: "mossbound_shrine".to_owned(),
        event_ids: vec!["keepers_blessing".to_owned(), "moss_mite_offering".to_owned()],
    });

    let result = choose_special_event(&mut state, &data, "moss_mite_offering");

    assert_eq!(result.encounter.unwrap().enemy_id.as_deref(), Some("moss_mite"));
    assert!(state.tower_run.as_ref().unwrap().pending_event.is_none());
}

#[test]
fn party_can_leave_a_landmark_without_triggering_an_outcome() {
    let (data, mut state) = data_and_state();
    start_run(&mut state, &data, TowerRunGoal::Scout);
    state.tower_run.as_mut().unwrap().pending_event = Some(TowerPendingEvent {
        special_location_id: "mossbound_shrine".to_owned(),
        event_ids: vec!["keepers_blessing".to_owned()],
    });

    let result = leave_special_event(&mut state, &data);

    assert!(result.summary.contains("undisturbed"));
    assert!(state.tower_run.as_ref().unwrap().pending_event.is_none());
}

#[test]
fn movement_collects_object_on_destination_tile() {
    let (data, mut state) = data_and_state();
    start_run(&mut state, &data, TowerRunGoal::Salvage);
    let run = state.tower_run.as_ref().expect("tower run should start");
    let (dx, dy, target_x, target_y) = adjacent_step(&run.map);

    let run = state.tower_run.as_mut().expect("tower run should exist");
    run.map.objects.retain(|object| object.x != target_x || object.y != target_y);
    let mut loot = map_object(TowerMapObjectKind::Loot, "wood", 3, 0);
    loot.x = target_x;
    loot.y = target_y;
    loot.palette_seed = 0;
    run.map.objects.push(loot);

    let result = move_party(&mut state, &data, dx, dy);
    let run = state.tower_run.as_ref().expect("tower run should remain");

    assert!(result.summary.contains("Found 3"));
    assert_eq!((run.map.player_x, run.map.player_y), (target_x, target_y));
    assert_eq!(run.rooms_explored, 1);
    assert!(run.map.object_at(target_x, target_y).is_none());
    assert_eq!(run.cargo_amount(), 3);
}

#[test]
fn movement_builds_pressure_at_a_readable_pace() {
    let (data, mut state) = data_and_state();
    start_run(&mut state, &data, TowerRunGoal::Balanced);
    let run = state.tower_run.as_ref().expect("tower run should start");
    let (dx, dy, _, _) = adjacent_step(&run.map);
    state.tower_run.as_mut().unwrap().rooms_explored = 3;

    move_party(&mut state, &data, dx, dy);

    assert_eq!(state.tower_run.as_ref().unwrap().pressure, 1);
}

#[test]
fn camp_recovers_the_party_but_has_a_travel_cooldown() {
    let (data, mut state) = data_and_state();
    start_run(&mut state, &data, TowerRunGoal::SafeRun);
    state.monster_roster.monsters[0].hp -= 8;
    state.tower_run.as_mut().unwrap().pressure = 4;

    let first = camp_party(&mut state, &data);
    let hp_after_first = state.monster_roster.monsters[0].hp;
    let second = camp_party(&mut state, &data);

    assert!(first.summary.contains("3 total HP"));
    assert_eq!(state.tower_run.as_ref().unwrap().pressure, 2);
    assert_eq!(state.tower_run.as_ref().unwrap().camp_cooldown, 8);
    assert_eq!(state.monster_roster.monsters[0].hp, hp_after_first);
    assert!(second.summary.contains("travel 8 more step"));
}

#[test]
fn explore_finds_a_step_toward_hidden_passable_space() {
    let mut map = TowerMapState::new(6, 3, 1, 11);
    for x in 1..5 {
        map.set_tile(x, 1, TowerTileKind::Corridor);
    }
    map.player_x = 1;
    map.player_y = 1;
    map.set_visibility(1, 1, TowerTileVisibility::Visible);
    map.set_visibility(2, 1, TowerTileVisibility::Explored);

    assert_eq!(explore_direction(&map, TowerRunGoal::Balanced), Some((1, 0)));
}

#[test]
fn movement_keeps_only_discovered_tiles_revealed() {
    let (data, mut state) = data_and_state();
    start_run(&mut state, &data, TowerRunGoal::Scout);
    let run = state.tower_run.as_ref().expect("tower run should start");
    let hidden_before = run.map.visibility.iter().filter(|v| **v == TowerTileVisibility::Hidden).count();
    let (dx, dy, _, _) = adjacent_step(&run.map);

    move_party(&mut state, &data, dx, dy);
    let run = state.tower_run.as_ref().expect("tower run should remain");
    let hidden_after = run.map.visibility.iter().filter(|v| **v == TowerTileVisibility::Hidden).count();

    assert!(run.map.is_visible(run.map.player_x, run.map.player_y));
    assert!(hidden_after > 0);
    assert!(hidden_after <= hidden_before);
}

#[test]
fn reveal_current_area_marks_previous_tiles_explored() {
    let mut map = TowerMapState::new(12, 5, 1, 7);
    for x in 1..11 {
        map.set_tile(x, 2, TowerTileKind::Corridor);
    }
    map.player_x = 1;
    map.player_y = 2;
    reveal_current_area(&mut map);

    assert!(map.is_visible(1, 2));

    map.player_x = 10;
    map.player_y = 2;
    reveal_current_area(&mut map);

    assert_eq!(map.visibility_at(1, 2), TowerTileVisibility::Explored);
    assert!(map.is_visible(10, 2));
}

#[test]
fn ensure_map_restores_visibility_for_older_runs() {
    let (data, mut state) = data_and_state();
    start_run(&mut state, &data, TowerRunGoal::SafeRun);
    state.tower_run.as_mut().expect("tower run should start").map.visibility.clear();

    ensure_map(&mut state, &data);
    let run = state.tower_run.as_ref().expect("tower run should remain");

    assert_eq!(run.map.visibility.len(), (run.map.width * run.map.height) as usize);
    assert!(run.map.is_visible(run.map.player_x, run.map.player_y));
    assert!(run.event_log.iter().any(|event| event.contains("map notes")));
}

#[test]
fn return_to_town_respects_hatchery_egg_capacity() {
    let (data, mut state) = data_and_state();
    state.town.set_building_level("hatchery", 1);
    state.egg_inventory.add_egg("mossy_egg".to_owned(), 1, 1, 0x101);
    state.egg_inventory.add_egg("mossy_egg".to_owned(), 1, 1, 0x102);
    let mut run = TowerRunState::new(1, 9, TowerRunGoal::EggHunt);
    for seed in [0x201, 0x202] {
        run.found_eggs.push(TowerFoundEgg {
            egg_type_id: "mossy_egg".to_owned(),
            hatch_days: 1,
            origin_floor: 1,
            palette_seed: seed,
        });
    }
    state.tower_run = Some(run);

    let result = return_to_town(&mut state, &data);

    assert_eq!(state.egg_inventory.eggs.len(), 3);
    assert!(result.summary.contains("1 egg(s)"));
    assert!(result.summary.contains("left 1 egg(s) behind"));
}

#[test]
fn anomaly_selection_is_deterministic_and_floor_eligible() {
    let data = game_data();
    let first = select_anomaly_id(&data, 5, 0xA110_0045);
    let second = select_anomaly_id(&data, 5, 0xA110_0045);

    assert_eq!(first, second);
    let anomaly = data.tower_anomaly(&first).expect("anomaly should exist");
    assert!(anomaly.min_floor <= 5 && anomaly.max_floor >= 5);
    assert!(anomaly.visual_index < 6);
}

#[test]
fn a_floor_without_eligible_anomalies_draws_none() {
    let data = game_data();
    assert_eq!(select_anomaly_id(&data, 1, 0xA110_0045), "");
}

// ---------------------------------------------------------------- art atlas

#[test]
fn floors_pick_their_biome_and_atlas_cell() {
    assert_eq!(DungeonBiome::for_floor(1), DungeonBiome::Moss);
    assert_eq!(DungeonBiome::for_floor(3), DungeonBiome::Root);
    assert_eq!(DungeonBiome::for_floor(7), DungeonBiome::Ember);
    assert_eq!(DungeonBiome::for_floor(8), DungeonBiome::Flooded);
    assert_eq!(DungeonBiome::for_floor(9), DungeonBiome::Frost);
    assert_eq!(DungeonBiome::for_floor(10), DungeonBiome::Void);
    assert_eq!(DungeonBiome::for_floor(11), DungeonBiome::Moss);
    assert_eq!(DungeonBiome::Frost.atlas_index(), 3);
    assert_eq!(DungeonRoomPurpose::Shrine.atlas_index(), 5);
}

// ---------------------------------------------------------------- hazards and hunters

#[test]
fn party_traits_counter_authored_hazards_and_recover_materials() {
    let (data, mut state) = data_and_state();
    start_run(&mut state, &data, TowerRunGoal::Balanced);
    let hp_before = state.monster_roster.monsters[0].hp;

    let result = resolve_hazard(&mut state, &data, &"cinder_vent".to_owned());
    let run = state.tower_run.as_ref().unwrap();

    assert!(result.summary.contains("counters Cinder Vent"));
    assert_eq!(state.monster_roster.monsters[0].hp, hp_before);
    assert_eq!(run.pressure, 0);
    assert_eq!(run.cargo.iter().find(|stack| stack.resource_id == "ore").map(|stack| stack.amount), Some(2));
}

#[test]
fn uncountered_hazard_damages_the_party_and_raises_pressure() {
    let (data, mut state) = data_and_state();
    start_run(&mut state, &data, TowerRunGoal::Balanced);
    let hp_before = state.monster_roster.monsters[0].hp;

    let result = resolve_hazard(&mut state, &data, &"frostfall".to_owned());
    let run = state.tower_run.as_ref().unwrap();

    assert!(result.summary.contains("Frostfall Arch catches"));
    assert_eq!(state.monster_roster.monsters[0].hp, hp_before - 4);
    assert_eq!(run.pressure, 2);
}

#[test]
fn pressure_hunter_prefers_a_species_not_already_on_the_floor() {
    let data = game_data();
    let eligible: Vec<&EnemyDefinition> =
        data.enemies.iter().filter(|enemy| !enemy.is_boss && enemy.min_floor <= 1 && enemy.max_floor >= 1).collect();
    let fresh_id = eligible.last().unwrap().id.clone();
    let mut map = TowerMapState::new(18, 10, 1, 201);
    map.rooms.push(TowerRoom { start_x: 1, start_y: 1, width: 16, height: 8 });
    for y in 1..9 {
        for x in 1..17 {
            map.set_tile(x, y, TowerTileKind::Floor);
        }
    }
    for enemy in eligible.iter().take(eligible.len() - 1) {
        map.objects.push(TowerMapObject::enemy(&enemy.id));
    }

    let spawned = spawn_pressure_enemy(&mut map, &data, 19);

    assert_eq!(spawned.as_deref(), Some(fresh_id.as_str()));
}

// ---------------------------------------------------------------- secrets

fn secret_at(x: u32, y: u32) -> TowerMapObject {
    TowerMapObject {
        kind: TowerMapObjectKind::SecretCache,
        x,
        y,
        resource_id: "coin".to_owned(),
        amount: 2,
        egg_type_id: String::new(),
        hatch_days: 0,
        palette_seed: 0,
        enemy_id: String::new(),
        special_location_id: String::new(),
        event_id: String::new(),
        hazard_id: String::new(),
        wandering: false,
        revealed: false,
    }
}

#[test]
fn entering_a_secret_room_exposes_its_cache_without_revealing_others() {
    let mut map = TowerMapState::new(20, 10, 2, 41);
    map.player_x = 3;
    map.player_y = 3;
    map.rooms = vec![
        TowerRoom { start_x: 1, start_y: 1, width: 5, height: 5 },
        TowerRoom { start_x: 10, start_y: 1, width: 5, height: 5 },
    ];
    map.objects = vec![secret_at(4, 4), secret_at(12, 3)];

    assert_eq!(reveal_secret_in_current_room(&mut map), 1);
    assert!(map.objects[0].revealed);
    assert!(!map.objects[1].revealed);
    assert_eq!(reveal_secret_in_current_room(&mut map), 0);
}

#[test]
fn hazards_follow_the_goal_and_the_floor() {
    let data = game_data();
    for seed in 0..8u64 {
        let mut rng = TowerMapRng::new(seed);
        let before = rng.state;
        assert!(hazard_objects(&data, 2, TowerRunGoal::SafeRun, &mut rng).is_empty());
        assert_eq!(rng.state, before);
        let one = hazard_objects(&data, 2, TowerRunGoal::Balanced, &mut rng);
        assert_eq!(one.len(), 1);
        assert_eq!(one[0].kind, TowerMapObjectKind::Hazard);
        assert_eq!(one[0].hazard_id, "spore_bloom");
        let two = hazard_objects(&data, 5, TowerRunGoal::PushDeeper, &mut rng);
        assert_eq!(two.len(), 2);
        for h in &two {
            assert!(h.hazard_id == "spore_bloom" || h.hazard_id == "cinder_vent");
        }
        let late = hazard_objects(&data, 8, TowerRunGoal::Balanced, &mut rng);
        assert_eq!(late.len(), 2);
        for h in &late {
            assert_eq!(h.hazard_id, "frostfall");
        }
        assert!(hazard_objects(&data, 12, TowerRunGoal::Balanced, &mut rng).is_empty());
    }
}

#[test]
fn scouts_meet_two_different_landmarks() {
    let data = game_data();
    for seed in 0..8u64 {
        let mut rng = TowerMapRng::new(seed);
        let found = special_location_objects(&data, 2, TowerRunGoal::Scout, &mut rng);
        assert_eq!(found.len(), 2);
        assert_ne!(found[0].special_location_id, found[1].special_location_id);
        for o in &found {
            assert_eq!(o.kind, TowerMapObjectKind::SpecialLocation);
            let location = data
                .tower_special_locations
                .iter()
                .find(|l| l.id == o.special_location_id)
                .expect("a known landmark");
            assert!(location.event_ids.contains(&o.event_id));
        }
        let mut rng = TowerMapRng::new(seed);
        let balanced = special_location_objects(&data, 2, TowerRunGoal::Balanced, &mut rng);
        assert!(balanced.len() == 1 || balanced.len() == 2);
        assert!(special_location_objects(&data, 9, TowerRunGoal::Scout, &mut rng).is_empty());
    }
}

#[test]
fn egg_hunts_fill_two_or_three_nests() {
    let data = game_data();
    let f = floor(1, false);
    for seed in 0..8u64 {
        let mut rng = TowerMapRng::new(seed);
        let nests = egg_objects(&f, &data, TowerRunGoal::EggHunt, &mut rng);
        assert!(nests.len() == 2 || nests.len() == 3);
        for n in &nests {
            assert_eq!(n.kind, TowerMapObjectKind::Egg);
            assert_eq!(n.egg_type_id, "mossy_egg");
            assert_eq!(n.hatch_days, 3);
            assert_eq!(n.palette_seed >> 32, 0);
        }
        let mut rng = TowerMapRng::new(seed);
        assert!(egg_objects(&f, &data, TowerRunGoal::Salvage, &mut rng).len() <= 1);
    }
}

// ---------------------------------------------------------------- blessings and the crown threshold

#[test]
fn cache_sense_increases_every_cache_pickup() {
    let (data, mut state) = data_and_state();
    start_run(&mut state, &data, TowerRunGoal::Salvage);
    state.tower_run.as_mut().unwrap().add_blessing(TowerBlessing::CacheSense);
    let cache = map_object(TowerMapObjectKind::Loot, "wood", 3, 0);

    let result = resolve_map_object(&mut state, &data, cache);

    assert!(result.summary.contains("Found 5"));
    assert_eq!(state.tower_run.as_ref().unwrap().cargo_amount(), 5);
}

#[test]
fn quiet_steps_skips_the_normal_fourth_step_pressure_tick() {
    let (data, mut state) = data_and_state();
    start_run(&mut state, &data, TowerRunGoal::Balanced);
    let run = state.tower_run.as_mut().unwrap();
    run.add_blessing(TowerBlessing::QuietSteps);
    run.rooms_explored = 3;
    run.pressure = 0;
    let (dx, dy, x, y) = adjacent_step(&run.map);
    run.map.objects.retain(|object| object.x != x || object.y != y);

    move_party(&mut state, &data, dx, dy);

    assert_eq!(state.tower_run.as_ref().unwrap().rooms_explored, 4);
    assert_eq!(state.tower_run.as_ref().unwrap().pressure, 0);
}

#[test]
fn authored_event_grants_a_persistent_run_blessing() {
    let (data, mut state) = data_and_state();
    start_run(&mut state, &data, TowerRunGoal::Scout);

    let result = apply_tower_event(
        &mut state,
        &data,
        &"mossbound_shrine".to_owned(),
        &"keepers_blessing".to_owned(),
    );

    assert!(result.summary.contains("Gained Quiet Steps"));
    assert!(state.tower_run.as_ref().unwrap().has_blessing(TowerBlessing::QuietSteps));
}

#[test]
fn wardstone_is_consumed_to_cancel_an_uncountered_hazard() {
    let (data, mut state) = data_and_state();
    start_run(&mut state, &data, TowerRunGoal::Balanced);
    state.tower_run.as_mut().unwrap().add_blessing(TowerBlessing::Wardstone);
    let hp_before = state.monster_roster.monsters[0].hp;
    let pressure_before = state.tower_run.as_ref().unwrap().pressure;

    let result = resolve_hazard(&mut state, &data, &"frostfall".to_owned());
    let run = state.tower_run.as_ref().unwrap();

    assert!(result.summary.contains("Wardstone shatters"));
    assert_eq!(state.monster_roster.monsters[0].hp, hp_before);
    assert_eq!(run.pressure, pressure_before);
    assert!(!run.has_blessing(TowerBlessing::Wardstone));
    assert_eq!(run.stats.hazards_countered, 1);
}

#[test]
fn crown_exit_reseals_until_the_guardian_falls() {
    let (data, mut state) = data_and_state();
    start_run(&mut state, &data, TowerRunGoal::PushDeeper);
    let run = state.tower_run.as_mut().unwrap();
    run.current_floor = 3;
    run.map.floor = 3;
    run.map.objects.clear();
    let mut exit = map_object(TowerMapObjectKind::Exit, "", 0, 0);
    exit.x = run.map.player_x;
    exit.y = run.map.player_y;

    let result = resolve_map_object(&mut state, &data, exit);

    assert!(result.summary.contains("threshold is sealed"));
    assert!(!result.returned_to_town);
    let run = state.tower_run.as_ref().expect("sealed run should remain");
    assert_eq!(run.map.objects.len(), 1);
    assert_eq!(run.map.objects[0].kind, TowerMapObjectKind::Exit);
}

#[test]
fn boss_victory_opens_the_live_crown_threshold() {
    let (data, mut state) = data_and_state();
    start_run(&mut state, &data, TowerRunGoal::PushDeeper);
    state.tower_run.as_mut().unwrap().current_floor = 3;
    start_encounter(&mut state, &data, 3, true);
    state.combat.as_mut().unwrap().outcome = Some(CombatOutcome::Victory);

    finish_combat(&mut state, &data);

    let run = state.tower_run.as_ref().expect("victory should return to tower");
    assert!(run.boss_defeated);
    assert!(run.event_log.iter().any(|event| event.contains("threshold opens")));
    assert!(run.found_eggs.iter().any(|egg| egg.egg_type_id == "boss_egg"));
}

#[test]
fn only_successfully_resolved_landmark_approaches_enter_the_guide() {
    let (data, mut state) = data_and_state();
    start_run(&mut state, &data, TowerRunGoal::Balanced);
    state.tower_run.as_mut().unwrap().pending_event = Some(TowerPendingEvent {
        special_location_id: "lantern_well".to_owned(),
        event_ids: vec!["restorative_draught".to_owned()],
    });

    let blocked = choose_special_event(&mut state, &data, "restorative_draught");
    assert!(blocked.summary.contains("needs a party monster"));
    assert!(!state.tower_discoveries.events.contains(&"restorative_draught".to_owned()));

    state.tower_run.as_mut().unwrap().pending_event = Some(TowerPendingEvent {
        special_location_id: "mossbound_shrine".to_owned(),
        event_ids: vec!["moss_mite_offering".to_owned()],
    });
    let survey_before = state.tower_run.as_ref().unwrap().survey_charges;
    let first = choose_special_event(&mut state, &data, "moss_mite_offering");

    assert_eq!(state.tower_discoveries.events, ["moss_mite_offering"]);
    assert!(first.summary.contains("1 bonus survey flare"));
    assert_eq!(state.tower_run.as_ref().unwrap().survey_charges, survey_before + 1);

    state.tower_run.as_mut().unwrap().pending_event = Some(TowerPendingEvent {
        special_location_id: "mossbound_shrine".to_owned(),
        event_ids: vec!["moss_mite_offering".to_owned()],
    });
    let repeat = choose_special_event(&mut state, &data, "moss_mite_offering");
    assert!(!repeat.summary.contains("bonus survey flare"));
    assert_eq!(state.tower_run.as_ref().unwrap().survey_charges, survey_before + 1);
}

// ---------------------------------------------------------------- routes and layout

fn corridor_row(width: u32) -> TowerMapState {
    let mut map = TowerMapState::new(width, 3, 1, 11);
    for x in 1..width - 1 {
        map.set_tile(x, 1, TowerTileKind::Corridor);
    }
    map
}

#[test]
fn explore_breaks_a_tie_toward_the_lower_tile() {
    let mut map = corridor_row(7);
    map.player_x = 3;
    map.player_y = 1;
    map.set_visibility(3, 1, TowerTileVisibility::Visible);

    assert_eq!(explore_direction(&map, TowerRunGoal::Balanced), Some((-1, 0)));
}

#[test]
fn explore_has_no_step_once_everything_is_seen() {
    let mut map = corridor_row(6);
    map.player_x = 1;
    map.player_y = 1;
    for x in 0..6 {
        for y in 0..3 {
            map.set_visibility(x, y, TowerTileVisibility::Explored);
        }
    }

    assert_eq!(explore_direction(&map, TowerRunGoal::Balanced), None);
}

#[test]
fn route_heads_along_the_corridor_to_its_target() {
    let mut map = corridor_row(7);
    map.player_x = 1;
    map.player_y = 1;

    assert_eq!(route_direction(&map, TowerRunGoal::Balanced, 5, 1), Some((1, 0)));
    assert_eq!(route_direction(&map, TowerRunGoal::Balanced, 3, 0), None);
    assert_eq!(route_direction(&map, TowerRunGoal::Balanced, 1, 1), None);
}

fn walkable_from(map: &TowerMapState, x: u32, y: u32) -> Vec<bool> {
    let w = map.width as usize;
    let h = map.height as usize;
    let mut seen = vec![false; w * h];
    let mut todo = vec![(x, y)];
    seen[y as usize * w + x as usize] = true;
    while let Some((cx, cy)) = todo.pop() {
        let steps: [(i64, i64); 4] = [(1, 0), (-1, 0), (0, 1), (0, -1)];
        for (dx, dy) in steps.iter() {
            let nx = cx as i64 + dx;
            let ny = cy as i64 + dy;
            if nx < 0 || ny < 0 || nx >= w as i64 || ny >= h as i64 {
                continue;
            }
            let (nx, ny) = (nx as u32, ny as u32);
            let k = ny as usize * w + nx as usize;
            if !seen[k] && map.is_passable(nx, ny) {
                seen[k] = true;
                todo.push((nx, ny));
            }
        }
    }
    seen
}

#[test]
fn every_generated_room_can_be_reached_from_the_start() {
    let (data, state) = data_and_state();
    for seed in [1u64, 42, 777, 90210] {
        for floor in [1u32, 3, 5] {
            let map = generate_map(&state, &data, floor, TowerRunGoal::Balanced, seed);
            let seen = walkable_from(&map, map.start_x, map.start_y);
            for room in map.rooms.iter() {
                let cx = room.start_x + room.width / 2;
                let cy = room.start_y + room.height / 2;
                assert!(seen[(cy * map.width + cx) as usize]);
            }
        }
    }
}

#[test]
fn generated_floors_with_the_same_seed_are_identical() {
    let (data, state) = data_and_state();
    let a = generate_map(&state, &data, 2, TowerRunGoal::Salvage, 5150);
    let b = generate_map(&state, &data, 2, TowerRunGoal::Salvage, 5150);
    assert_eq!(a.tiles, b.tiles);
    assert_eq!(a.objects.len(), b.objects.len());
    assert!(a.objects.iter().any(|object| object.kind == TowerMapObjectKind::Loot));
}

#[test]
fn assigning_then_benching_restores_the_formation() {
    let (data, mut state) = data_and_state();
    let id = state.monster_roster.party_slots[0].unwrap();
    let benched = toggle_party_member(&mut state, &data, id);
    assert!(benched.summary.starts_with("Benched"));
    let formation = state.monster_roster.party_slots.clone();

    let assigned = toggle_party_member(&mut state, &data, id);
    assert!(assigned.summary.starts_with("Assigned"));
    assert_eq!(state.monster_roster.party_slots.iter().filter(|slot| **slot == Some(id)).count(), 1);
    let again = toggle_party_member(&mut state, &data, id);
    assert!(again.summary.starts_with("Benched"));
    assert_eq!(state.monster_roster.party_slots, formation);
}

#[test]
fn forecast_agrees_with_the_nested_egg() {
    let (data, mut state) = data_and_state();
    state.town.set_building_level("breeding_grove", 1);
    state.town.set_building_level("hatchery", 1);
    state.resources.add("herbs", 10);
    state.tower_progress.best_floor = 5;
    let rillfin = data.species("rillfin").unwrap();
    let second_id = state.monster_roster.add_monster("Ripple".to_owned(), rillfin, 0xBEE5_7001);
    let a = state.monster_roster.monster(1).unwrap().duplicate();
    let b = state.monster_roster.monster(second_id).unwrap().duplicate();
    let forecast = forecast_pair(&state, &data, &a, &b).unwrap();

    breed_pair(&mut state, &data, 1, second_id);
    let inheritance = state.egg_inventory.eggs[0].inheritance.as_ref().unwrap();
    assert_eq!(inheritance.species_options, forecast.species_options);
    assert_eq!(inheritance.element_options, forecast.element_options);
    assert_eq!(inheritance.temperament_options, forecast.temperament_options);
    assert_eq!(inheritance.passive_options, forecast.passive_options);
    assert_eq!(inheritance.lineage_quality, forecast.lineage_quality);
    assert_eq!(forecast.mutation_chance, mutation_chance(inheritance.mutation_floor));
}

#[test]
fn an_unavailable_approach_changes_nothing() {
    let (data, mut state) = data_and_state();
    start_run(&mut state, &data, TowerRunGoal::Balanced);
    state.tower_run.as_mut().unwrap().pending_event = Some(TowerPendingEvent {
        special_location_id: "lantern_well".to_owned(),
        event_ids: vec!["restorative_draught".to_owned()],
    });
    assert!(!event_choice_available(&state, &data, "restorative_draught"));
    let pressure = state.tower_run.as_ref().unwrap().pressure;
    let log = state.tower_run.as_ref().unwrap().event_log.len();
    let known = state.tower_discoveries.events.len();

    choose_special_event(&mut state, &data, "restorative_draught");

    let run = state.tower_run.as_ref().unwrap();
    assert!(run.pending_event.is_some());
    assert_eq!(run.pressure, pressure);
    assert_eq!(run.event_log.len(), log);
    assert_eq!(state.tower_discoveries.events.len(), known);
}
