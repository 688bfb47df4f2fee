use conquest::combat::calculate_combat;
use conquest::engine::GameEngine;
use conquest::tick::accrue;
use conquest::types::{
    AIPersonality, BuildingType, GameError, GameState, MapGenerator, Player, PlayerId, Position,
    TerrainType, Territory, TerritoryId,
};

fn territory(id: u128, owner: Option<u128>, terrain: TerrainType, troops: u32, neighbors: Vec<u128>) -> Territory {
    Territory {
        id,
        owner,
        terrain,
        building: None,
        troops,
        neighbors,
        position: Position { x: 0, y: 0 },
    }
}

fn player(id: u128, personality: Option<AIPersonality>, gold: u32, troop_ratio: u32, attack_ratio: u32, controlled: u32) -> Player {
    Player {
        id,
        name: format!("player {}", id),
        is_ai: personality.is_some(),
        ai_personality: personality,
        color: "#FF0000".to_string(),
        population: 1000,
        max_population: 10_000,
        gold,
        troop_ratio,
        attack_ratio,
        territories_controlled: controlled,
        is_alive: true,
    }
}

fn world() -> GameState {
    GameState {
        territories: vec![
            territory(1, Some(100), TerrainType::Plains, 50, vec![2]),
            territory(2, Some(100), TerrainType::Forests, 50, vec![1, 3]),
            territory(3, Some(200), TerrainType::Mountains, 40, vec![2, 4]),
            territory(4, None, TerrainType::Water, 10, vec![3]),
        ],
        players: vec![
            player(100, None, 500, 500_000, 200_000, 2),
            player(200, Some(AIPersonality::Aggressor), 2000, 700_000, 400_000, 1),
        ],
        tick: 0,
        game_speed: 1000,
        is_paused: false,
        game_time_micros: 0,
    }
}

fn engine() -> GameEngine {
    GameEngine::new(world(), 1000)
}

fn populations(e: &GameEngine) -> Vec<u32> {
    e.state.players.iter().map(|p| p.population).collect()
}

fn troops(e: &GameEngine) -> Vec<u32> {
    e.state.territories.iter().map(|t| t.troops).collect()
}

fn owners(e: &GameEngine) -> Vec<Option<u128>> {
    e.state.territories.iter().map(|t| t.owner).collect()
}

#[test]
fn ids_wrap_their_number() {
    assert_eq!(TerritoryId::new(7).0, 7);
    assert_eq!(PlayerId::new(9).0, 9);
    assert_eq!(TerritoryId::new(7), TerritoryId(7));
}

#[test]
fn map_generator_keeps_its_counts() {
    let g = MapGenerator::new(50, 5);
    assert_eq!(g.territory_count, 50);
    assert_eq!(g.player_count, 5);
}

#[test]
fn terrain_and_building_tables() {
    assert_eq!(TerrainType::Plains.gold_multiplier(), 120);
    assert_eq!(TerrainType::Water.gold_multiplier(), 100);
    assert_eq!(TerrainType::Mountains.defense_multiplier(), 70);
    assert_eq!(TerrainType::Forests.defense_multiplier(), 100);
    assert_eq!(TerrainType::Forests.population_growth_multiplier(), 120);
    assert_eq!(TerrainType::Plains.population_growth_multiplier(), 100);
    assert_eq!(BuildingType::City.cost(), 1000);
    assert_eq!(BuildingType::DefensePost.cost(), 500);
    assert_eq!(BuildingType::GoldMine.cost(), 750);
    assert_eq!(BuildingType::City.max_population_bonus(), 25_000);
    assert_eq!(BuildingType::GoldMine.max_population_bonus(), 0);
    assert_eq!(BuildingType::DefensePost.defense_multiplier(), 80);
    assert_eq!(BuildingType::City.defense_multiplier(), 100);
    assert_eq!(BuildingType::GoldMine.gold_multiplier(), 150);
    assert_eq!(BuildingType::City.gold_multiplier(), 100);
}

#[test]
fn troops_and_workers_split_the_population() {
    let mut p = player(1, None, 0, 300_000, 150_000, 0);
    p.population = 1001;
    assert_eq!(p.troops(), 300);
    assert_eq!(p.workers(), 701);
    assert_eq!(p.attack_force(), 45);
    p.troop_ratio = 0;
    assert_eq!(p.troops(), 0);
    assert_eq!(p.workers(), 1001);
    p.troop_ratio = 1_000_000;
    assert_eq!(p.troops(), 1001);
    assert_eq!(p.workers(), 0);
}

#[test]
fn combat_attacker_wins_on_plains() {
    assert_eq!(calculate_combat(100, 40, TerrainType::Plains, None), (12, 40, true));
}

#[test]
fn combat_defender_wins_on_mountains() {
    assert_eq!(calculate_combat(30, 100, TerrainType::Mountains, None), (30, 10, false));
}

#[test]
fn combat_equal_forces() {
    assert_eq!(calculate_combat(100, 100, TerrainType::Plains, None), (70, 70, false));
    assert_eq!(calculate_combat(1, 1, TerrainType::Water, None), (0, 0, false));
}

#[test]
fn combat_defense_post_and_mountains_multiply() {
    assert_eq!(
        calculate_combat(200, 100, TerrainType::Mountains, Some(BuildingType::DefensePost)),
        (30, 56, false)
    );
    assert_eq!(
        calculate_combat(200, 100, TerrainType::Plains, Some(BuildingType::DefensePost)),
        (30, 80, false)
    );
    assert_eq!(
        calculate_combat(200, 100, TerrainType::Plains, Some(BuildingType::City)),
        (30, 100, true)
    );
}

#[test]
fn combat_empty_target_falls() {
    assert_eq!(calculate_combat(5, 0, TerrainType::Mountains, None), (0, 0, true));
}

#[test]
fn combat_largest_forces_do_not_overflow() {
    assert_eq!(
        calculate_combat(u32::MAX, u32::MAX, TerrainType::Plains, None),
        (3006477106, 3006477106, false)
    );
}

#[test]
fn lookups_find_entities_by_id() {
    let e = engine();
    assert_eq!(e.get_territory(TerritoryId(3)).unwrap().troops, 40);
    assert_eq!(e.get_player(PlayerId(200)).unwrap().gold, 2000);
    assert_eq!(e.get_territory(TerritoryId(9)).unwrap_err(), GameError::TerritoryNotFound);
    assert_eq!(e.get_player(PlayerId(9)).unwrap_err(), GameError::PlayerNotFound);
    assert_eq!(e.territory_index(TerritoryId(4)), Some(3));
    assert_eq!(e.player_index(PlayerId(100)), Some(0));
    assert_eq!(e.player_index(PlayerId(1)), None);
    assert_eq!(e.tick_rate_ms, 1000);
}

#[test]
fn mutable_lookups_reach_the_entity() {
    let mut e = engine();
    e.get_player_mut(PlayerId(200)).unwrap().gold = 7;
    assert_eq!(e.state.players[1].gold, 7);
    assert_eq!(e.state.players[0].gold, 500);
    e.get_territory_mut(TerritoryId(2)).unwrap().troops = 99;
    assert_eq!(troops(&e), vec![50, 99, 40, 10]);
    assert_eq!(e.get_player_mut(PlayerId(1)).unwrap_err(), GameError::PlayerNotFound);
    assert_eq!(e.get_territory_mut(TerritoryId(0)).unwrap_err(), GameError::TerritoryNotFound);
}

#[test]
fn ratios_are_held_to_one() {
    let mut e = engine();
    assert_eq!(e.set_troop_ratio(PlayerId(100), 250_000), Ok(()));
    assert_eq!(e.state.players[0].troop_ratio, 250_000);
    assert_eq!(e.set_troop_ratio(PlayerId(100), 3_000_000), Ok(()));
    assert_eq!(e.state.players[0].troop_ratio, 1_000_000);
    assert_eq!(e.set_attack_ratio(PlayerId(100), u32::MAX), Ok(()));
    assert_eq!(e.state.players[0].attack_ratio, 1_000_000);
    assert_eq!(e.set_attack_ratio(PlayerId(100), 0), Ok(()));
    assert_eq!(e.state.players[0].attack_ratio, 0);
    assert_eq!(e.state.players[1].troop_ratio, 700_000);
    assert_eq!(e.state.players[1].attack_ratio, 400_000);
    assert_eq!(e.set_troop_ratio(PlayerId(5), 1), Err(GameError::PlayerNotFound));
    assert_eq!(e.set_attack_ratio(PlayerId(5), 1), Err(GameError::PlayerNotFound));
}

#[test]
fn speed_is_held_between_half_and_four() {
    let mut e = engine();
    e.set_game_speed(100);
    assert_eq!(e.state.game_speed, 500);
    e.set_game_speed(9000);
    assert_eq!(e.state.game_speed, 4000);
    e.set_game_speed(2500);
    assert_eq!(e.state.game_speed, 2500);
    e.set_paused(true);
    assert!(e.state.is_paused);
    e.set_paused(false);
    assert!(!e.state.is_paused);
}

#[test]
fn attack_that_does_not_conquer() {
    let mut e = engine();
    let r = e.execute_attack(PlayerId(100), TerritoryId(2), TerritoryId(3)).unwrap();
    assert_eq!(r.attacker_id, 100);
    assert_eq!(r.defender_id, Some(200));
    assert_eq!(r.from_territory, 2);
    assert_eq!(r.to_territory, 3);
    assert_eq!(r.attacker_troops_committed, 100);
    assert_eq!(r.defender_troops, 40);
    assert_eq!(r.attacker_losses, 12);
    assert_eq!(r.defender_losses, 28);
    assert!(!r.territory_conquered);
    assert_eq!(populations(&e), vec![988, 972]);
    assert_eq!(troops(&e), vec![50, 50, 12, 10]);
    assert_eq!(owners(&e), vec![Some(100), Some(100), Some(200), None]);
}

#[test]
fn attack_that_conquers_a_neutral_territory() {
    let mut e = engine();
    let r = e.execute_attack(PlayerId(200), TerritoryId(3), TerritoryId(4)).unwrap();
    assert_eq!(r.defender_id, None);
    assert_eq!(r.attacker_troops_committed, 280);
    assert_eq!(r.defender_troops, 10);
    assert_eq!(r.attacker_losses, 3);
    assert_eq!(r.defender_losses, 10);
    assert!(r.territory_conquered);
    assert_eq!(populations(&e), vec![1000, 997]);
    assert_eq!(troops(&e), vec![50, 50, 40, 277]);
    assert_eq!(owners(&e), vec![Some(100), Some(100), Some(200), Some(200)]);
}

#[test]
fn attack_losses_stop_at_an_empty_population() {
    let mut e = engine();
    e.state.players[1].population = 5;
    let r = e.execute_attack(PlayerId(100), TerritoryId(2), TerritoryId(3)).unwrap();
    assert_eq!(r.defender_losses, 28);
    assert_eq!(populations(&e), vec![988, 0]);
}

#[test]
fn refused_attacks_leave_the_world_alone() {
    let mut e = engine();
    let cases = vec![
        (100, 99, 3, GameError::TerritoryNotFound),
        (100, 3, 2, GameError::NotAttackerTerritory),
        (100, 4, 3, GameError::NotAttackerTerritory),
        (100, 1, 3, GameError::NotNeighbors),
        (100, 2, 1, GameError::OwnTerritory),
        (7, 2, 3, GameError::NotAttackerTerritory),
    ];
    for (who, from, to, error) in cases {
        assert_eq!(
            e.execute_attack(PlayerId(who), TerritoryId(from), TerritoryId(to)),
            Err(error)
        );
        assert_eq!(populations(&e), vec![1000, 1000]);
        assert_eq!(troops(&e), vec![50, 50, 40, 10]);
        assert_eq!(owners(&e), vec![Some(100), Some(100), Some(200), None]);
    }
}

#[test]
fn attack_on_an_unknown_neighbor_is_refused() {
    let mut w = world();
    w.territories[0].neighbors.push(77);
    let mut e = GameEngine::new(w, 1000);
    assert_eq!(
        e.execute_attack(PlayerId(100), TerritoryId(1), TerritoryId(77)),
        Err(GameError::TerritoryNotFound)
    );
}

#[test]
fn attack_without_troops_is_refused() {
    let mut e = engine();
    e.state.players[0].attack_ratio = 0;
    assert_eq!(
        e.execute_attack(PlayerId(100), TerritoryId(2), TerritoryId(3)),
        Err(GameError::NoTroops)
    );
    e.state.players[0].attack_ratio = 1_000_000;
    e.state.players[0].population = 0;
    assert_eq!(
        e.execute_attack(PlayerId(100), TerritoryId(2), TerritoryId(3)),
        Err(GameError::NoTroops)
    );
    e.state.players[0].population = 1000;
    e.state.players[0].troop_ratio = 0;
    assert_eq!(
        e.execute_attack(PlayerId(100), TerritoryId(2), TerritoryId(3)),
        Err(GameError::NoTroops)
    );
    assert_eq!(troops(&e), vec![50, 50, 40, 10]);
    assert_eq!(e.state.players[1].population, 1000);
}

#[test]
fn building_pays_and_installs() {
    let mut e = engine();
    assert_eq!(e.build_structure(PlayerId(200), TerritoryId(3), BuildingType::City), Ok(()));
    assert_eq!(e.state.players[1].gold, 1000);
    assert_eq!(e.state.players[1].max_population, 35_000);
    assert_eq!(e.state.territories[2].building, Some(BuildingType::City));
    assert_eq!(e.build_structure(PlayerId(100), TerritoryId(1), BuildingType::DefensePost), Ok(()));
    assert_eq!(e.state.players[0].gold, 0);
    assert_eq!(e.state.players[0].max_population, 10_000);
    assert_eq!(e.state.territories[0].building, Some(BuildingType::DefensePost));
    assert_eq!(e.state.territories[1].building, None);
}

#[test]
fn refused_builds_leave_the_world_alone() {
    let mut e = engine();
    assert_eq!(
        e.build_structure(PlayerId(100), TerritoryId(9), BuildingType::City),
        Err(GameError::TerritoryNotFound)
    );
    assert_eq!(
        e.build_structure(PlayerId(100), TerritoryId(3), BuildingType::DefensePost),
        Err(GameError::NotOwner)
    );
    assert_eq!(
        e.build_structure(PlayerId(100), TerritoryId(4), BuildingType::DefensePost),
        Err(GameError::NotOwner)
    );
    assert_eq!(
        e.build_structure(PlayerId(100), TerritoryId(1), BuildingType::GoldMine),
        Err(GameError::NotEnoughGold)
    );
    assert_eq!(e.state.players[0].gold, 500);
    assert_eq!(e.state.players[0].max_population, 10_000);
    assert!(e.state.territories.iter().all(|t| t.building.is_none()));
}

#[test]
fn a_territory_is_built_on_once() {
    let mut e = engine();
    e.state.players[1].gold = 1_000_000;
    assert_eq!(e.build_structure(PlayerId(200), TerritoryId(3), BuildingType::GoldMine), Ok(()));
    for b in [BuildingType::City, BuildingType::DefensePost, BuildingType::GoldMine] {
        assert_eq!(
            e.build_structure(PlayerId(200), TerritoryId(3), b),
            Err(GameError::AlreadyBuilt)
        );
    }
    assert_eq!(e.state.players[1].gold, 1_000_000 - 750);
    assert_eq!(e.state.territories[2].building, Some(BuildingType::GoldMine));
}

#[test]
fn city_cap_stops_at_the_largest_number() {
    let mut e = engine();
    e.state.players[1].max_population = u32::MAX - 10;
    assert_eq!(e.build_structure(PlayerId(200), TerritoryId(3), BuildingType::City), Ok(()));
    assert_eq!(e.state.players[1].max_population, u32::MAX);
}

#[test]
fn error_texts() {
    assert_eq!(GameError::TerritoryNotFound.message(), "Territory not found");
    assert_eq!(GameError::PlayerNotFound.message(), "Player not found");
    assert_eq!(GameError::NotOwner.message(), "You don't own this territory");
    assert_eq!(GameError::AlreadyBuilt.message(), "Territory already has a building");
    assert_eq!(GameError::NotEnoughGold.message(), "Not enough gold");
    assert_eq!(GameError::NotAttackerTerritory.message(), "You don't own the attacking territory");
    assert_eq!(GameError::NotNeighbors.message(), "Territories are not neighbors");
    assert_eq!(GameError::OwnTerritory.message(), "Can't attack your own territory");
    assert_eq!(GameError::NoTroops.message(), "No troops available to attack");
}

#[test]
fn accrual_is_the_floor_of_the_exact_quotient() {
    assert_eq!(accrue(20, 320, 1000, 1000, 200_000_000), 32);
    assert_eq!(accrue(20, 320, 100, 1000, 200_000_000), 3);
    assert_eq!(accrue(500, 38_000, 100, 1000, 200_000_000_000), 9);
    assert_eq!(accrue(0, 320, 100, 1000, 1_000_000), 0);
    assert_eq!(accrue(10, 1, 100, 4000, 1_000_000), 4);
    assert_eq!(accrue(u64::MAX, u64::MAX, u64::MAX, u32::MAX, 1), u32::MAX);
    assert_eq!(accrue(u64::MAX, u64::MAX, 1, 1, 1 << 70), u32::MAX);
    assert_eq!(accrue(1 << 40, 1 << 30, 1, 1, 1 << 40), 1 << 30);
}

#[test]
fn tick_advances_clock_and_resources() {
    let mut e = engine();
    e.tick();
    assert_eq!(e.state.tick, 1);
    assert_eq!(e.state.game_time_micros, 1_000_000);
    assert_eq!(e.state.game_time_seconds(), 1);
    assert_eq!(populations(&e), vec![1022, 1010]);
    assert_eq!(e.state.players[0].gold, 605);
    assert_eq!(e.state.players[1].gold, 2060);
    assert_eq!(e.state.players[0].territories_controlled, 2);
    assert_eq!(e.state.players[1].territories_controlled, 1);
    assert!(e.state.players[0].is_alive && e.state.players[1].is_alive);
    assert_eq!(troops(&e), vec![50, 50, 40, 10]);
}

#[test]
fn tick_counts_gold_mines_and_speed() {
    let mut w = world();
    w.territories[0].building = Some(BuildingType::GoldMine);
    w.game_speed = 2000;
    let mut e = GameEngine::new(w, 100);
    e.tick();
    assert_eq!(e.state.game_time_micros, 200_000);
    assert_eq!(e.state.game_time_seconds(), 0);
    assert_eq!(e.state.players[0].population, 1004);
    assert_eq!(e.state.players[0].gold, 524);
    assert_eq!(e.state.players[1].population, 1002);
    assert_eq!(e.state.players[1].gold, 2012);
}

#[test]
fn tick_without_territories_uses_a_bonus_of_one() {
    let mut w = world();
    w.territories[2].owner = Some(100);
    w.players[1].territories_controlled = 3;
    let mut e = GameEngine::new(w, 1000);
    e.tick();
    assert_eq!(e.state.players[1].population, 1030);
    assert_eq!(e.state.players[1].gold, 2030);
    assert_eq!(e.state.players[1].territories_controlled, 0);
    assert!(!e.state.players[1].is_alive);
    assert_eq!(e.state.players[0].territories_controlled, 3);
}

#[test]
fn tick_keeps_population_within_its_cap() {
    let mut w = world();
    w.players[0].population = 9_990;
    let mut e = GameEngine::new(w, 1000);
    e.tick();
    assert_eq!(e.state.players[0].population, 10_000);
    let mut w = world();
    w.players[0].gold = u32::MAX - 3;
    let mut e = GameEngine::new(w, u64::MAX);
    e.tick();
    assert_eq!(e.state.players[0].population, 10_000);
    assert_eq!(e.state.players[0].gold, u32::MAX);
    assert_eq!(e.state.game_time_micros, u64::MAX);
}

#[test]
fn paused_tick_changes_nothing() {
    let mut e = engine();
    e.set_paused(true);
    e.tick();
    assert_eq!(e.state.tick, 0);
    assert_eq!(e.state.game_time_micros, 0);
    assert_eq!(populations(&e), vec![1000, 1000]);
    assert_eq!(e.state.players[0].gold, 500);
    e.set_paused(false);
    e.tick();
    assert_eq!(e.state.tick, 1);
}

#[test]
fn elimination_is_final() {
    let mut e = engine();
    e.state.territories[2].owner = Some(100);
    e.tick();
    assert!(!e.state.players[1].is_alive);
    assert_eq!(e.state.players[1].territories_controlled, 0);
    let frozen = (e.state.players[1].population, e.state.players[1].gold);
    e.state.territories[3].owner = Some(200);
    e.tick();
    assert_eq!(e.state.players[1].territories_controlled, 1);
    assert!(!e.state.players[1].is_alive);
    assert_eq!((e.state.players[1].population, e.state.players[1].gold), frozen);
    assert!(e.state.players[0].is_alive);
}

#[test]
fn game_is_over_with_one_player_alive() {
    let mut e = engine();
    assert_eq!(e.check_game_over(), None);
    e.state.players[1].is_alive = false;
    e.state.players[0].territories_controlled = 10;
    e.state.players[0].gold = 250;
    e.state.game_time_micros = 61_500_000;
    let stats = e.check_game_over().unwrap();
    assert_eq!(stats.winner, 100);
    assert_eq!(stats.final_score, 1025);
    assert_eq!(stats.territories_captured, 10);
    assert_eq!(stats.game_duration_seconds, 61);
    assert_eq!(stats.total_battles, 0);
    e.state.players[0].is_alive = false;
    assert_eq!(e.check_game_over(), None);
}

#[test]
fn game_over_comes_when_two_become_one() {
    let mut e = engine();
    e.tick();
    assert_eq!(e.check_game_over(), None);
    e.state.territories[2].owner = Some(100);
    e.tick();
    let stats = e.check_game_over().unwrap();
    assert_eq!(stats.winner, 100);
    assert_eq!(stats.territories_captured, 3);
    assert_eq!(stats.final_score, 3 * 100 + e.state.players[0].gold / 10);
}

#[test]
fn troops_are_spread_evenly() {
    let mut e = engine();
    e.distribute_troops(PlayerId(100));
    assert_eq!(troops(&e), vec![250, 250, 40, 10]);
    e.distribute_troops(PlayerId(200));
    assert_eq!(troops(&e), vec![250, 250, 700, 10]);
    e.distribute_troops(PlayerId(5));
    assert_eq!(troops(&e), vec![250, 250, 700, 10]);
    e.state.players[0].territories_controlled = 0;
    e.state.players[0].troop_ratio = 0;
    e.distribute_troops(PlayerId(100));
    assert_eq!(troops(&e), vec![250, 250, 700, 10]);
    e.state.players[0].territories_controlled = 3;
    e.state.players[0].troop_ratio = 1_000_000;
    e.distribute_troops(PlayerId(100));
    assert_eq!(troops(&e), vec![333, 333, 700, 10]);
}

#[test]
fn bonus_sums_count_owned_territories() {
    let mut e = engine();
    assert_eq!(e.calculate_population_growth_bonus(PlayerId(100)), (220, 2));
    assert_eq!(e.calculate_gold_generation_bonus(PlayerId(100)), (42_000, 2));
    assert_eq!(e.calculate_population_growth_bonus(PlayerId(200)), (100, 1));
    assert_eq!(e.calculate_gold_generation_bonus(PlayerId(200)), (20_000, 1));
    assert_eq!(e.calculate_population_growth_bonus(PlayerId(7)), (0, 0));
    assert_eq!(e.calculate_gold_generation_bonus(PlayerId(7)), (0, 0));
    e.state.territories[0].building = Some(BuildingType::GoldMine);
    e.state.territories[1].building = Some(BuildingType::GoldMine);
    assert_eq!(e.calculate_gold_generation_bonus(PlayerId(100)), (53_000, 2));
}

#[test]
fn valid_worlds_are_recognised() {
    assert!(world().is_valid());
    let mut w = world();
    w.territories[3].owner = Some(5);
    assert!(!w.is_valid());
    let mut w = world();
    w.territories[3].id = 1;
    assert!(!w.is_valid());
    let mut w = world();
    w.players[1].id = 100;
    assert!(!w.is_valid());
    let mut w = world();
    w.players[1].troop_ratio = 1_000_001;
    assert!(!w.is_valid());
    let mut w = world();
    w.players[0].attack_ratio = 1_000_001;
    assert!(!w.is_valid());
    let mut w = world();
    w.players[0].population = 10_001;
    assert!(!w.is_valid());
    let mut w = world();
    w.territories[3].neighbors.clear();
    assert!(!w.is_valid());
    let mut w = world();
    w.territories[3].neighbors = vec![3, 1];
    assert!(!w.is_valid());
    w.territories[0].neighbors = vec![2, 4];
    assert!(w.is_valid());
    w.territories[0].neighbors = vec![2, 4, 77];
    assert!(w.is_valid());
    let mut w = world();
    w.players[0].is_ai = true;
    assert!(!w.is_valid());
    let mut w = world();
    w.players[1].ai_personality = None;
    assert!(!w.is_valid());
    let mut w = world();
    w.game_speed = 499;
    assert!(!w.is_valid());
    w.game_speed = 4001;
    assert!(!w.is_valid());
    w.game_speed = 4000;
    assert!(w.is_valid());
}

#[test]
fn every_alive_player_is_garrisoned() {
    let mut e = engine();
    e.distribute_all();
    assert_eq!(troops(&e), vec![250, 250, 700, 10]);
    assert_eq!(populations(&e), vec![1000, 1000]);
    let mut e = engine();
    e.state.players[1].is_alive = false;
    e.distribute_all();
    assert_eq!(troops(&e), vec![250, 250, 40, 10]);
    let mut e = engine();
    e.state.players[0].territories_controlled = 0;
    e.distribute_all();
    assert_eq!(troops(&e), vec![50, 50, 700, 10]);
}

fn lone_world(terrains: Vec<TerrainType>) -> GameState {
    let count = terrains.len() as u128;
    let territories = terrains
        .into_iter()
        .enumerate()
        .map(|(i, terrain)| {
            let id = i as u128 + 1;
            let next = if id == count { 1 } else { id + 1 };
            let previous = if id == 1 { count } else { id - 1 };
            territory(id, Some(100), terrain, 0, vec![next, previous])
        })
        .collect();
    let mut p = player(100, None, 0, 500_000, 200_000, count as u32);
    p.population = 1000;
    GameState {
        territories,
        players: vec![p],
        tick: 0,
        game_speed: 1000,
        is_paused: false,
        game_time_micros: 0,
    }
}

#[test]
fn gold_bonus_is_one_plus_the_mean_multiplier() {
    let mut e = GameEngine::new(lone_world(vec![TerrainType::Water, TerrainType::Water]), 1000);
    e.tick();
    assert_eq!(e.state.players[0].gold, 100);
    let three = vec![TerrainType::Water, TerrainType::Mountains, TerrainType::Forests];
    let mut e = GameEngine::new(lone_world(three), 1000);
    e.tick();
    assert_eq!(e.state.players[0].gold, 100);
    let mut e = GameEngine::new(lone_world(vec![TerrainType::Plains, TerrainType::Plains]), 1000);
    e.tick();
    assert_eq!(e.state.players[0].gold, 110);
    let mut w = lone_world(vec![TerrainType::Plains, TerrainType::Water]);
    w.territories[0].building = Some(BuildingType::GoldMine);
    w.territories[1].building = Some(BuildingType::GoldMine);
    let mut e = GameEngine::new(w, 1000);
    e.tick();
    assert_eq!(e.state.players[0].gold, 132);
}

#[test]
fn growth_bonus_is_one_plus_the_share_of_forests() {
    let mut e = GameEngine::new(lone_world(vec![TerrainType::Plains, TerrainType::Water]), 1000);
    e.tick();
    assert_eq!(e.state.players[0].population, 1020);
    let mut e = GameEngine::new(lone_world(vec![TerrainType::Forests, TerrainType::Forests]), 1000);
    e.tick();
    assert_eq!(e.state.players[0].population, 1024);
    let four = vec![
        TerrainType::Forests,
        TerrainType::Plains,
        TerrainType::Mountains,
        TerrainType::Water,
    ];
    let mut e = GameEngine::new(lone_world(four), 1000);
    e.tick();
    assert_eq!(e.state.players[0].population, 1042);
}
