use battle_beetles::beetle_genome::{BeetleGenome, BeetleGeneIndex};
use battle_beetles::game::Game;
use battle_beetles::simulation::{
    select_from_pair, tournament_select_individual, FitnessMetric, GaConfig, Simulate,
};
use battle_beetles::simulation::speed_ga::SpeedGA;
use battle_beetles::simulation::food_ga::FoodGA;
use battle_beetles::simulation::battle_ga::BattleGA;
use battle_beetles::simulation::fight_simulation::{
    run_fight, FightSimulation, PopulationBelow, SingleTeamLeft,
};
use battle_beetles::beetle::BeetleBuilder;
use battle_beetles::stats::chart_sums;

fn genomes_of(game: &Game) -> Vec<Vec<u32>> {
    let mut out: Vec<Vec<u32>> = Vec::new();
    for b in game.field_state.beetles.iter() {
        let mut v: Vec<u32> = Vec::new();
        for i in 0..7u64 {
            v.push(b.genome.get_gene(BeetleGeneIndex::from_index(i)));
        }
        out.push(v);
    }
    out
}

#[test]
fn full_bias_tournament_returns_the_strictly_fitter() {
    let mut game = Game::new();
    let id_a = game.add_beetle(BeetleBuilder::new().build());
    let id_b = game.add_beetle(BeetleBuilder::new().build());
    game.field_state.beetles[0].damage_inflicted = 5;
    game.field_state.beetles[1].damage_inflicted = 9;
    assert_eq!(select_from_pair(&game, FitnessMetric::Damage, 0, 1, true), id_b);
    assert_eq!(select_from_pair(&game, FitnessMetric::Damage, 1, 0, true), id_b);
    // The deliberately diversity-preserving branch picks the less fit.
    assert_eq!(select_from_pair(&game, FitnessMetric::Damage, 0, 1, false), id_a);
    // A full-bias tournament only ever returns existing agents.
    for _ in 0..50 {
        let id = tournament_select_individual(&game, FitnessMetric::Damage, 1000);
        assert!(id == id_a || id == id_b);
    }
}

#[test]
fn race_generation_with_zero_mutation_reuses_old_genomes() {
    let mut game = Game::new();
    game.set_random_population(6, 4000, 998, 63);
    let old_genomes = genomes_of(&game);
    assert_eq!(old_genomes.len(), 6);
    let mut sga = SpeedGA::new(game);
    sga.config = GaConfig {
        num_generations: 1,
        mutation_rate_permille: 0,
        selection_bias_permille: 800,
    };
    sga.run_generation();
    let new_genomes = genomes_of(&sga.game);
    assert_eq!(new_genomes.len(), 6, "race replacement keeps the population size");
    for g in new_genomes.iter() {
        assert!(
            old_genomes.iter().any(|o| o == g),
            "every offspring genome must come from the old population"
        );
    }
}

#[test]
fn race_generation_assigns_own_teams_and_fresh_positions() {
    let mut game = Game::new();
    game.set_random_population(5, 4000, 998, 63);
    for b in game.field_state.beetles.iter() {
        assert!(b.position.x >= 0 && b.position.x < 500_000, "spawn inside [0, 500) units");
        assert!(b.position.y >= 0 && b.position.y < 500_000);
    }
    let mut sga = SpeedGA::new(game);
    sga.run_generation();
    for b in sga.game.field_state.beetles.iter() {
        assert_eq!(b.team_id, b.id, "a race puts every agent on its own team");
        assert!(b.position.x >= 0 && b.position.x < 500_000);
        assert!(b.position.y >= 0 && b.position.y < 500_000);
    }
}

#[test]
fn battle_generation_restores_population_size() {
    let mut game = Game::new();
    game.set_random_population(12, 4000, 998, 63);
    let population: Vec<_> = std::mem::take(&mut game.field_state.beetles);
    let mut ga = BattleGA::new(population);
    ga.config.num_generations = 2;
    ga.run_generation();
    assert_eq!(ga.game.field_state.beetles.len(), 12);
    for b in ga.game.field_state.beetles.iter() {
        assert!(b.health <= b.max_health());
        // each generation starts everyone inside the [100, 600)-unit arena
        assert!(b.position.x >= 100_000 && b.position.x < 600_000);
        assert!(b.position.y >= 100_000 && b.position.y < 600_000);
    }
}

#[test]
fn foraging_generation_runs_and_keeps_world_sane() {
    let mut game = Game::new();
    game.set_random_population(4, 4000, 998, 63);
    let population: Vec<_> = std::mem::take(&mut game.field_state.beetles);
    let mut ga = FoodGA::new(population);
    ga.setup();
    assert_eq!(ga.game.field_state.home_bases.len(), 1);
    assert_eq!(ga.game.field_state.food_sources.len(), 1);
    assert_eq!(ga.game.field_state.food_sources[0].amount, 1_000_100);
    ga.run_generation();
    assert_eq!(ga.game.field_state.beetles.len(), 4);
}

#[test]
fn fight_simulation_stops_when_one_team_remains() {
    let mut game = Game::new();
    game.set_random_population(4, 4000, 998, 63);
    // Everyone already shares one team, so the fight ends before a tick.
    for b in game.field_state.beetles.iter_mut() {
        b.team_id = 3;
    }
    let ticks = run_fight(&mut game, &SingleTeamLeft {}, 1000);
    assert_eq!(ticks, 0);
    assert_eq!(game.field_state.beetles.len(), 4);
}

#[test]
fn fight_simulation_respects_population_threshold() {
    let mut game = Game::new();
    game.set_random_population(6, 4000, 998, 63);
    let mut sim = FightSimulation::new(game, PopulationBelow { threshold: 7 }, 1000);
    sim.run();
    let game = sim.into_game();
    assert_eq!(game.field_state.beetles.len(), 6, "already below threshold: nothing happens");
}

#[test]
fn chart_sums_add_up() {
    let mut game = Game::new();
    let _a = game.add_beetle(BeetleBuilder::new().build());
    let _b = game.add_beetle(BeetleBuilder::new().build());
    game.field_state.beetles[0].food_collected = 3;
    game.field_state.beetles[1].food_collected = 4;
    let cs = chart_sums(&game.field_state.beetles);
    assert_eq!(cs.count, 2);
    assert_eq!(cs.food_collected_sum, 7);
    assert_eq!(cs.max_health_sum, 91 + 91);
    assert_eq!(cs.attack_power_sum, 24 + 24);
    assert_eq!(cs.carapace_density_sum, 1000);
    assert_eq!(cs.speed_sum, 644 + 644);
}

#[test]
fn race_generation_on_empty_world_changes_nothing() {
    let game = Game::new();
    let mut sga = SpeedGA::new(game);
    sga.run_generation();
    assert!(sga.game.field_state.beetles.is_empty());
}

#[test]
fn trainers_accept_an_empty_population() {
    let mut ga = FoodGA::new(Vec::new());
    ga.setup();
    ga.run_generation();
    assert!(ga.game.field_state.beetles.is_empty());
    let mut bga = BattleGA::new(Vec::new());
    bga.run_generation();
    assert!(bga.game.field_state.beetles.is_empty());
}

#[test]
fn experiment_iteration_reports_both_contests() {
    let config = battle_beetles::experiment::ExperimentConfig {
        ga: GaConfig {
            num_generations: 1,
            mutation_rate_permille: 100,
            selection_bias_permille: 800,
        },
        team_size: 4,
        evolve_fight_ticks: 100,
        evolve_forage_ticks: 50,
        final_fight_ticks: 100,
        final_forage_ticks: 50,
    };
    let r = battle_beetles::experiment::run_iteration(config);
    assert!(r.food_result.winning_team_id == 0 || r.food_result.winning_team_id == 1);
    assert_eq!(r.battle_result.team_size, 4);
    assert!(r.food_result.winner_food >= r.food_result.loser_food);
}
