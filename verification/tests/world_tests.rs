use battle_beetles::beetle::BeetleBuilder;
use battle_beetles::beetle_genome::{BeetleGenome, BeetleGeneIndex};
use battle_beetles::entities::{FoodSource, find_closest};
use battle_beetles::game::{Game, Command, State};
use battle_beetles::geom::Vec2;
use battle_beetles::Id;

fn spawn_at(game: &mut Game, x: i64, y: i64, genome: BeetleGenome) -> Id {
    let beetle = BeetleBuilder::new().x_pos(x).y_pos(y).genome(genome).build();
    game.add_beetle(beetle)
}

fn total_food(game: &Game) -> u128 {
    let mut total: u128 = 0;
    for b in game.field_state.beetles.iter() {
        total += b.food_carrying as u128;
    }
    for f in game.field_state.food_sources.iter() {
        total += f.amount as u128;
    }
    for h in game.field_state.home_bases.iter() {
        total += h.food_stored_amount as u128;
    }
    total
}

#[test]
fn reduce_food_collects_the_minimum() {
    let mut f = FoodSource::new(7);
    assert_eq!(f.amount(), 100);
    let collected = f.reduce_food(30);
    assert_eq!(collected, 30);
    assert_eq!(f.amount(), 70);
    f.amount = 3;
    let collected = f.reduce_food(5);
    assert_eq!(collected, 3);
    assert_eq!(f.amount(), 0);
}

#[test]
fn ids_are_fresh_and_disjoint_across_kinds() {
    let mut game = Game::new();
    let b1 = spawn_at(&mut game, 0, 0, BeetleGenome::new());
    let b2 = spawn_at(&mut game, 10_000, 0, BeetleGenome::new());
    let f = game.add_food_source(20_000, 0);
    let h = game.add_home_base(30_000, 0);
    let all = [b1, b2, f, h];
    for (i, a) in all.iter().enumerate() {
        assert!(*a >= 1);
        for (j, b) in all.iter().enumerate() {
            if i != j {
                assert_ne!(a, b);
            }
        }
    }
}

#[test]
fn find_closest_picks_nearest_first_on_ties() {
    let mut game = Game::new();
    let _b = spawn_at(&mut game, 0, 0, BeetleGenome::new());
    let _f1 = game.add_food_source(50_000, 0);
    let _f2 = game.add_food_source(20_000, 0);
    let _f3 = game.add_food_source(20_000, 0); // same distance as f2, later
    let me = &game.field_state.beetles[0];
    let r = find_closest(me, &game.field_state.food_sources);
    assert_eq!(r, Some(1)); // the earlier of the two equidistant sources
}

#[test]
fn opposing_agents_fight_and_the_weaker_dies_on_schedule() {
    let mut game = Game::new();
    let mut strong_genome = BeetleGenome::new();
    strong_genome.set_gene_value(BeetleGeneIndex::Strength, 1000);
    let strong_id = spawn_at(&mut game, 100_000, 100_000, strong_genome);
    let weak_id = spawn_at(&mut game, 103_000, 100_000, BeetleGenome::new());
    game.field_state.beetles[0].direction = Vec2 { x: 1000, y: 0 };
    game.field_state.beetles[0].team_id = 1;
    game.field_state.beetles[1].direction = Vec2 { x: -1000, y: 0 };
    game.field_state.beetles[1].team_id = 2;
    let strong_attack = game.field_state.beetles[0].attack_power();
    let weak_attack = game.field_state.beetles[1].attack_power();
    let strong_max = game.field_state.beetles[0].max_health();
    let weak_max = game.field_state.beetles[1].max_health();
    assert_eq!(strong_attack, 29);
    assert_eq!(weak_attack, 24);
    assert_eq!(strong_max, 110);
    assert_eq!(weak_max, 91);
    game.field_state.beetles[0].set_command(Command::Interact { target_id: weak_id });
    game.field_state.beetles[1].set_command(Command::Interact { target_id: strong_id });
    // ceil(91 / 29) == 4 ticks until the weaker agent falls.
    let expected_ticks = (weak_max + strong_attack - 1) / strong_attack;
    assert_eq!(expected_ticks, 4);
    for t in 1..=expected_ticks {
        game.tick();
        // Exactly one attack fires per agent per tick.
        let strong = game
            .field_state
            .beetles
            .iter()
            .find(|b| b.id == strong_id)
            .expect("strong agent alive");
        assert_eq!(strong.damage_inflicted, (t as u64) * strong_attack as u64);
        // Health never exceeds the derived maximum and never wraps below 0.
        for b in game.field_state.beetles.iter() {
            assert!(b.health <= b.max_health());
        }
        let weak_alive = game.field_state.beetles.iter().any(|b| b.id == weak_id);
        if t < expected_ticks {
            assert!(weak_alive);
        } else {
            assert!(!weak_alive, "weaker agent must be removed after {} ticks", t);
        }
    }
    let strong = game
        .field_state
        .beetles
        .iter()
        .find(|b| b.id == strong_id)
        .expect("strong agent survives");
    assert_eq!(strong.health, strong_max - expected_ticks * weak_attack);
}

#[test]
fn attacker_is_credited_even_when_the_target_fell_first() {
    // Two agents strike the same victim in one tick: the first strike
    // removes it, and the second attacker's lifetime damage counter still
    // grows, as resolution credits the striker unconditionally.
    let mut game = Game::new();
    let _a = spawn_at(&mut game, 100_000, 100_000, BeetleGenome::new());
    let _b = spawn_at(&mut game, 100_000, 106_000, BeetleGenome::new());
    let victim = spawn_at(&mut game, 103_000, 103_000, BeetleGenome::new());
    game.field_state.beetles[0].direction = Vec2 { x: 707, y: 707 };
    game.field_state.beetles[1].direction = Vec2 { x: 707, y: -707 };
    game.field_state.beetles[0].team_id = 1;
    game.field_state.beetles[1].team_id = 1;
    game.field_state.beetles[2].team_id = 2;
    game.field_state.beetles[2].health = 1;
    game.field_state.beetles[0].set_command(Command::Interact { target_id: victim });
    game.field_state.beetles[1].set_command(Command::Interact { target_id: victim });
    let attack = game.field_state.beetles[0].attack_power() as u64;
    game.tick();
    assert_eq!(game.field_state.beetles.len(), 2);
    assert_eq!(game.field_state.beetles[0].damage_inflicted, attack);
    assert_eq!(game.field_state.beetles[1].damage_inflicted, attack);
}

#[test]
fn same_team_agents_do_not_fight() {
    let mut game = Game::new();
    let a = spawn_at(&mut game, 0, 0, BeetleGenome::new());
    let b = spawn_at(&mut game, 3000, 0, BeetleGenome::new());
    game.field_state.beetles[0].direction = Vec2 { x: 1000, y: 0 };
    game.field_state.beetles[1].direction = Vec2 { x: -1000, y: 0 };
    game.field_state.beetles[0].team_id = 5;
    game.field_state.beetles[1].team_id = 5;
    let h0 = game.field_state.beetles[0].health;
    let h1 = game.field_state.beetles[1].health;
    game.field_state.beetles[0].set_command(Command::Interact { target_id: b });
    game.field_state.beetles[1].set_command(Command::Interact { target_id: a });
    for _ in 0..10 {
        game.tick();
    }
    assert_eq!(game.field_state.beetles[0].health, h0);
    assert_eq!(game.field_state.beetles[1].health, h1);
}

#[test]
fn dump_food_conserves_total_system_food() {
    let mut game = Game::new();
    let _b = spawn_at(&mut game, 0, 0, BeetleGenome::new());
    let base = game.add_home_base(3000, 0);
    game.field_state.beetles[0].direction = Vec2 { x: 1000, y: 0 };
    game.field_state.beetles[0].food_carrying = 1;
    game.field_state.beetles[0].set_command(Command::Interact { target_id: base });
    let before = total_food(&game);
    assert_eq!(before, 1);
    game.tick();
    let after = total_food(&game);
    assert_eq!(before, after);
    assert_eq!(game.field_state.beetles[0].food_carrying, 0);
    assert_eq!(game.field_state.home_bases[0].food_stored_amount, 1);
    assert_eq!(game.field_state.beetles[0].food_collected, 1);
}

#[test]
fn move_command_arrives_and_stops() {
    let mut game = Game::new();
    let _b = spawn_at(&mut game, 0, 0, BeetleGenome::new());
    // Heading already points at the target: pure translation.
    game.field_state.beetles[0].direction = Vec2 { x: 0, y: 1000 };
    game.field_state.beetles[0]
        .set_command(Command::Move { position: Vec2 { x: 0, y: 300_000 } });
    for _ in 0..2000 {
        game.tick();
    }
    let p = game.field_state.beetles[0].position;
    let dy = (300_000 - p.y).abs();
    let dx = p.x.abs();
    assert!(dx * dx + dy * dy < 25_000_000, "agent should report arrived, at {:?}", p);
    // Once arrived the agent stops translating.
    let settled = game.field_state.beetles[0].position;
    for _ in 0..10 {
        game.tick();
    }
    assert_eq!(game.field_state.beetles[0].position, settled);
    assert_eq!(game.field_state.beetles[0].current_state, State::Idle);
}

#[test]
fn move_command_turns_then_arrives() {
    let mut game = Game::new();
    let beetle = BeetleBuilder::new()
        .x_pos(0)
        .y_pos(0)
        .max_speed_units_per_tick(200)
        .genome(BeetleGenome::new())
        .build();
    let _b = game.add_beetle(beetle);
    // Heading points away from the target: the agent must rotate first.
    game.field_state.beetles[0].direction = Vec2 { x: 1000, y: 0 };
    game.field_state.beetles[0].rotation_cos = 995;
    game.field_state.beetles[0].rotation_sin = 100;
    game.field_state.beetles[0]
        .set_command(Command::Move { position: Vec2 { x: 0, y: 200_000 } });
    for _ in 0..5000 {
        game.tick();
    }
    let p = game.field_state.beetles[0].position;
    let dy = (200_000 - p.y).abs();
    let dx = p.x.abs();
    assert!(dx * dx + dy * dy < 25_000_000, "agent should arrive after turning, at {:?}", p);
}

#[test]
fn harvest_cycle_collects_until_source_is_exhausted() {
    let mut game = Game::new();
    let mut small = BeetleGenome::new();
    small.set_gene_value(BeetleGeneIndex::BodyLength, 0); // carrying capacity 1
    let _b = spawn_at(&mut game, 0, 0, small);
    let _src = game.add_food_source(3000, 0);
    let _base = game.add_home_base(4000, 0);
    game.field_state.food_sources[0].amount = 5;
    game.field_state.beetles[0].direction = Vec2 { x: 1000, y: 0 };
    assert_eq!(game.field_state.beetles[0].carrying_capacity(), 1);
    game.field_state.beetles[0].set_command(Command::HarvestClosestFood);
    let mut last_collected: u64 = 0;
    for _ in 0..30 {
        game.tick();
        let c = game.field_state.beetles[0].food_collected;
        assert!(c == last_collected || c == last_collected + 1);
        last_collected = c;
    }
    // Four full delivery cycles complete; the fifth take empties and
    // removes the source, so the harvest command turns into a stand-down
    // and the last unit stays on the agent's back.
    assert_eq!(game.field_state.beetles[0].food_collected, 4);
    assert_eq!(game.field_state.beetles[0].food_carrying, 1);
    assert!(game.field_state.food_sources.is_empty(), "exhausted source must be removed");
    assert_eq!(game.field_state.home_bases[0].food_stored_amount, 4);
    assert_eq!(game.field_state.beetles[0].current_state, State::Idle);
    let settled = game.field_state.beetles[0].position;
    game.tick();
    assert_eq!(game.field_state.beetles[0].position, settled);
}
