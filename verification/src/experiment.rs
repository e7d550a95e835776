//! A head-to-head experiment: one population evolved for battle and one
//! evolved for foraging are placed on opposing teams and run through a
//! single fight and a single foraging contest; the results say which
//! team won each, with the raw counts an external reporter can turn into
//! ratios.

use vstd::prelude::*;
use crate::Id;
use crate::utils::{
    vec_index_mut, FP_ONE, MAX_SPEED_UNITS_PER_TICK, ROTATION_STEP_COS, ROTATION_STEP_SIN,
    sat_add_u64,
};
use crate::geom::Vec2;
use crate::game::{
    Game, IdAllocator, Command, game_wf, population_standalone_ok, beetles_ok, STARTING_ID,
};
use crate::beetle::Beetle;
use crate::simulation::{Simulate, GaConfig, config_wf};
use crate::simulation::battle_ga::BattleGA;
use crate::simulation::food_ga::FoodGA;
use crate::simulation::fight_simulation::{run_fight, SingleTeamLeft};

verus! {

/// Horizontal anchor of the battle-evolved team's formation
/// (milli-units).
pub const TEAM0_START_X: i64 = 50_000;

/// Vertical anchor of both formations (milli-units).
pub const TEAM_START_Y: i64 = 50_000;

/// Horizontal anchor of the forage-evolved team's formation
/// (milli-units).
pub const TEAM1_START_X: i64 = 600_000;

/// Spacing of the formation grid (milli-units).
pub const FORMATION_SPACING: i64 = 50_000;

/// Width of the formation grid in columns.
pub const FORMATION_COLUMN_WIDTH: usize = 8;

/// Agents per team: half the default population.
pub const TEAM_SIZE: usize = 32;

/// Tick budget of the head-to-head fight.
pub const EXPERIMENT_FIGHT_TICKS: u64 = 100_000;

/// Ticks of the head-to-head foraging contest.
pub const EXPERIMENT_FORAGE_TICKS: u64 = 1000;

/// Outcome of the head-to-head fight.
#[derive(Clone, Copy, Debug, PartialEq, Eq, Structural)]
pub struct BattleResult {
    /// Team of the survivors, or -1 when no one survived.
    pub winning_team_id: Id,
    /// How many agents outlived the fight.
    pub survivors: usize,
    /// Size each team started with.
    pub team_size: usize,
}

/// Outcome of the head-to-head foraging contest.
#[derive(Clone, Copy, Debug, PartialEq, Eq, Structural)]
pub struct FoodResult {
    /// The team that delivered more; ties go to team 1, since the
    /// comparison asks whether team 0 delivered strictly more.
    pub winning_team_id: Id,
    /// What the winning team delivered.
    pub winner_food: u64,
    /// What the losing team delivered.
    pub loser_food: u64,
}

/// Knobs of one experiment iteration, so that short runs can exercise
/// the same flow the full experiment uses.
#[derive(Clone, Copy, Debug, PartialEq, Eq, Structural)]
pub struct ExperimentConfig {
    pub ga: GaConfig,
    pub team_size: usize,
    pub evolve_fight_ticks: u64,
    pub evolve_forage_ticks: u64,
    pub final_fight_ticks: u64,
    pub final_forage_ticks: u64,
}

/// A usable experiment configuration.
pub open spec fn experiment_config_wf(c: ExperimentConfig) -> bool {
    &&& config_wf(c.ga)
    &&& c.team_size <= 1000
}

/// The experiment exactly as the full run performs it.
pub fn standard_experiment() -> (c: ExperimentConfig)
    ensures
        experiment_config_wf(c),
        c.team_size == TEAM_SIZE,
{
    ExperimentConfig {
        ga: GaConfig::standard(),
        team_size: TEAM_SIZE,
        evolve_fight_ticks: 100_000,
        evolve_forage_ticks: 2000,
        final_fight_ticks: EXPERIMENT_FIGHT_TICKS,
        final_forage_ticks: EXPERIMENT_FORAGE_TICKS,
    }
}

/// Both outcomes of one iteration.
#[derive(Clone, Copy, Debug, PartialEq, Eq, Structural)]
pub struct SimulationResult {
    pub battle_result: BattleResult,
    pub food_result: FoodResult,
}

/// A population whose every id was drawn from the allocator.
pub open spec fn pop_from_allocator(pop: Seq<Beetle>, next: Id) -> bool {
    &&& population_standalone_ok(pop)
    &&& forall|i: int| 0 <= i < pop.len() ==> (#[trigger] pop[i].id) < next
}

/// Evolves a team under one trainer strategy, then files it into the
/// combined population: each evolved agent gets a fresh id from the
/// shared allocator, the given team, a formation slot, and a reset
/// battle/forage state.
fn evolve_team(
    population: &mut Vec<Beetle>,
    ids: &mut IdAllocator,
    config: ExperimentConfig,
    team_id: Id,
    start_x: i64,
    use_battle: bool,
) -> (ok: bool)
    requires
        pop_from_allocator(old(population)@, old(ids).next),
        STARTING_ID <= old(ids).next,
        experiment_config_wf(config),
        0 <= start_x <= 600_000,
    ensures
        pop_from_allocator(final(population)@, final(ids).next),
        STARTING_ID <= final(ids).next,
        old(ids).next <= final(ids).next,
        ok <==> i64::MAX - old(ids).next >= 2 * config.team_size + 2,
        !ok ==> final(population)@ == old(population)@ && *final(ids) == *old(ids),
        ok ==> ({
            let before = old(population)@;
            let grown = final(population)@;
            &&& before.len() <= grown.len() <= before.len() + config.team_size
            &&& forall|i: int| 0 <= i < before.len() ==> (#[trigger] grown[i]) == before[i]
            &&& forall|i: int|
                before.len() <= i < grown.len() ==> (#[trigger] grown[i]).team_id == team_id
                    && grown[i].damage_inflicted == 0 && grown[i].food_collected == 0
                    && grown[i].food_carrying == 0 && old(ids).next <= grown[i].id
                    && grown[i].id < final(ids).next
        }),
{
    let team_size: usize = config.team_size;
    if i64::MAX - ids.next < 2 * team_size as i64 + 2 {
        return false;
    }
    let ghost pop0 = population@;
    let ghost next_start = ids.next;
    let seed: Vec<Beetle> = Game::generate_random_population(
        team_size,
        MAX_SPEED_UNITS_PER_TICK,
        ROTATION_STEP_COS,
        ROTATION_STEP_SIN,
        ids,
    );
    proof {
        assert forall|i: int, j: int| 0 <= i < j < seed@.len() implies (#[trigger] seed@[i].id)
            != (#[trigger] seed@[j].id) by {}
    }
    let evolved: Vec<Beetle> = if use_battle {
        let mut ga = BattleGA::new(seed);
        ga.config = config.ga;
        ga.fight_tick_budget = config.evolve_fight_ticks;
        ga.run_training();
        ga.game.field_state.beetles
    } else {
        let mut ga = FoodGA::new(seed);
        ga.config = config.ga;
        ga.ticks_per_generation = config.evolve_forage_ticks;
        ga.run_training();
        ga.game.field_state.beetles
    };
    let m: usize = evolved.len();
    let mut k: usize = 0;
    let mut row: i64 = 0;
    while k < m
        invariant
            pop_from_allocator(population@, ids.next),
            STARTING_ID <= ids.next,
            beetles_ok(evolved@),
            m == evolved@.len(),
            m <= config.team_size,
            config.team_size <= 1000,
            0 <= k <= m,
            row <= k,
            0 <= row,
            0 <= start_x <= 600_000,
            pop0 == old(population)@,
            next_start == old(ids).next,
            i64::MAX - next_start >= 2 * config.team_size + 2,
            ids.next == next_start + config.team_size + k,
            population@.len() == pop0.len() + k,
            forall|i: int| 0 <= i < pop0.len() ==> (#[trigger] population@[i]) == pop0[i],
            forall|i: int|
                pop0.len() <= i < population@.len() ==> (#[trigger] population@[i]).team_id
                    == team_id && population@[i].damage_inflicted == 0
                    && population@[i].food_collected == 0 && population@[i].food_carrying == 0
                    && next_start <= population@[i].id < ids.next,
        decreases m - k,
    {
        proof {
            assert(evolved@[k as int].wf());
        }
        let mut b: Beetle = evolved[k].duplicate();
        let id: Id = ids.fresh();
        b.id = id;
        b.team_id = team_id;
        let col: i64 = (k % FORMATION_COLUMN_WIDTH) as i64;
        if k % FORMATION_COLUMN_WIDTH == 0 && k > 0 {
            row = row + 1;
        }
        b.position = crate::geom::clamp_point(
            Vec2 { x: start_x + col * FORMATION_SPACING, y: TEAM_START_Y + row
                * FORMATION_SPACING },
        );
        b.direction = if use_battle {
            Vec2 { x: FP_ONE, y: 0 }
        } else {
            Vec2 { x: -FP_ONE, y: 0 }
        };
        if use_battle {
            // fighters enter the contest at full derived health
            proof {
                assert(b.genome.wf());
            }
            b.health = crate::beetle::max_health_of(&b.genome);
        }
        b.damage_inflicted = 0;
        b.food_collected = 0;
        b.food_carrying = 0;
        let ghost before = population@;
        population.push(b);
        proof {
            assert forall|i: int|
                pop0.len() <= i < population@.len() implies (#[trigger] population@[i]).team_id
                    == team_id && population@[i].damage_inflicted == 0
                    && population@[i].food_collected == 0 && population@[i].food_carrying == 0
                    && next_start <= population@[i].id < ids.next by {
                if i < before.len() {
                    assert(population@[i] == before[i]);
                } else {
                    assert(population@[i] == b);
                }
            }
            assert forall|i: int, j: int| 0 <= i < j < population@.len() implies (
            #[trigger] population@[i].id) != (#[trigger] population@[j].id) by {
                if j < before.len() {
                    assert(population@[i] == before[i]);
                    assert(population@[j] == before[j]);
                } else {
                    assert(population@[j].id == id);
                    if i < before.len() {
                        assert(population@[i] == before[i]);
                        assert(before[i].id < id);
                    }
                }
            }
            assert forall|i: int| 0 <= i < population@.len() implies (
            #[trigger] population@[i]).wf() by {
                if i < before.len() {
                    assert(population@[i] == before[i]);
                    assert(before[i].wf());
                } else {
                    assert(population@[i] == b);
                }
            }
            assert forall|i: int| 0 <= i < population@.len() implies STARTING_ID <= (
            #[trigger] population@[i].id) < ids.next by {
                if i < before.len() {
                    assert(population@[i] == before[i]);
                    assert(STARTING_ID <= before[i].id < id);
                } else {
                    assert(population@[i].id == id);
                }
            }
        }
        k = k + 1;
    }
    true
}


/// Accumulator of the team-delivery scan: the saturating sum of
/// `food_collected` over the agents of `team`, from position `j` on,
/// starting from `acc`.
pub open spec fn team_food_from(s: Seq<Beetle>, team: Id, j: int, acc: int) -> int
    decreases s.len() - j,
{
    if j < 0 || j >= s.len() {
        acc
    } else {
        team_food_from(
            s,
            team,
            j + 1,
            if s[j].team_id == team {
                crate::utils::sat_add_spec(acc, s[j].food_collected as int)
            } else {
                acc
            },
        )
    }
}

/// What a whole team delivered, summed with saturation.
pub open spec fn spec_team_food(s: Seq<Beetle>, team: Id) -> int {
    team_food_from(s, team, 0, 0)
}

/// The team-delivery scan stays within the counter's range.
proof fn lemma_team_food_bounds(s: Seq<Beetle>, team: Id, j: int, acc: int)
    requires
        0 <= acc <= u64::MAX,
    ensures
        0 <= team_food_from(s, team, j, acc) <= u64::MAX,
    decreases s.len() - j,
{
    if 0 <= j < s.len() {
        if s[j].team_id == team {
            lemma_team_food_bounds(
                s,
                team,
                j + 1,
                crate::utils::sat_add_spec(acc, s[j].food_collected as int),
            );
        } else {
            lemma_team_food_bounds(s, team, j + 1, acc);
        }
    }
}

/// Scores a finished foraging contest: the winner delivered the larger
/// of the two team sums, ties going to team 1 as the comparison orders
/// them.
pub fn food_contest_result(beetles: &Vec<Beetle>) -> (r: FoodResult)
    ensures
        ({
            let t0 = spec_team_food(beetles@, 0);
            let t1 = spec_team_food(beetles@, 1);
            if t0 > t1 {
                r == (FoodResult { winning_team_id: 0, winner_food: t0 as u64, loser_food: t1 as u64 })
            } else {
                r == (FoodResult { winning_team_id: 1, winner_food: t1 as u64, loser_food: t0 as u64 })
            }
        }),
        r.winner_food >= r.loser_food,
        r.winning_team_id == 0 ==> r.winner_food > r.loser_food,
        r.winning_team_id == 0 || r.winning_team_id == 1,
{
    let ghost s = beetles@;
    proof {
        lemma_team_food_bounds(s, 0, 0, 0);
        lemma_team_food_bounds(s, 1, 0, 0);
    }
    let mut team0_sum: u64 = 0;
    let mut team1_sum: u64 = 0;
    let m: usize = beetles.len();
    let mut j: usize = 0;
    while j < m
        invariant
            s == beetles@,
            m == s.len(),
            0 <= j <= m,
            team_food_from(s, 0, j as int, team0_sum as int) == spec_team_food(s, 0),
            team_food_from(s, 1, j as int, team1_sum as int) == spec_team_food(s, 1),
        decreases m - j,
    {
        let b = &beetles[j];
        if b.team_id == 0 {
            team0_sum = sat_add_u64(team0_sum, b.food_collected);
        } else if b.team_id == 1 {
            team1_sum = sat_add_u64(team1_sum, b.food_collected);
        }
        j = j + 1;
    }
    if team0_sum > team1_sum {
        FoodResult { winning_team_id: 0, winner_food: team0_sum, loser_food: team1_sum }
    } else {
        FoodResult { winning_team_id: 1, winner_food: team1_sum, loser_food: team0_sum }
    }
}

/// Scores a finished fight: the survivor count, and the survivors' team
/// (`-1` exactly when no one survived, since the world holds one team at
/// most once the stop condition fired).
pub fn battle_contest_result(game: &Game, team_size: usize) -> (r: BattleResult)
    ensures
        r.team_size == team_size,
        r.survivors == game.field_state.beetles@.len(),
        r.winning_team_id as int == (if game.field_state.beetles@.len() > 0 {
            game.field_state.beetles@[0].team_id as int
        } else {
            -1
        }),
{
    let survivors: usize = game.field_state.beetles.len();
    let winning_team_id: Id = if survivors > 0 {
        game.field_state.beetles[0].team_id
    } else {
        -1
    };
    BattleResult { winning_team_id, survivors, team_size }
}

/// The head-to-head fight: the combined population battles until a
/// single team remains or the budget runs out; the survivors' team wins.
pub fn run_battle_simulation(population: Vec<Beetle>, team_size: usize, max_ticks: u64) -> (r: BattleResult)
    requires
        population_standalone_ok(population@),
    ensures
        r.team_size == team_size,
        r.survivors <= population@.len(),
        r.survivors == 0 ==> r.winning_team_id == -1,
{
    let mut game: Game = Game::from_population(population);
    let done = SingleTeamLeft {};
    let _ticks: u64 = run_fight(&mut game, &done, max_ticks);
    battle_contest_result(&game, team_size)
}

/// The head-to-head foraging contest: each side gets a base and an
/// (effectively inexhaustible) source near its anchor, everyone
/// harvests for the fixed tick budget, and the team that delivered more
/// wins.
pub fn run_food_simulation(population: Vec<Beetle>, ticks: u64) -> (r: FoodResult)
    requires
        population_standalone_ok(population@),
    ensures
        r.winning_team_id == 0 || r.winning_team_id == 1,
        r.winner_food >= r.loser_food,
        r.winning_team_id == 0 ==> r.winner_food > r.loser_food,
{
    let mut game: Game = Game::from_population(population);
    if i64::MAX - game.ids.next >= 4 {
        let _b0: Id = game.add_home_base(TEAM0_START_X + 100_000, 500_000);
        let _b1: Id = game.add_home_base(TEAM1_START_X + 100_000, 500_000);
        let s0: Id = game.add_food_source(TEAM0_START_X + 100_000, 350_000);
        let s1: Id = game.add_food_source(TEAM1_START_X + 100_000, 350_000);
        let _ = game.top_up_food_source(s0, 1_000_000);
        let _ = game.top_up_food_source(s1, 1_000_000);
    }
    let n: usize = game.field_state.beetles.len();
    let mut k: usize = 0;
    while k < n
        invariant
            game_wf(game),
            n == game.field_state.beetles@.len(),
            0 <= k <= n,
        decreases n - k,
    {
        let ghost before = game.field_state.beetles@;
        {
            let b = vec_index_mut(&mut game.field_state.beetles, k);
            b.direction = Vec2 { x: 0, y: FP_ONE };
            b.set_command(Command::HarvestClosestFood);
        }
        proof {
            assert(forall|i: int|
                0 <= i < game.field_state.beetles@.len() ==> (
                #[trigger] game.field_state.beetles@[i]).id == before[i].id);
            assert(forall|i: int|
                0 <= i < game.field_state.beetles@.len() ==> (
                #[trigger] game.field_state.beetles@[i]).wf());
        }
        k = k + 1;
    }
    let mut t: u64 = 0;
    while t < ticks
        invariant
            game_wf(game),
            0 <= t <= ticks,
        decreases ticks - t,
    {
        game.tick();
        t = t + 1;
    }
    food_contest_result(&game.field_state.beetles)
}

/// One experiment iteration: evolve a battle team and a foraging team
/// from scratch, then run the combined population through one fight and
/// one foraging contest.
pub fn run_iteration(config: ExperimentConfig) -> (r: SimulationResult)
    requires
        experiment_config_wf(config),
    ensures
        r.battle_result.team_size == config.team_size,
        r.battle_result.survivors <= 2 * config.team_size,
        r.food_result.winning_team_id == 0 || r.food_result.winning_team_id == 1,
        r.food_result.winner_food >= r.food_result.loser_food,
{
    let mut ids: IdAllocator = IdAllocator::new();
    let mut population: Vec<Beetle> = Vec::new();
    proof {
        assert(population@.len() == 0);
    }
    let _ok0: bool = evolve_team(&mut population, &mut ids, config, 0, TEAM0_START_X, true);
    let _ok1: bool = evolve_team(&mut population, &mut ids, config, 1, TEAM1_START_X, false);
    let battle_population: Vec<Beetle> = crate::game::duplicate_population(&population);
    let battle_result: BattleResult = run_battle_simulation(
        battle_population,
        config.team_size,
        config.final_fight_ticks,
    );
    let food_result: FoodResult = run_food_simulation(population, config.final_forage_ticks);
    SimulationResult { battle_result, food_result }
}

} // verus!
