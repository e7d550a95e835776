//! The evolutionary trainer: fitness metrics, asexual mutation, binary
//! tournament selection, and the strategy trait every orchestrated
//! simulation implements.

use vstd::prelude::*;
use crate::Id;
use crate::rng::rand_in_range;
use crate::beetle::{
    Beetle, spec_max_health, spec_speed_fp, lemma_stat_bounds, lemma_speed_bounds, max_health_of,
};
use crate::beetle_genome::{GENE_SCALE, NUM_GENES};
use crate::game::{Game, game_wf};
use crate::entities::Entity;

pub mod speed_ga;
pub mod food_ga;
pub mod battle_ga;
pub mod fight_simulation;

verus! {

/// How many generations a trainer runs by default.
pub const NUM_GENERATIONS: u64 = 128;

/// Default probability, in permille, that an offspring mutates.
pub const MUTATION_RATE: u32 = 100;

/// Default probability, in permille, that a tournament picks the fitter
/// contestant.
pub const SELECTION_BIAS: u32 = 800;

/// A bounded simulation that can be run to completion.
pub trait Simulate {
    /// The state the simulation keeps well-formed while it runs.
    spec fn sim_wf(&self) -> bool;

    /// Runs the simulation to completion.
    fn run(&mut self)
        requires
            old(self).sim_wf(),
        ensures
            final(self).sim_wf(),
    ;
}

/// Tuning knobs of one evolutionary run.
#[derive(Clone, Copy, Debug, PartialEq, Eq, Structural)]
pub struct GaConfig {
    pub num_generations: u64,
    pub mutation_rate_permille: u32,
    pub selection_bias_permille: u32,
}

/// A configuration is usable when its probabilities are permille ratios.
pub open spec fn config_wf(c: GaConfig) -> bool {
    &&& c.mutation_rate_permille <= 1000
    &&& c.selection_bias_permille <= 1000
}

/// The default configuration as a mathematical value.
pub open spec fn standard_config() -> GaConfig {
    GaConfig {
        num_generations: NUM_GENERATIONS,
        mutation_rate_permille: MUTATION_RATE,
        selection_bias_permille: SELECTION_BIAS,
    }
}

impl GaConfig {
    /// The default knobs every strategy starts from.
    pub fn standard() -> (c: GaConfig)
        ensures
            config_wf(c),
            c == standard_config(),
    {
        GaConfig {
            num_generations: NUM_GENERATIONS,
            mutation_rate_permille: MUTATION_RATE,
            selection_bias_permille: SELECTION_BIAS,
        }
    }
}

/// The genomes `a` and `b` agree everywhere except possibly at `gi`.
pub open spec fn genes_equal_except(a: Seq<u32>, b: Seq<u32>, gi: int) -> bool {
    forall|j: int| 0 <= j < a.len() && j != gi ==> (#[trigger] a[j]) == b[j]
}

/// The objective a strategy optimizes.
#[derive(Clone, Copy, Debug, PartialEq, Eq, Structural)]
pub enum FitnessMetric {
    /// Derived speed; needs no simulation.
    Speed,
    /// Lifetime damage inflicted; produced by the battle simulation.
    Damage,
    /// Lifetime food delivered; produced by the foraging simulation.
    Food,
}

/// The fitness of an agent under a metric.
pub open spec fn spec_fitness(m: FitnessMetric, b: Beetle) -> int {
    match m {
        FitnessMetric::Speed => spec_speed_fp(b.genome, b.max_speed_units_per_tick as int),
        FitnessMetric::Damage => b.damage_inflicted as int,
        FitnessMetric::Food => b.food_collected as int,
    }
}

/// Computes an agent's fitness under a metric.
pub fn fitness(m: FitnessMetric, b: &Beetle) -> (r: u64)
    requires
        b.wf(),
    ensures
        r == spec_fitness(m, *b),
{
    match m {
        FitnessMetric::Speed => {
            proof {
                lemma_speed_bounds(b.genome, b.max_speed_units_per_tick as int);
            }
            b.speed() as u64
        },
        FitnessMetric::Damage => b.damage_inflicted,
        FitnessMetric::Food => b.food_collected,
    }
}

/// Asexual reproduction: the offspring is a copy of the parent whose
/// genome differs in at most one gene; with mutation rate zero the
/// genomes are identical. The offspring's health is clamped into its own
/// derived maximum, since a mutated genome can lower that ceiling.
pub fn mutate(parent: &Beetle, mutation_rate_permille: u32) -> (off: Beetle)
    requires
        parent.wf(),
        mutation_rate_permille <= 1000,
    ensures
        off.wf(),
        off.genome@.len() == parent.genome@.len(),
        exists|gi: int|
            0 <= gi < parent.genome@.len() && #[trigger] genes_equal_except(
                off.genome@,
                parent.genome@,
                gi,
            ),
        mutation_rate_permille == 0 ==> off.genome@ == parent.genome@,
        off.id == parent.id,
        off.team_id == parent.team_id,
        off.position == parent.position,
        off.direction == parent.direction,
        off.max_speed_units_per_tick == parent.max_speed_units_per_tick,
        off.rotation_cos == parent.rotation_cos,
        off.rotation_sin == parent.rotation_sin,
        off.current_state == parent.current_state,
        off.current_command == parent.current_command,
        off.selected == parent.selected,
        off.color == parent.color,
        off.food_collected == parent.food_collected,
        off.food_carrying == parent.food_carrying,
        off.damage_inflicted == parent.damage_inflicted,
        off.health == if parent.health <= spec_max_health(off.genome) {
            parent.health as int
        } else {
            spec_max_health(off.genome)
        },
{
    let mut genome = parent.genome.duplicate();
    let coin: u64 = rand_in_range(0, 1000);
    let ghost mut widx: int = 0;
    if coin < mutation_rate_permille as u64 {
        let gi = genome.get_random_gene_index();
        let v: u64 = rand_in_range(0, GENE_SCALE as u64 + 1);
        genome.set_gene_value(gi, v as u32);
        proof {
            widx = gi.as_index();
        }
    }
    proof {
        assert(0 <= widx < parent.genome@.len());
        assert(genes_equal_except(genome@, parent.genome@, widx));
    }
    let cap: u32 = max_health_of(&genome);
    let health: u32 = if parent.health <= cap {
        parent.health
    } else {
        cap
    };
    Beetle {
        id: parent.id,
        position: parent.position,
        direction: parent.direction,
        max_speed_units_per_tick: parent.max_speed_units_per_tick,
        rotation_cos: parent.rotation_cos,
        rotation_sin: parent.rotation_sin,
        current_state: parent.current_state,
        current_command: parent.current_command,
        health,
        selected: parent.selected,
        genome,
        color: parent.color,
        team_id: parent.team_id,
        food_collected: parent.food_collected,
        food_carrying: parent.food_carrying,
        damage_inflicted: parent.damage_inflicted,
    }
}

/// Which of two contestants a tournament hands back: the fitter one when
/// `select_fitter`, and deliberately the less fit one otherwise, ties
/// going to the second contestant either way.
pub open spec fn tournament_winner_idx(
    s: Seq<Beetle>,
    m: FitnessMetric,
    i1: int,
    i2: int,
    select_fitter: bool,
) -> int {
    if select_fitter {
        if spec_fitness(m, s[i1]) > spec_fitness(m, s[i2]) {
            i1
        } else {
            i2
        }
    } else {
        if spec_fitness(m, s[i1]) > spec_fitness(m, s[i2]) {
            i2
        } else {
            i1
        }
    }
}

/// With full selection bias the tournament returns the strictly fitter of
/// the two sampled contestants, whenever their fitnesses differ.
pub proof fn lemma_tournament_full_bias(s: Seq<Beetle>, m: FitnessMetric, i1: int, i2: int)
    requires
        0 <= i1 < s.len(),
        0 <= i2 < s.len(),
        spec_fitness(m, s[i1]) != spec_fitness(m, s[i2]),
    ensures
        ({
            let win = tournament_winner_idx(s, m, i1, i2, true);
            let lose = if win == i1 {
                i2
            } else {
                i1
            };
            spec_fitness(m, s[win]) > spec_fitness(m, s[lose])
        }),
{
}

/// Decides one tournament between the agents at `i1` and `i2` and
/// returns the chosen agent's id, exactly as [`tournament_winner_idx`]
/// says.
pub fn select_from_pair(
    game: &Game,
    m: FitnessMetric,
    i1: usize,
    i2: usize,
    select_fitter: bool,
) -> (id: Id)
    requires
        game_wf(*game),
        i1 < game.field_state.beetles@.len(),
        i2 < game.field_state.beetles@.len(),
    ensures
        id == game.field_state.beetles@[tournament_winner_idx(
            game.field_state.beetles@,
            m,
            i1 as int,
            i2 as int,
            select_fitter,
        )].id,
{
    proof {
        assert(game.field_state.beetles@[i1 as int].wf());
        assert(game.field_state.beetles@[i2 as int].wf());
    }
    let f1: u64 = fitness(m, &game.field_state.beetles[i1]);
    let f2: u64 = fitness(m, &game.field_state.beetles[i2]);
    if select_fitter {
        if f1 > f2 {
            game.field_state.beetles[i1].id
        } else {
            game.field_state.beetles[i2].id
        }
    } else {
        if f1 > f2 {
            game.field_state.beetles[i2].id
        } else {
            game.field_state.beetles[i1].id
        }
    }
}

/// Binary tournament selection: draws two contestants uniformly at
/// random, then with probability `selection_bias_permille` picks the
/// fitter of the two (and otherwise, to preserve diversity, the less fit
/// one). With full bias the fitter contestant is always picked.
pub fn tournament_select_individual(
    game: &Game,
    m: FitnessMetric,
    selection_bias_permille: u32,
) -> (id: Id)
    requires
        game_wf(*game),
        game.field_state.beetles@.len() > 0,
        selection_bias_permille <= 1000,
    ensures
        exists|i1: int, i2: int, sf: bool|
            0 <= i1 < game.field_state.beetles@.len() && 0 <= i2
                < game.field_state.beetles@.len() && id == (
            #[trigger] game.field_state.beetles@[tournament_winner_idx(
                game.field_state.beetles@,
                m,
                i1,
                i2,
                sf,
            )]).id && (selection_bias_permille == 1000 ==> sf),
        crate::entities::idx_of(game.field_state.beetles@, id) != -1,
{
    let ghost s = game.field_state.beetles@;
    let n: u64 = game.field_state.beetles.len() as u64;
    let i1: usize = rand_in_range(0, n) as usize;
    let i2: usize = rand_in_range(0, n) as usize;
    let coin: u64 = rand_in_range(0, 1000);
    let select_fitter: bool = coin < selection_bias_permille as u64;
    let id: Id = select_from_pair(game, m, i1, i2, select_fitter);
    proof {
        assert(0 <= (i1 as int) < s.len());
        assert(0 <= (i2 as int) < s.len());
        let wi = tournament_winner_idx(s, m, i1 as int, i2 as int, select_fitter);
        assert(s[wi].id_spec() == id);
        crate::entities::lemma_idx_of_props(s, id);
        if crate::entities::idx_of(s, id) == -1 {
            assert(s[wi].id_spec() != id);
        }
    }
    id
}

/// Every genome in `newpop` is carried (with repetition) by some agent of
/// `oldpop`.
pub open spec fn genomes_from(newpop: Seq<Beetle>, oldpop: Seq<Beetle>) -> bool {
    forall|i: int|
        0 <= i < newpop.len() ==> exists|j: int|
            0 <= j < oldpop.len() && (#[trigger] newpop[i]).genome@ == (
            #[trigger] oldpop[j]).genome@
}

/// Breeds a full replacement population: one offspring per slot, each the
/// mutation of a tournament-selected parent, under a fresh id; optionally
/// on its own one-agent team and at a fresh random starting position.
/// The world's entities are untouched; only ids are drawn.
pub fn breed_replacement(
    game: &mut Game,
    m: FitnessMetric,
    config: GaConfig,
    own_team: bool,
    randomize_positions: bool,
) -> (newpop: Vec<Beetle>)
    requires
        game_wf(*old(game)),
        config_wf(config),
        old(game).field_state.beetles@.len() > 0,
        old(game).ids.next + old(game).field_state.beetles@.len() <= i64::MAX,
    ensures
        game_wf(*final(game)),
        final(game).field_state == old(game).field_state,
        final(game).ids.next == old(game).ids.next + old(game).field_state.beetles@.len(),
        newpop@.len() == old(game).field_state.beetles@.len(),
        crate::game::population_ok(*final(game), newpop@),
        own_team ==> forall|i: int|
            0 <= i < newpop@.len() ==> (#[trigger] newpop@[i]).team_id == newpop@[i].id,
        forall|i: int|
            0 <= i < newpop@.len() ==> (#[trigger] newpop@[i]).id == old(game).ids.next + i,
        randomize_positions ==> forall|i: int|
            0 <= i < newpop@.len() ==> 0 <= (#[trigger] newpop@[i]).position.x < 500_000 && 0
                <= newpop@[i].position.y < 500_000,
        config.mutation_rate_permille == 0 ==> genomes_from(
            newpop@,
            old(game).field_state.beetles@,
        ),
{
    let ghost s0 = game.field_state.beetles@;
    let ghost next0 = game.ids.next;
    let pop_size: usize = game.field_state.beetles.len();
    let mut newpop: Vec<Beetle> = Vec::new();
    let mut k: usize = 0;
    while k < pop_size
        invariant
            game_wf(*game),
            config_wf(config),
            game.field_state == old(game).field_state,
            s0 == game.field_state.beetles@,
            next0 == old(game).ids.next,
            pop_size == s0.len(),
            pop_size > 0,
            next0 + pop_size <= i64::MAX,
            game.ids.next == next0 + k,
            0 <= k <= pop_size,
            newpop@.len() == k,
            forall|i: int| 0 <= i < k ==> (#[trigger] newpop@[i]).wf(),
            forall|i: int| 0 <= i < k ==> (#[trigger] newpop@[i]).id == next0 + i,
            own_team ==> forall|i: int|
                0 <= i < k ==> (#[trigger] newpop@[i]).team_id == newpop@[i].id,
            randomize_positions ==> forall|i: int|
                0 <= i < k ==> 0 <= (#[trigger] newpop@[i]).position.x < 500_000 && 0
                    <= newpop@[i].position.y < 500_000,
            config.mutation_rate_permille == 0 ==> genomes_from(newpop@, s0),
        decreases pop_size - k,
    {
        let parent_id: Id = tournament_select_individual(game, m, config.selection_bias_permille);
        let pi: usize = match crate::entities::find_index_by_id(
            &game.field_state.beetles,
            parent_id,
        ) {
            Option::Some(p) => p,
            Option::None => 0,
        };
        proof {
            assert(game.field_state.beetles@[pi as int].wf());
        }
        let mut off: Beetle = mutate(&game.field_state.beetles[pi], config.mutation_rate_permille);
        let new_id: Id = game.get_next_id();
        off.id = new_id;
        if own_team {
            off.team_id = new_id;
        }
        if randomize_positions {
            // fresh start in the [0, 500)-unit square, drawn in milli-units
            let x: i64 = rand_in_range(0, 500_000) as i64;
            let y: i64 = rand_in_range(0, 500_000) as i64;
            off.position = crate::geom::Vec2 { x, y };
        }
        // the trainers' offspring livery
        off.color = crate::utils::Color { r: 144, g: 153, b: 212, a: 255 };
        proof {
            if config.mutation_rate_permille == 0 {
                assert(off.genome@ == s0[pi as int].genome@);
            }
        }
        newpop.push(off);
        k = k + 1;
    }
    proof {
        assert forall|i: int, j: int| 0 <= i < j < newpop@.len() implies (
        #[trigger] newpop@[i].id) != (#[trigger] newpop@[j].id) by {
            assert(newpop@[i].id == next0 + i);
            assert(newpop@[j].id == next0 + j);
        }
    }
    newpop
}

} // verus!
