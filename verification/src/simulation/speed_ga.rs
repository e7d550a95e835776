//! The race strategy: fitness is the derived speed phenotype, so no
//! simulation is needed; every generation the population is entirely
//! replaced by mutated offspring of tournament winners, each on its own
//! one-agent team at a fresh random position.

use vstd::prelude::*;
use crate::game::{Game, game_wf};
use crate::stats::{ChartSums, chart_sums};
use crate::simulation::{
    Simulate, GaConfig, FitnessMetric, config_wf, breed_replacement, genomes_from,
};
use crate::beetle::Beetle;

verus! {

/// The race trainer: owns its world and the statistics of every
/// generation it has run.
#[derive(Debug)]
pub struct SpeedGA {
    pub game: Game,
    pub config: GaConfig,
    pub history: Vec<ChartSums>,
}

impl SpeedGA {
    /// What the trainer keeps well-formed.
    pub open spec fn wf(&self) -> bool {
        &&& game_wf(self.game)
        &&& config_wf(self.config)
    }

    /// Wraps a world for racing, under the standard knobs.
    pub fn new(game: Game) -> (r: SpeedGA)
        requires
            game_wf(game),
        ensures
            r.wf(),
            r.game == game,
            r.config == crate::simulation::standard_config(),
    {
        SpeedGA { game, config: GaConfig::standard(), history: Vec::new() }
    }

    /// The current population.
    pub fn get_population(&self) -> (r: &Vec<Beetle>)
        ensures
            r@ == self.game.field_state.beetles@,
    {
        &self.game.field_state.beetles
    }

    /// Hands the world back.
    pub fn into_game(self) -> (g: Game)
        ensures
            g == self.game,
    {
        self.game
    }

    /// One generation of the race; see [`speed_generation`].
    pub fn run_generation(&mut self)
        requires
            old(self).wf(),
        ensures
            final(self).wf(),
            final(self).config == old(self).config,
            final(self).history@ == old(self).history@,
            final(self).game.field_state.beetles@.len() == old(
                self,
            ).game.field_state.beetles@.len(),
            ({
                let oldpop = old(self).game.field_state.beetles@;
                oldpop.len() > 0 && old(self).game.ids.next + oldpop.len() <= i64::MAX ==> {
                    let newpop = final(self).game.field_state.beetles@;
                    &&& newpop.len() == oldpop.len()
                    &&& forall|i: int|
                        0 <= i < newpop.len() ==> (#[trigger] newpop[i]).team_id == newpop[i].id
                    &&& forall|i: int|
                        0 <= i < newpop.len() ==> 0 <= (#[trigger] newpop[i]).position.x
                            < 500_000 && 0 <= newpop[i].position.y < 500_000
                    &&& (old(self).config.mutation_rate_permille == 0 ==> genomes_from(
                        newpop,
                        oldpop,
                    ))
                }
            }),
    {
        speed_generation(&mut self.game, self.config);
    }

    /// Runs the configured number of race generations, recording one
    /// chart entry per generation; the population size never changes.
    pub fn run_training(&mut self)
        requires
            old(self).wf(),
        ensures
            final(self).wf(),
            final(self).history@.len() == old(self).history@.len() + old(
                self,
            ).config.num_generations,
            forall|i: int|
                0 <= i < old(self).history@.len() ==> (#[trigger] final(self).history@[i])
                    == old(self).history@[i],
            final(self).game.field_state.beetles@.len() == old(
                self,
            ).game.field_state.beetles@.len(),
    {
        let gens: u64 = self.config.num_generations;
        let mut g: u64 = 0;
        while g < gens
            invariant
                self.wf(),
                self.config == old(self).config,
                gens == self.config.num_generations,
                0 <= g <= gens,
                self.history@.len() == old(self).history@.len() + g,
                forall|i: int|
                    0 <= i < old(self).history@.len() ==> (#[trigger] self.history@[i]) == old(
                        self,
                    ).history@[i],
                self.game.field_state.beetles@.len() == old(
                    self,
                ).game.field_state.beetles@.len(),
            decreases gens - g,
        {
            self.run_generation();
            let cs: ChartSums = chart_sums(&self.game.field_state.beetles);
            self.history.push(cs);
            g = g + 1;
        }
    }
}

/// One generation of the race: the population of size P is replaced by P
/// mutated offspring of tournament winners under the speed fitness, each
/// on its own one-agent team at a fresh random position. With mutation
/// rate zero, every offspring's genome is one of the old population's
/// genomes. A run that would exhaust the id space leaves the world
/// unchanged.
pub fn speed_generation(game: &mut Game, config: GaConfig)
    requires
        game_wf(*old(game)),
        config_wf(config),
    ensures
        game_wf(*final(game)),
        final(game).field_state.beetles@.len() == old(game).field_state.beetles@.len(),
        ({
            let oldpop = old(game).field_state.beetles@;
            if oldpop.len() > 0 && old(game).ids.next + oldpop.len() <= i64::MAX {
                let newpop = final(game).field_state.beetles@;
                &&& newpop.len() == oldpop.len()
                &&& final(game).ids.next == old(game).ids.next + oldpop.len()
                &&& forall|i: int|
                    0 <= i < newpop.len() ==> (#[trigger] newpop[i]).id == old(game).ids.next + i
                &&& forall|i: int|
                    0 <= i < newpop.len() ==> (#[trigger] newpop[i]).team_id == newpop[i].id
                &&& forall|i: int|
                    0 <= i < newpop.len() ==> 0 <= (#[trigger] newpop[i]).position.x < 500_000
                        && 0 <= newpop[i].position.y < 500_000
                &&& (config.mutation_rate_permille == 0 ==> genomes_from(newpop, oldpop))
            } else {
                *final(game) == *old(game)
            }
        }),
{
    let pop_size: usize = game.field_state.beetles.len();
    if pop_size == 0 {
        return ;
    }
    let headroom: u64 = (i64::MAX - game.ids.next) as u64;
    if headroom < pop_size as u64 {
        return ;
    }
    let newpop: Vec<Beetle> = breed_replacement(game, FitnessMetric::Speed, config, true, true);
    game.set_population(newpop);
}

/// Runs the configured number of race generations in place over a world,
/// as issued by an operator command.
pub fn run_speed_generations(game: &mut Game, config: GaConfig)
    requires
        game_wf(*old(game)),
        config_wf(config),
    ensures
        game_wf(*final(game)),
{
    let gens: u64 = config.num_generations;
    let mut g: u64 = 0;
    while g < gens
        invariant
            game_wf(*game),
            config_wf(config),
            0 <= g <= gens,
        decreases gens - g,
    {
        speed_generation(game, config);
        g = g + 1;
    }
}

impl Simulate for SpeedGA {
    open spec fn sim_wf(&self) -> bool {
        self.wf()
    }

    fn run(&mut self) {
        self.run_training();
    }
}

} // verus!
