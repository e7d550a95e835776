//! The battle strategy: each generation every agent's health is restored
//! to its derived maximum, everyone fights everyone (one agent per team)
//! until the population has shrunk past the halfway mark plus a slack, and
//! the fallen are replaced by mutated offspring of tournament winners
//! under the damage-inflicted fitness. Survivors keep their place; only
//! the dead are replaced.

use vstd::prelude::*;
use crate::Id;
use crate::utils::vec_index_mut;
use crate::game::{Game, game_wf, population_standalone_ok};
use crate::stats::{ChartSums, chart_sums};
use crate::simulation::{Simulate, GaConfig, FitnessMetric, config_wf, mutate, tournament_select_individual};
use crate::simulation::fight_simulation::{run_fight, PopulationBelow};
use crate::beetle::{Beetle, max_health_of};
use crate::entities::{find_index_by_id, Entity};
use crate::rng::rand_in_range;
use crate::geom::Vec2;

verus! {

/// Slack added to the halfway survivor mark before a generation's fight
/// ends: packs sometimes gang up, and fewer than half would fall.
pub const BATTLE_SURVIVOR_SLACK: usize = 10;

/// Tick budget of one generation's fight.
pub const BATTLE_TICK_BUDGET: u64 = 100_000;

/// The battle trainer: owns its world and the statistics of every
/// generation it has run.
#[derive(Debug)]
pub struct BattleGA {
    pub game: Game,
    pub config: GaConfig,
    /// Tick budget of each generation's fight.
    pub fight_tick_budget: u64,
    pub history: Vec<ChartSums>,
}

impl BattleGA {
    /// What the trainer keeps well-formed.
    pub open spec fn wf(&self) -> bool {
        &&& game_wf(self.game)
        &&& config_wf(self.config)
    }

    /// Builds a fresh world around the given population, under the
    /// standard knobs; the id allocator resumes above the population's
    /// largest id.
    pub fn new(population: Vec<Beetle>) -> (r: BattleGA)
        requires
            population_standalone_ok(population@),
        ensures
            r.wf(),
            r.game.field_state.beetles@ == population@,
            r.config == crate::simulation::standard_config(),
    {
        let game: Game = Game::from_population(population);
        BattleGA {
            game,
            config: GaConfig::standard(),
            fight_tick_budget: BATTLE_TICK_BUDGET,
            history: Vec::new(),
        }
    }

    /// The current population.
    pub fn get_population(&self) -> (r: &Vec<Beetle>)
        ensures
            r@ == self.game.field_state.beetles@,
    {
        &self.game.field_state.beetles
    }

    /// One battle generation: every agent is restored to full health, put
    /// on its own team at a random starting point with its damage counter
    /// cleared; the fight runs until fewer than half the agents (plus the
    /// slack) remain or the tick budget runs out; then the population is
    /// topped back up to its starting size with mutated offspring of
    /// tournament winners under the damage fitness.
    pub fn run_generation(&mut self)
        requires
            old(self).wf(),
        ensures
            final(self).wf(),
            final(self).config == old(self).config,
            final(self).history@ == old(self).history@,
            final(self).game.field_state.beetles@.len() == old(
                self,
            ).game.field_state.beetles@.len() || final(self).game.field_state.beetles@.len() == 0
                || final(self).game.ids.next == i64::MAX,
            final(self).game.field_state.beetles@.len() <= old(
                self,
            ).game.field_state.beetles@.len(),
            forall|i: int|
                0 <= i < final(self).game.field_state.beetles@.len()
                    ==> crate::entities::idx_of(
                    old(self).game.field_state.beetles@,
                    (#[trigger] final(self).game.field_state.beetles@[i]).id,
                ) != -1 || final(self).game.field_state.beetles@[i].id >= old(
                    self,
                ).game.ids.next,
    {
        let ghost s_orig = self.game.field_state.beetles@;
        let ghost next0 = self.game.ids.next;
        let pop_size: usize = self.game.field_state.beetles.len();
        let n: usize = pop_size;
        let mut k: usize = 0;
        while k < n
            invariant
                game_wf(self.game),
                config_wf(self.config),
                self.config == old(self).config,
                self.history@ == old(self).history@,
                s_orig == old(self).game.field_state.beetles@,
                self.game.ids == old(self).game.ids,
                n == self.game.field_state.beetles@.len(),
                n == s_orig.len(),
                forall|i: int|
                    0 <= i < n ==> (#[trigger] self.game.field_state.beetles@[i]).id
                        == s_orig[i].id,
                0 <= k <= n,
            decreases n - k,
        {
            let mh: u32;
            let own_id: Id;
            {
                let b = &self.game.field_state.beetles[k];
                proof {
                    assert(self.game.field_state.beetles@[k as int].wf());
                }
                mh = max_health_of(&b.genome);
                own_id = b.id;
            }
            let x: i64 = rand_in_range(100_000, 600_000) as i64;
            let y: i64 = rand_in_range(100_000, 600_000) as i64;
            let ghost before = self.game.field_state.beetles@;
            {
                let b = vec_index_mut(&mut self.game.field_state.beetles, k);
                b.health = mh;
                b.damage_inflicted = 0;
                b.team_id = own_id;
                b.position = Vec2 { x, y };
                // battle livery
                b.color = crate::utils::Color { r: 213, g: 77, b: 77, a: 255 };
            }
            proof {
                assert(forall|i: int|
                    0 <= i < self.game.field_state.beetles@.len() ==> (
                    #[trigger] self.game.field_state.beetles@[i]).id == before[i].id);
                assert(forall|i: int|
                    0 <= i < self.game.field_state.beetles@.len() ==> (
                    #[trigger] self.game.field_state.beetles@[i]).wf());
            }
            k = k + 1;
        }
        let ghost after_reset = self.game.field_state.beetles@;
        let threshold: usize = pop_size / 2 + BATTLE_SURVIVOR_SLACK;
        let done = PopulationBelow { threshold };
        let _ticks: u64 = run_fight(&mut self.game, &done, self.fight_tick_budget);
        proof {
            assert forall|i: int| 0 <= i < self.game.field_state.beetles@.len() implies
                crate::entities::idx_of(
                s_orig,
                (#[trigger] self.game.field_state.beetles@[i]).id,
            ) != -1 || self.game.field_state.beetles@[i].id >= next0 by {
                let id = self.game.field_state.beetles@[i].id;
                assert(self.game.field_state.beetles@[i].id_spec() == id);
                crate::entities::lemma_idx_of_props(self.game.field_state.beetles@, id);
                assert(crate::entities::idx_of(self.game.field_state.beetles@, id) != -1);
                assert(crate::entities::idx_of(after_reset, id) != -1);
                crate::game::lemma_idx_of_same_ids(after_reset, s_orig, id);
            }
        }
        while self.game.field_state.beetles.len() < pop_size
            && self.game.field_state.beetles.len() > 0 && self.game.ids.next < i64::MAX
            invariant
                game_wf(self.game),
                config_wf(self.config),
                self.config == old(self).config,
                self.history@ == old(self).history@,
                s_orig == old(self).game.field_state.beetles@,
                next0 <= self.game.ids.next,
                self.game.field_state.beetles@.len() <= pop_size,
                pop_size <= s_orig.len(),
                forall|i: int|
                    0 <= i < self.game.field_state.beetles@.len() ==> crate::entities::idx_of(
                        s_orig,
                        (#[trigger] self.game.field_state.beetles@[i]).id,
                    ) != -1 || self.game.field_state.beetles@[i].id >= next0,
            decreases pop_size - self.game.field_state.beetles@.len(),
        {
            let parent_id: Id = tournament_select_individual(
                &self.game,
                FitnessMetric::Damage,
                self.config.selection_bias_permille,
            );
            let pi: usize = match find_index_by_id(&self.game.field_state.beetles, parent_id) {
                Option::Some(p) => p,
                Option::None => 0,
            };
            proof {
                assert(self.game.field_state.beetles@[pi as int].wf());
            }
            let offspring: Beetle = mutate(
                &self.game.field_state.beetles[pi],
                self.config.mutation_rate_permille,
            );
            let ghost before_add = self.game.field_state.beetles@;
            let added: Id = self.game.add_beetle(offspring);
            proof {
                assert forall|i: int| 0 <= i < self.game.field_state.beetles@.len() implies
                    crate::entities::idx_of(
                    s_orig,
                    (#[trigger] self.game.field_state.beetles@[i]).id,
                ) != -1 || self.game.field_state.beetles@[i].id >= next0 by {
                    if i < before_add.len() {
                        assert(self.game.field_state.beetles@[i] == before_add[i]);
                    } else {
                        assert(self.game.field_state.beetles@[i].id == added);
                    }
                }
            }
        }
    }
}

impl BattleGA {
    /// Runs the configured number of battle generations, recording one
    /// chart entry per generation; the population never grows.
    pub fn run_training(&mut self)
        requires
            old(self).wf(),
        ensures
            final(self).wf(),
            final(self).history@.len() == old(self).history@.len() + old(
                self,
            ).config.num_generations,
            forall|i: int|
                0 <= i < old(self).history@.len() ==> (#[trigger] final(self).history@[i])
                    == old(self).history@[i],
            final(self).game.field_state.beetles@.len() <= old(
                self,
            ).game.field_state.beetles@.len(),
    {
        let gens: u64 = self.config.num_generations;
        let mut g: u64 = 0;
        while g < gens
            invariant
                self.wf(),
                self.config == old(self).config,
                gens == self.config.num_generations,
                0 <= g <= gens,
                self.history@.len() == old(self).history@.len() + g,
                forall|i: int|
                    0 <= i < old(self).history@.len() ==> (#[trigger] self.history@[i]) == old(
                        self,
                    ).history@[i],
                self.game.field_state.beetles@.len() <= old(
                    self,
                ).game.field_state.beetles@.len(),
            decreases gens - g,
        {
            self.run_generation();
            let cs: ChartSums = chart_sums(&self.game.field_state.beetles);
            self.history.push(cs);
            g = g + 1;
        }
    }
}

impl Simulate for BattleGA {
    open spec fn sim_wf(&self) -> bool {
        self.wf()
    }

    fn run(&mut self) {
        self.run_training();
    }
}

} // verus!
