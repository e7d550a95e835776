//! The foraging strategy: every agent harvests one inexhaustible food
//! source and delivers to one home base for a fixed number of ticks;
//! fitness is lifetime food delivered, and each generation the population
//! is fully replaced by mutated offspring of tournament winners.

use vstd::prelude::*;
use crate::Id;
use crate::utils::vec_index_mut;
use crate::game::{Game, Command, game_wf, population_standalone_ok};
use crate::geom::Vec2;
use crate::entities::{FoodSource, HomeBase, Entity};
use crate::stats::{ChartSums, chart_sums};
use crate::simulation::{Simulate, GaConfig, FitnessMetric, config_wf, breed_replacement};
use crate::beetle::Beetle;
use crate::entities::find_index_by_id;

verus! {

/// How many ticks one foraging generation simulates.
pub const FORAGE_TICKS_PER_GENERATION: u64 = 2000;

/// Food added to the shared source at setup, making it inexhaustible at
/// this time scale.
pub const FORAGE_SOURCE_TOP_UP: u32 = 1_000_000;

/// The foraging trainer: owns its world and the statistics of every
/// generation it has run.
#[derive(Debug)]
pub struct FoodGA {
    pub game: Game,
    pub config: GaConfig,
    /// How many ticks each generation simulates.
    pub ticks_per_generation: u64,
    pub history: Vec<ChartSums>,
}

impl FoodGA {
    /// What the trainer keeps well-formed.
    pub open spec fn wf(&self) -> bool {
        &&& game_wf(self.game)
        &&& config_wf(self.config)
    }

    /// Builds a fresh world around the given population, under the
    /// standard knobs; the id allocator resumes above the population's
    /// largest id.
    pub fn new(population: Vec<Beetle>) -> (r: FoodGA)
        requires
            population_standalone_ok(population@),
        ensures
            r.wf(),
            r.game.field_state.beetles@ == population@,
            r.config == crate::simulation::standard_config(),
    {
        let game: Game = Game::from_population(population);
        FoodGA {
            game,
            config: GaConfig::standard(),
            ticks_per_generation: FORAGE_TICKS_PER_GENERATION,
            history: Vec::new(),
        }
    }

    /// The current population.
    pub fn get_population(&self) -> (r: &Vec<Beetle>)
        ensures
            r@ == self.game.field_state.beetles@,
    {
        &self.game.field_state.beetles
    }

    /// Places the home base and the (topped-up) food source, and puts
    /// every agent under a standing harvest command in the forager
    /// livery: exactly one base and one source are added at their fixed
    /// points, the source effectively inexhaustible, and nothing else
    /// about any agent changes. With fewer than two ids left, the world
    /// stays untouched.
    pub fn setup(&mut self)
        requires
            old(self).wf(),
        ensures
            final(self).wf(),
            final(self).config == old(self).config,
            final(self).history@ == old(self).history@,
            ({
                let g0 = old(self).game;
                if i64::MAX - g0.ids.next < 2 {
                    *final(self) == *old(self)
                } else {
                    &&& final(self).game.ids.next == g0.ids.next + 2
                    &&& final(self).game.field_state.home_bases@
                        == g0.field_state.home_bases@.push(
                        HomeBase {
                            id: g0.ids.next,
                            food_stored_amount: 0,
                            position: Vec2 { x: 128_000, y: 128_000 },
                        },
                    )
                    &&& final(self).game.field_state.food_sources@
                        == g0.field_state.food_sources@.push(
                        FoodSource {
                            id: (g0.ids.next + 1) as i64,
                            amount: (crate::entities::FOOD_SOURCE_INITIAL_AMOUNT
                                + FORAGE_SOURCE_TOP_UP) as u32,
                            position: Vec2 { x: 256_000, y: 256_000 },
                        },
                    )
                    &&& final(self).game.field_state.beetles@.len()
                        == g0.field_state.beetles@.len()
                    &&& forall|i: int|
                        0 <= i < g0.field_state.beetles@.len() ==> (
                        #[trigger] final(self).game.field_state.beetles@[i]) == (Beetle {
                            current_command: Command::HarvestClosestFood,
                            color: crate::utils::Color { r: 144, g: 153, b: 212, a: 255 },
                            ..g0.field_state.beetles@[i]
                        })
                }
            }),
    {
        if i64::MAX - self.game.ids.next < 2 {
            return ;
        }
        let _base_id: Id = self.game.add_home_base(128_000, 128_000);
        let food_source_id: Id = self.game.add_food_source(256_000, 256_000);
        let ghost foods_before_topup = self.game.field_state.food_sources@;
        match find_index_by_id(&self.game.field_state.food_sources, food_source_id) {
            Option::Some(fi) => {
                let ghost foods0 = self.game.field_state.food_sources@;
                proof {
                    let n = foods0.len();
                    if fi as int != n - 1 {
                        assert(foods0[fi as int].id == foods0[n - 1].id);
                    }
                }
                {
                    let f = vec_index_mut(&mut self.game.field_state.food_sources, fi);
                    let _ = f.increase_food(FORAGE_SOURCE_TOP_UP);
                }
                proof {
                    assert(forall|k: int|
                        0 <= k < self.game.field_state.food_sources@.len() ==> (
                        #[trigger] self.game.field_state.food_sources@[k]).id == foods0[k].id);
                    assert(forall|k: int|
                        0 <= k < self.game.field_state.food_sources@.len() ==> (
                        #[trigger] self.game.field_state.food_sources@[k]).position
                            == foods0[k].position);
                    assert(self.game.field_state.food_sources@ =~= old(
                        self,
                    ).game.field_state.food_sources@.push(
                        FoodSource {
                            id: (old(self).game.ids.next + 1) as i64,
                            amount: (crate::entities::FOOD_SOURCE_INITIAL_AMOUNT
                                + FORAGE_SOURCE_TOP_UP) as u32,
                            position: Vec2 { x: 256_000, y: 256_000 },
                        },
                    ));
                }
            },
            Option::None => {
                proof {
                    crate::entities::lemma_idx_of_props(foods_before_topup, food_source_id);
                    let n = foods_before_topup.len();
                    assert(foods_before_topup[n - 1].id_spec() == food_source_id);
                    assert(false);
                }
            },
        }
        let ghost base = self.game.field_state.beetles@;
        let n: usize = self.game.field_state.beetles.len();
        let mut k: usize = 0;
        while k < n
            invariant
                game_wf(self.game),
                config_wf(self.config),
                self.config == old(self).config,
                self.history@ == old(self).history@,
                base == old(self).game.field_state.beetles@,
                self.game.ids.next == old(self).game.ids.next + 2,
                self.game.field_state.home_bases@ == old(
                    self,
                ).game.field_state.home_bases@.push(
                    HomeBase {
                        id: old(self).game.ids.next,
                        food_stored_amount: 0,
                        position: Vec2 { x: 128_000, y: 128_000 },
                    },
                ),
                self.game.field_state.food_sources@ == old(
                    self,
                ).game.field_state.food_sources@.push(
                    FoodSource {
                        id: (old(self).game.ids.next + 1) as i64,
                        amount: (crate::entities::FOOD_SOURCE_INITIAL_AMOUNT
                            + FORAGE_SOURCE_TOP_UP) as u32,
                        position: Vec2 { x: 256_000, y: 256_000 },
                    },
                ),
                n == self.game.field_state.beetles@.len(),
                n == base.len(),
                0 <= k <= n,
                forall|i: int|
                    0 <= i < k ==> (#[trigger] self.game.field_state.beetles@[i]) == (Beetle {
                        current_command: Command::HarvestClosestFood,
                        color: crate::utils::Color { r: 144, g: 153, b: 212, a: 255 },
                        ..base[i]
                    }),
                forall|i: int|
                    k <= i < n ==> (#[trigger] self.game.field_state.beetles@[i]) == base[i],
            decreases n - k,
        {
            let ghost before = self.game.field_state.beetles@;
            {
                let b = vec_index_mut(&mut self.game.field_state.beetles, k);
                // forager livery
                b.color = crate::utils::Color { r: 144, g: 153, b: 212, a: 255 };
                b.set_command(Command::HarvestClosestFood);
            }
            proof {
                assert(forall|i: int|
                    0 <= i < self.game.field_state.beetles@.len() ==> (
                    #[trigger] self.game.field_state.beetles@[i]).id == before[i].id);
            }
            k = k + 1;
        }
    }

    /// One foraging generation: lifetime delivery counters are reset, the
    /// world runs for the configured tick budget, and the population is
    /// then fully replaced by mutated offspring of tournament winners
    /// under the food-delivered fitness, bred under fresh ids. A run that
    /// would exhaust the id space leaves the population as the
    /// simulation left it. The population never grows, and every final
    /// agent either carries an id of the starting population or a fresh
    /// id drawn after the generation began.
    pub fn run_generation(&mut self)
        requires
            old(self).wf(),
        ensures
            final(self).wf(),
            final(self).config == old(self).config,
            final(self).history@ == old(self).history@,
            final(self).game.field_state.beetles@.len() <= old(
                self,
            ).game.field_state.beetles@.len(),
            forall|i: int|
                0 <= i < final(self).game.field_state.beetles@.len()
                    ==> crate::entities::idx_of(
                    old(self).game.field_state.beetles@,
                    (#[trigger] final(self).game.field_state.beetles@[i]).id,
                ) != -1 || final(self).game.field_state.beetles@[i].id >= old(
                    self,
                ).game.ids.next,
            crate::game::no_interact_commands(old(self).game.field_state.beetles@) && old(
                self,
            ).game.field_state.beetles@.len() > 0 && i64::MAX - old(self).game.ids.next >= old(
                self,
            ).game.field_state.beetles@.len() ==> final(self).game.field_state.beetles@.len()
                == old(self).game.field_state.beetles@.len(),
    {
        let ghost s_orig = self.game.field_state.beetles@;
        let ghost next0 = self.game.ids.next;
        let n: usize = self.game.field_state.beetles.len();
        let mut k: usize = 0;
        while k < n
            invariant
                game_wf(self.game),
                config_wf(self.config),
                self.config == old(self).config,
                self.history@ == old(self).history@,
                s_orig == old(self).game.field_state.beetles@,
                self.game.ids == old(self).game.ids,
                n == self.game.field_state.beetles@.len(),
                n == s_orig.len(),
                forall|i: int|
                    0 <= i < n ==> (#[trigger] self.game.field_state.beetles@[i]).id
                        == s_orig[i].id,
                forall|i: int|
                    0 <= i < n ==> (#[trigger] self.game.field_state.beetles@[i]).current_command
                        == s_orig[i].current_command,
                0 <= k <= n,
            decreases n - k,
        {
            let ghost before = self.game.field_state.beetles@;
            {
                let b = vec_index_mut(&mut self.game.field_state.beetles, k);
                b.food_collected = 0;
            }
            proof {
                assert(forall|i: int|
                    0 <= i < self.game.field_state.beetles@.len() ==> (
                    #[trigger] self.game.field_state.beetles@[i]).id == before[i].id);
                assert(forall|i: int|
                    0 <= i < self.game.field_state.beetles@.len() ==> (
                    #[trigger] self.game.field_state.beetles@[i]).current_command
                        == before[i].current_command);
                assert(forall|i: int|
                    0 <= i < self.game.field_state.beetles@.len() ==> (
                    #[trigger] self.game.field_state.beetles@[i]).wf());
            }
            k = k + 1;
        }
        let ghost after_reset = self.game.field_state.beetles@;
        let budget: u64 = self.ticks_per_generation;
        let mut t: u64 = 0;
        while t < budget
            invariant
                game_wf(self.game),
                config_wf(self.config),
                self.config == old(self).config,
                self.history@ == old(self).history@,
                s_orig == old(self).game.field_state.beetles@,
                after_reset.len() == s_orig.len(),
                forall|i: int|
                    0 <= i < after_reset.len() ==> (#[trigger] after_reset[i]).id
                        == s_orig[i].id,
                self.game.ids == old(self).game.ids,
                self.game.field_state.beetles@.len() <= s_orig.len(),
                forall|id: crate::Id|
                    #[trigger] crate::entities::idx_of(self.game.field_state.beetles@, id) != -1
                        ==> crate::entities::idx_of(after_reset, id) != -1,
                crate::game::no_interact_commands(s_orig) ==> (
                self.game.field_state.beetles@.len() == s_orig.len()
                    && crate::game::no_interact_commands(self.game.field_state.beetles@)),
                0 <= t <= budget,
            decreases budget - t,
        {
            let ghost before_tick = self.game.field_state.snap();
            self.game.tick();
            proof {
                assert forall|id: crate::Id|
                    #[trigger] crate::entities::idx_of(self.game.field_state.beetles@, id) != -1
                        implies crate::entities::idx_of(after_reset, id) != -1 by {
                    crate::game::lemma_apply_seq_ids_subset(
                        before_tick,
                        crate::game::spec_decisions(before_tick),
                        id,
                    );
                }
                if crate::game::no_interact_commands(s_orig) {
                    crate::game::lemma_peaceful_tick(before_tick);
                }
            }
            t = t + 1;
        }
        proof {
            assert forall|i: int| 0 <= i < self.game.field_state.beetles@.len() implies
                crate::entities::idx_of(
                s_orig,
                (#[trigger] self.game.field_state.beetles@[i]).id,
            ) != -1 || self.game.field_state.beetles@[i].id >= next0 by {
                let id = self.game.field_state.beetles@[i].id;
                assert(self.game.field_state.beetles@[i].id_spec() == id);
                crate::entities::lemma_idx_of_props(self.game.field_state.beetles@, id);
                assert(crate::entities::idx_of(self.game.field_state.beetles@, id) != -1);
                assert(crate::entities::idx_of(after_reset, id) != -1);
                crate::game::lemma_idx_of_same_ids(after_reset, s_orig, id);
            }
        }
        let pop_size: usize = self.game.field_state.beetles.len();
        if pop_size == 0 {
            return ;
        }
        let headroom: u64 = (i64::MAX - self.game.ids.next) as u64;
        if headroom < pop_size as u64 {
            return ;
        }
        let newpop: Vec<Beetle> = breed_replacement(
            &mut self.game,
            FitnessMetric::Food,
            self.config,
            false,
            false,
        );
        self.game.set_population(newpop);
    }

    /// Runs setup and the configured number of foraging generations,
    /// recording one chart entry per generation; the population never
    /// grows.
    pub fn run_training(&mut self)
        requires
            old(self).wf(),
        ensures
            final(self).wf(),
            final(self).history@.len() == old(self).history@.len() + old(
                self,
            ).config.num_generations,
            forall|i: int|
                0 <= i < old(self).history@.len() ==> (#[trigger] final(self).history@[i])
                    == old(self).history@[i],
            final(self).game.field_state.beetles@.len() <= old(
                self,
            ).game.field_state.beetles@.len(),
    {
        self.setup();
        let gens: u64 = self.config.num_generations;
        let mut g: u64 = 0;
        while g < gens
            invariant
                self.wf(),
                self.config == old(self).config,
                gens == self.config.num_generations,
                0 <= g <= gens,
                self.history@.len() == old(self).history@.len() + g,
                forall|i: int|
                    0 <= i < old(self).history@.len() ==> (#[trigger] self.history@[i]) == old(
                        self,
                    ).history@[i],
                self.game.field_state.beetles@.len() <= old(
                    self,
                ).game.field_state.beetles@.len(),
            decreases gens - g,
        {
            self.run_generation();
            let cs: ChartSums = chart_sums(&self.game.field_state.beetles);
            self.history.push(cs);
            g = g + 1;
        }
    }
}

impl Simulate for FoodGA {
    open spec fn sim_wf(&self) -> bool {
        self.wf()
    }

    fn run(&mut self) {
        self.run_training();
    }
}

} // verus!
