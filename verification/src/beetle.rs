//! The agent: genome-derived phenotype, kinematics, combat and foraging
//! state, and the per-tick decision logic.

use vstd::prelude::*;
use crate::Id;
use crate::utils::{Color, FP_ONE, MIN_SPEED_UNITS_PER_TICK, SPEED_LIMIT_UNITS_PER_TICK};
use crate::geom::{
    Vec2, in_bounds, dir_ok, dist_sq, dist_sq_fp, aligned_toward, is_aligned_toward, cross_toward,
    cross_toward_fp, rotate_spec, rotate_dir, div_trunc, div_trunc_fp, clamp_spec, clamp_point,
    POS_LIMIT, INTERACT_RANGE_SQ,
};
use crate::beetle_genome::{BeetleGenome, BeetleGeneIndex};
use crate::game::{State, Command, Action, command_wf};
use crate::entities::{Entity, Positioned, HasFood, FoodSource, HomeBase, closest_idx, idx_of, positions_ok, find_closest, find_index_by_id};
use vstd::arithmetic::div_mod::{
    lemma_div_is_ordered, lemma_div_pos_is_pos, lemma_div_nonincreasing,
};
use vstd::arithmetic::mul::{lemma_mul_inequality, lemma_mul_nonnegative};

verus! {

/// Longest possible body, in milli-units.
pub const MAX_BODY_LENGTH_FP: i64 = 40_000;

/// Shortest possible body (and narrowest body), in milli-units.
pub const MIN_BODY_LENGTH_FP: i64 = 10_000;

/// Size of one unit of food, in milli-units of body length: a quarter of
/// the longest body.
pub const FOOD_SIZE_FP: i64 = 10_000;

/// The value of one gene, as a mathematical integer.
pub open spec fn gene(g: BeetleGenome, i: int) -> int {
    g@[i] as int
}

/// Body length in milli-units, linear in the body-length gene over
/// `[MIN_BODY_LENGTH_FP, MAX_BODY_LENGTH_FP]`.
pub open spec fn spec_body_length_fp(g: BeetleGenome) -> int {
    gene(g, 6) * 30 + 10_000
}

/// Body width in milli-units: the width gene interpolates between the
/// minimum width and the body length.
pub open spec fn spec_body_width_fp(g: BeetleGenome) -> int {
    gene(g, 5) * (spec_body_length_fp(g) - 10_000) / 1000 + 10_000
}

/// Body area as a permille ratio of the largest possible area.
pub open spec fn spec_size_permille(g: BeetleGenome) -> int {
    spec_body_width_fp(g) * spec_body_length_fp(g) / 1_600_000
}

/// Speed ratio in permille: equal parts quickness, strength, smallness and
/// carapace lightness.
pub open spec fn spec_speed_ratio(g: BeetleGenome) -> int {
    (gene(g, 2) + gene(g, 1) + (1000 - spec_size_permille(g)) + (1000 - gene(g, 0))) / 4
}

/// Speed in milli-units per tick, interpolated between the global floor
/// and the agent's configured ceiling `ms`.
pub open spec fn spec_speed_fp(g: BeetleGenome, ms: int) -> int {
    spec_speed_ratio(g) * (ms - MIN_SPEED_UNITS_PER_TICK) / 1000 + MIN_SPEED_UNITS_PER_TICK
}

/// Health ratio in permille: half carapace density, three tenths size, two
/// tenths strength.
pub open spec fn spec_health_ratio(g: BeetleGenome) -> int {
    (gene(g, 0) * 500 + spec_size_permille(g) * 300 + gene(g, 1) * 200) / 1000
}

/// Maximum health in health units, between 10 and 200.
pub open spec fn spec_max_health(g: BeetleGenome) -> int {
    spec_health_ratio(g) * 190 / 1000 + 10
}

/// Attack ratio in permille: mandible sharpness, venomosity, strength,
/// size and quickness, weighted.
pub open spec fn spec_attack_ratio(g: BeetleGenome) -> int {
    (gene(g, 4) * 300 + gene(g, 3) * 300 + gene(g, 1) * 200 + spec_size_permille(g) * 100 + gene(
        g,
        2,
    ) * 100) / 1000
}

/// Attack power in health units per strike, between 1 and 50.
pub open spec fn spec_attack_power(g: BeetleGenome) -> int {
    spec_attack_ratio(g) * 49 / 1000 + 1
}

/// How many units of food fit on this body: one per food-size of length.
pub open spec fn spec_carrying_capacity(g: BeetleGenome) -> int {
    spec_body_length_fp(g) / (FOOD_SIZE_FP as int)
}

/// Ranges of every derived stat over well-formed genomes. Two agents with
/// identical genomes always derive identical stats, since every stat is a
/// pure function of the genome.
pub proof fn lemma_stat_bounds(g: BeetleGenome)
    requires
        g.wf(),
    ensures
        10_000 <= spec_body_length_fp(g) <= 40_000,
        10_000 <= spec_body_width_fp(g) <= 40_000,
        62 <= spec_size_permille(g) <= 1000,
        0 <= spec_speed_ratio(g) <= 1000,
        0 <= spec_health_ratio(g) <= 1000,
        10 <= spec_max_health(g) <= 200,
        0 <= spec_attack_ratio(g) <= 1000,
        1 <= spec_attack_power(g) <= 50,
        1 <= spec_carrying_capacity(g) <= 4,
{
    let bl = spec_body_length_fp(g);
    let span = bl - 10_000;
    let wprod = gene(g, 5) * span;
    lemma_mul_nonnegative(gene(g, 5), span);
    lemma_mul_inequality(gene(g, 5), 1000, span);
    lemma_div_pos_is_pos(wprod, 1000);
    lemma_div_is_ordered(wprod, 1000 * span, 1000);
    assert((1000 * span) / 1000 == span) by (nonlinear_arith)
        requires span >= 0;
    let bw = spec_body_width_fp(g);
    let aprod = bw * bl;
    lemma_mul_nonnegative(bw, bl);
    lemma_mul_inequality(bw, 40_000, bl);
    assert(40_000 * bl <= 1_600_000_000);
    lemma_mul_inequality(10_000, bw, bl);
    assert(10_000 * bl >= 100_000_000);
    lemma_div_is_ordered(100_000_000, aprod, 1_600_000);
    lemma_div_is_ordered(aprod, 1_600_000_000, 1_600_000);
    let sz = spec_size_permille(g);
    let snum = gene(g, 2) + gene(g, 1) + (1000 - sz) + (1000 - gene(g, 0));
    lemma_div_pos_is_pos(snum, 4);
    lemma_div_is_ordered(snum, 4000, 4);
    let hnum = gene(g, 0) * 500 + sz * 300 + gene(g, 1) * 200;
    lemma_div_pos_is_pos(hnum, 1000);
    lemma_div_is_ordered(hnum, 1_000_000, 1000);
    let hr = spec_health_ratio(g);
    lemma_mul_nonnegative(hr, 190);
    lemma_div_pos_is_pos(hr * 190, 1000);
    lemma_div_is_ordered(hr * 190, 190_000, 1000);
    let anum = gene(g, 4) * 300 + gene(g, 3) * 300 + gene(g, 1) * 200 + sz * 100 + gene(g, 2) * 100;
    lemma_div_pos_is_pos(anum, 1000);
    lemma_div_is_ordered(anum, 1_000_000, 1000);
    let ar = spec_attack_ratio(g);
    lemma_mul_nonnegative(ar, 49);
    lemma_div_pos_is_pos(ar * 49, 1000);
    lemma_div_is_ordered(ar * 49, 49_000, 1000);
    lemma_div_is_ordered(10_000, bl, 10_000);
    lemma_div_is_ordered(bl, 40_000, 10_000);
}

/// The speed of a well-formed agent lies between the global floor and its
/// configured ceiling.
pub proof fn lemma_speed_bounds(g: BeetleGenome, ms: int)
    requires
        g.wf(),
        MIN_SPEED_UNITS_PER_TICK <= ms <= SPEED_LIMIT_UNITS_PER_TICK,
    ensures
        MIN_SPEED_UNITS_PER_TICK <= spec_speed_fp(g, ms) <= ms,
{
    lemma_stat_bounds(g);
    let ratio = spec_speed_ratio(g);
    let t = ratio * (ms - 200);
    lemma_mul_nonnegative(ratio, ms - 200);
    lemma_mul_inequality(ratio, 1000, ms - 200);
    lemma_div_pos_is_pos(t, 1000);
    lemma_div_is_ordered(t, 1000 * (ms - 200), 1000);
    assert((1000 * (ms - 200)) / 1000 == ms - 200) by (nonlinear_arith)
        requires ms >= 200;
}

/// An autonomous agent on the field.
#[derive(Debug)]
pub struct Beetle {
    pub id: Id,
    pub position: Vec2,
    pub direction: Vec2,
    /// Configured top speed, milli-units per tick.
    pub max_speed_units_per_tick: i64,
    /// Cosine of the per-tick angular step, permille.
    pub rotation_cos: i64,
    /// Sine of the per-tick angular step, permille.
    pub rotation_sin: i64,
    pub current_state: State,
    pub current_command: Command,
    pub health: u32,
    pub selected: bool,
    pub genome: BeetleGenome,
    pub color: Color,
    pub team_id: Id,
    /// Lifetime food delivered to home bases.
    pub food_collected: u64,
    /// Food currently carried.
    pub food_carrying: u32,
    /// Lifetime damage dealt to other agents.
    pub damage_inflicted: u64,
}

impl Beetle {
    /// Structural invariant of an agent: valid genome, on-field position,
    /// unit-box direction, angular step in the first quadrant, speed
    /// ceiling within the global limits, health within the derived
    /// maximum, load within the derived capacity, and a storable command.
    pub open spec fn wf(&self) -> bool {
        &&& self.genome.wf()
        &&& in_bounds(self.position)
        &&& dir_ok(self.direction)
        &&& 0 <= self.rotation_cos <= FP_ONE
        &&& 0 <= self.rotation_sin <= FP_ONE
        &&& MIN_SPEED_UNITS_PER_TICK <= self.max_speed_units_per_tick
            <= SPEED_LIMIT_UNITS_PER_TICK
        &&& self.health <= spec_max_health(self.genome)
        &&& command_wf(self.current_command)
    }

    /// A stationary agent at the origin with the midpoint genome, full
    /// health, and no command.
    pub fn new() -> (b: Beetle)
        ensures
            b.wf(),
            b.id == 0,
            b.team_id == 0,
            b.health == spec_max_health(b.genome),
            b.food_carrying == 0,
            b.food_collected == 0,
            b.damage_inflicted == 0,
            b.current_command == Command::Stop,
            b.current_state == State::Idle,
            forall|i: int| 0 <= i < b.genome@.len() ==> b.genome@[i] == 500u32,
    {
        let genome = BeetleGenome::new();
        proof {
            lemma_stat_bounds(genome);
        }
        let health = max_health_of(&genome);
        Beetle {
            id: 0,
            position: Vec2 { x: 0, y: 0 },
            direction: Vec2 { x: 0, y: FP_ONE },
            max_speed_units_per_tick: MIN_SPEED_UNITS_PER_TICK,
            // cos/sin of the default 0.10 rad step
            rotation_cos: 995,
            rotation_sin: 100,
            current_state: State::Idle,
            current_command: Command::Stop,
            health,
            selected: false,
            genome,
            color: Color::new(),
            team_id: 0,
            food_collected: 0,
            food_carrying: 0,
            damage_inflicted: 0,
        }
    }

    /// Speed this tick, in milli-units per tick.
    pub fn speed(&self) -> (r: i64)
        requires
            self.genome.wf(),
            MIN_SPEED_UNITS_PER_TICK <= self.max_speed_units_per_tick
                <= SPEED_LIMIT_UNITS_PER_TICK,
        ensures
            r == spec_speed_fp(self.genome, self.max_speed_units_per_tick as int),
            MIN_SPEED_UNITS_PER_TICK <= r <= self.max_speed_units_per_tick,
    {
        proof {
            lemma_stat_bounds(self.genome);
            lemma_speed_bounds(self.genome, self.max_speed_units_per_tick as int);
        }
        let ratio: i64 = self.size_helper_speed_ratio();
        let span: i64 = self.max_speed_units_per_tick - MIN_SPEED_UNITS_PER_TICK;
        proof {
            lemma_mul_nonnegative(ratio as int, span as int);
            lemma_mul_inequality(ratio as int, 1000, span as int);
            lemma_div_nonincreasing(ratio as int * span as int, 1000);
            lemma_div_pos_is_pos(ratio as int * span as int, 1000);
        }
        let t: u64 = (ratio as u64) * (span as u64);
        let q: i64 = (t / 1000) as i64;
        q + MIN_SPEED_UNITS_PER_TICK
    }

    /// Speed ratio in permille.
    fn size_helper_speed_ratio(&self) -> (r: i64)
        requires
            self.genome.wf(),
        ensures
            r == spec_speed_ratio(self.genome),
            0 <= r <= 1000,
    {
        proof {
            lemma_stat_bounds(self.genome);
        }
        let q: i64 = self.genome.get_gene(BeetleGeneIndex::Quickness) as i64;
        let st: i64 = self.genome.get_gene(BeetleGeneIndex::Strength) as i64;
        let cd: i64 = self.genome.get_gene(BeetleGeneIndex::CarapaceDensity) as i64;
        let sz: i64 = self.size();
        let num: i64 = q + st + (1000 - sz) + (1000 - cd);
        proof {
            lemma_div_pos_is_pos(num as int, 4);
            lemma_div_is_ordered(num as int, 4000, 4);
        }
        ((num as u64) / 4) as i64
    }

    /// Body area as a permille ratio of the largest possible body.
    pub fn size(&self) -> (r: i64)
        requires
            self.genome.wf(),
        ensures
            r == spec_size_permille(self.genome),
            62 <= r <= 1000,
    {
        size_of(&self.genome)
    }

    /// Body width in milli-units.
    pub fn body_width(&self) -> (r: i64)
        requires
            self.genome.wf(),
        ensures
            r == spec_body_width_fp(self.genome),
            10_000 <= r <= 40_000,
    {
        proof {
            lemma_stat_bounds(self.genome);
        }
        let bw: i64 = self.genome.get_gene(BeetleGeneIndex::BodyWidth) as i64;
        let l: i64 = self.body_length();
        let span: i64 = l - MIN_BODY_LENGTH_FP;
        proof {
            lemma_mul_nonnegative(bw as int, span as int);
            lemma_mul_inequality(bw as int, 1000, span as int);
        }
        let p: u64 = (bw as u64) * (span as u64);
        (p / 1000) as i64 + MIN_BODY_LENGTH_FP
    }

    /// Body length in milli-units.
    pub fn body_length(&self) -> (r: i64)
        requires
            self.genome.wf(),
        ensures
            r == spec_body_length_fp(self.genome),
            10_000 <= r <= 40_000,
    {
        let bl: i64 = self.genome.get_gene(BeetleGeneIndex::BodyLength) as i64;
        bl * 30 + MIN_BODY_LENGTH_FP
    }

    /// Maximum health in health units.
    pub fn max_health(&self) -> (r: u32)
        requires
            self.genome.wf(),
        ensures
            r == spec_max_health(self.genome),
            10 <= r <= 200,
    {
        max_health_of(&self.genome)
    }

    /// Attack power in health units per strike.
    pub fn attack_power(&self) -> (r: u32)
        requires
            self.genome.wf(),
        ensures
            r == spec_attack_power(self.genome),
            1 <= r <= 50,
    {
        proof {
            lemma_stat_bounds(self.genome);
        }
        let ms: u64 = self.genome.get_gene(BeetleGeneIndex::MandibleSharpness) as u64;
        let ven: u64 = self.genome.get_gene(BeetleGeneIndex::Venomosity) as u64;
        let st: u64 = self.genome.get_gene(BeetleGeneIndex::Strength) as u64;
        let q: u64 = self.genome.get_gene(BeetleGeneIndex::Quickness) as u64;
        let sz: u64 = self.size() as u64;
        let num: u64 = ms * 300 + ven * 300 + st * 200 + sz * 100 + q * 100;
        let ratio: u64 = num / 1000;
        proof {
            lemma_div_pos_is_pos(num as int, 1000);
            lemma_div_is_ordered(num as int, 1_000_000, 1000);
            lemma_mul_nonnegative(ratio as int, 49);
            lemma_mul_inequality(ratio as int, 1000, 49);
            lemma_div_pos_is_pos(ratio as int * 49, 1000);
            lemma_div_is_ordered(ratio as int * 49, 49_000, 1000);
        }
        ((ratio * 49) / 1000) as u32 + 1
    }

    /// How many units of food this agent can carry at once.
    pub fn carrying_capacity(&self) -> (r: u32)
        requires
            self.genome.wf(),
        ensures
            r == spec_carrying_capacity(self.genome),
            1 <= r <= 4,
    {
        proof {
            lemma_stat_bounds(self.genome);
        }
        let l: i64 = self.body_length();
        ((l as u64) / (FOOD_SIZE_FP as u64)) as u32
    }

    /// Installs a new standing command.
    pub fn set_command(&mut self, command: Command)
        requires
            command_wf(command),
        ensures
            *final(self) == (Beetle { current_command: command, ..*old(self) }),
    {
        self.current_command = command;
    }

    /// Subtracts up to `damage_amount` from health, stopping at zero, and
    /// reports whether the blow was lethal: it is exactly when the damage
    /// reaches the agent's remaining health.
    pub fn take_damage(&mut self, damage_amount: u32) -> (dead: bool)
        ensures
            *final(self) == (Beetle {
                health: if old(self).health >= damage_amount {
                    (old(self).health - damage_amount) as u32
                } else {
                    0u32
                },
                ..*old(self)
            }),
            dead <==> damage_amount >= old(self).health,
    {
        if self.health > damage_amount {
            self.health = self.health - damage_amount;
            false
        } else {
            self.health = 0;
            true
        }
    }
}

/// Maximum health derived from a genome alone.
pub fn max_health_of(genome: &BeetleGenome) -> (r: u32)
    requires
        genome.wf(),
    ensures
        r == spec_max_health(*genome),
        10 <= r <= 200,
{
    proof {
        lemma_stat_bounds(*genome);
    }
    let cd: u64 = genome.get_gene(BeetleGeneIndex::CarapaceDensity) as u64;
    let st: u64 = genome.get_gene(BeetleGeneIndex::Strength) as u64;
    let sz: u64 = size_of(genome) as u64;
    let num: u64 = cd * 500 + sz * 300 + st * 200;
    let ratio: u64 = num / 1000;
    proof {
        lemma_div_pos_is_pos(num as int, 1000);
        lemma_div_is_ordered(num as int, 1_000_000, 1000);
        lemma_mul_nonnegative(ratio as int, 190);
        lemma_mul_inequality(ratio as int, 1000, 190);
        lemma_div_pos_is_pos(ratio as int * 190, 1000);
        lemma_div_is_ordered(ratio as int * 190, 190_000, 1000);
    }
    ((ratio * 190) / 1000) as u32 + 10
}

/// Size permille derived from a genome alone.
pub fn size_of(genome: &BeetleGenome) -> (r: i64)
    requires
        genome.wf(),
    ensures
        r == spec_size_permille(*genome),
        62 <= r <= 1000,
{
    proof {
        lemma_stat_bounds(*genome);
    }
    let blg: i64 = genome.get_gene(BeetleGeneIndex::BodyLength) as i64;
    let l: i64 = blg * 30 + MIN_BODY_LENGTH_FP;
    let bwg: i64 = genome.get_gene(BeetleGeneIndex::BodyWidth) as i64;
    let span: i64 = l - MIN_BODY_LENGTH_FP;
    proof {
        lemma_mul_nonnegative(bwg as int, span as int);
        lemma_mul_inequality(bwg as int, 1000, span as int);
    }
    let wp: u64 = (bwg as u64) * (span as u64);
    let w: i64 = (wp / 1000) as i64 + MIN_BODY_LENGTH_FP;
    proof {
        lemma_mul_nonnegative(w as int, l as int);
        lemma_mul_inequality(w as int, 40_000, l as int);
    }
    let p: u64 = (w as u64) * (l as u64);
    (p / 1_600_000) as i64
}

impl Positioned for Beetle {
    open spec fn pos_spec(&self) -> Vec2 {
        self.position
    }

    fn get_position(&self) -> (r: Vec2) {
        self.position
    }

    fn set_position(&mut self, position: Vec2) {
        self.position = position;
    }
}

impl Entity for Beetle {
    open spec fn id_spec(&self) -> Id {
        self.id
    }

    fn get_id(&self) -> (r: Id) {
        self.id
    }

    fn set_id(&mut self, id: Id) {
        self.id = id;
    }
}

impl HasFood for Beetle {
    open spec fn food_spec(&self) -> int {
        self.food_carrying as int
    }

    open spec fn food_cap_spec(&self) -> int {
        u32::MAX as int
    }

    fn add_food(&mut self, amount: u32) -> (r: u32) {
        if self.food_carrying > u32::MAX - amount {
            self.food_carrying = u32::MAX;
        } else {
            self.food_carrying = self.food_carrying + amount;
        }
        amount
    }

    fn remove_food(&mut self, amount: u32) -> (r: u32) {
        if self.food_carrying >= amount {
            self.food_carrying = self.food_carrying - amount;
            amount
        } else {
            let removed: u32 = self.food_carrying;
            self.food_carrying = 0;
            removed
        }
    }
}

/// Step-by-step builder for an agent: fixes starting position, speed and
/// turn ceilings, and genome, then derives the rest.
#[derive(Debug)]
pub struct BeetleBuilder {
    pub x: i64,
    pub y: i64,
    pub max_speed_units_per_tick: i64,
    pub rotation_cos: i64,
    pub rotation_sin: i64,
    pub genome: BeetleGenome,
}

impl BeetleBuilder {
    /// Well-formedness carried between the builder's steps.
    pub open spec fn wf(&self) -> bool {
        &&& self.genome.wf()
        &&& -POS_LIMIT <= self.x <= POS_LIMIT
        &&& -POS_LIMIT <= self.y <= POS_LIMIT
        &&& 0 <= self.rotation_cos <= FP_ONE
        &&& 0 <= self.rotation_sin <= FP_ONE
        &&& MIN_SPEED_UNITS_PER_TICK <= self.max_speed_units_per_tick
            <= SPEED_LIMIT_UNITS_PER_TICK
    }

    /// A builder with every choice at its default.
    pub fn new() -> (r: BeetleBuilder)
        ensures
            r.wf(),
            r.x == 0,
            r.y == 0,
    {
        BeetleBuilder {
            x: 0,
            y: 0,
            max_speed_units_per_tick: 1000,
            // cos/sin of the default 0.01 rad step
            rotation_cos: 1000,
            rotation_sin: 10,
            genome: BeetleGenome::new(),
        }
    }

    /// Chooses the speed ceiling (milli-units per tick).
    pub fn max_speed_units_per_tick(self, val: i64) -> (r: BeetleBuilder)
        requires
            self.wf(),
            MIN_SPEED_UNITS_PER_TICK <= val <= SPEED_LIMIT_UNITS_PER_TICK,
        ensures
            r.wf(),
            r == (BeetleBuilder { max_speed_units_per_tick: val, ..self }),
    {
        BeetleBuilder { max_speed_units_per_tick: val, ..self }
    }

    /// Chooses the per-tick angular step through its cosine and sine in
    /// permille; the step must lie in the first quadrant.
    pub fn rotation_step_per_tick(self, cos_fp: i64, sin_fp: i64) -> (r: BeetleBuilder)
        requires
            self.wf(),
            0 <= cos_fp <= FP_ONE,
            0 <= sin_fp <= FP_ONE,
        ensures
            r.wf(),
            r == (BeetleBuilder { rotation_cos: cos_fp, rotation_sin: sin_fp, ..self }),
    {
        BeetleBuilder { rotation_cos: cos_fp, rotation_sin: sin_fp, ..self }
    }

    /// Chooses the starting x coordinate (milli-units).
    pub fn x_pos(self, val: i64) -> (r: BeetleBuilder)
        requires
            self.wf(),
            -POS_LIMIT <= val <= POS_LIMIT,
        ensures
            r.wf(),
            r == (BeetleBuilder { x: val, ..self }),
    {
        BeetleBuilder { x: val, ..self }
    }

    /// Chooses the starting y coordinate (milli-units).
    pub fn y_pos(self, val: i64) -> (r: BeetleBuilder)
        requires
            self.wf(),
            -POS_LIMIT <= val <= POS_LIMIT,
        ensures
            r.wf(),
            r == (BeetleBuilder { y: val, ..self }),
    {
        BeetleBuilder { y: val, ..self }
    }

    /// Chooses the genome.
    pub fn genome(self, val: BeetleGenome) -> (r: BeetleBuilder)
        requires
            self.wf(),
            val.wf(),
        ensures
            r.wf(),
            r.genome == val,
            r.x == self.x,
            r.y == self.y,
            r.max_speed_units_per_tick == self.max_speed_units_per_tick,
            r.rotation_cos == self.rotation_cos,
            r.rotation_sin == self.rotation_sin,
    {
        BeetleBuilder { genome: val, ..self }
    }

    /// Builds the agent: position, ceilings and genome as chosen, health
    /// at the genome-derived maximum, no load, no counters, no command.
    pub fn build(&self) -> (b: Beetle)
        requires
            self.wf(),
        ensures
            b.wf(),
            b.position == (Vec2 { x: self.x, y: self.y }),
            b.direction == (Vec2 { x: 0, y: FP_ONE }),
            b.max_speed_units_per_tick == self.max_speed_units_per_tick,
            b.rotation_cos == self.rotation_cos,
            b.rotation_sin == self.rotation_sin,
            b.genome@ == self.genome@,
            b.health == spec_max_health(b.genome),
            b.id == 0,
            b.team_id == 0,
            b.food_carrying == 0,
            b.food_collected == 0,
            b.damage_inflicted == 0,
            b.current_command == Command::Stop,
            b.current_state == State::Idle,
            b.selected == false,
    {
        let genome = self.genome.duplicate();
        proof {
            lemma_stat_bounds(genome);
        }
        let health = max_health_of(&genome);
        Beetle {
            id: 0,
            position: Vec2 { x: self.x, y: self.y },
            direction: Vec2 { x: 0, y: FP_ONE },
            max_speed_units_per_tick: self.max_speed_units_per_tick,
            rotation_cos: self.rotation_cos,
            rotation_sin: self.rotation_sin,
            current_state: State::Idle,
            current_command: Command::Stop,
            health,
            selected: false,
            genome,
            color: Color::new(),
            team_id: 0,
            food_collected: 0,
            food_carrying: 0,
            damage_inflicted: 0,
        }
    }
}


/// Whether the agent stands within the arrival radius of `p`.
pub open spec fn spec_basically_here(b: Beetle, p: Vec2) -> bool {
    dist_sq(b.position, p) < INTERACT_RANGE_SQ
}

/// Whether the agent can act on something at `p`: close enough and facing
/// it within the angular tolerance.
pub open spec fn spec_can_interact(b: Beetle, p: Vec2) -> bool {
    &&& dist_sq(b.position, p) < INTERACT_RANGE_SQ
    &&& aligned_toward(b.direction, b.position, p)
}

/// Decision for delivering to one particular base: dump when in reach,
/// else walk there.
pub open spec fn spec_deliver(b: Beetle, base: HomeBase) -> Action {
    if spec_can_interact(b, base.position) {
        Action::DumpFood {
            beetle_id: b.id,
            home_base_id: base.id,
            amount: spec_carrying_capacity(b.genome) as u32,
        }
    } else {
        Action::MoveToward { beetle_id: b.id, x: base.position.x, y: base.position.y }
    }
}

/// Decision for delivering to the nearest base, if any exists.
pub open spec fn spec_deliver_closest(b: Beetle, bases: Seq<HomeBase>) -> Action {
    if bases.len() > 0 {
        spec_deliver(b, bases[closest_idx(bases, b.position)])
    } else {
        Action::Nothing { beetle_id: b.id }
    }
}

/// Decision for harvesting one particular source: take a unit while there
/// is room on the back and the source is in reach, walk there while room
/// remains, and otherwise turn around and deliver the load.
pub open spec fn spec_collect(b: Beetle, f: FoodSource, bases: Seq<HomeBase>) -> Action {
    if b.food_carrying < spec_carrying_capacity(b.genome) {
        if spec_can_interact(b, f.position) {
            Action::TakeFood { beetle_id: b.id, food_source_id: f.id, amount: 1 }
        } else {
            Action::MoveToward { beetle_id: b.id, x: f.position.x, y: f.position.y }
        }
    } else {
        spec_deliver_closest(b, bases)
    }
}

/// The one action the agent derives from its standing command against a
/// read-only snapshot of the world. Target resolution order for
/// `Interact` is: another agent, then a food source, then a home base,
/// then — if the id resolves to nothing but food is still carried — the
/// nearest base; ids that resolve to nothing are never an error.
pub open spec fn spec_decide(
    b: Beetle,
    beetles: Seq<Beetle>,
    foods: Seq<FoodSource>,
    bases: Seq<HomeBase>,
) -> Action {
    match b.current_command {
        Command::Move { position } => {
            if spec_basically_here(b, position) {
                Action::Nothing { beetle_id: b.id }
            } else {
                Action::MoveToward { beetle_id: b.id, x: position.x, y: position.y }
            }
        },
        Command::Interact { target_id } => {
            let ti = idx_of(beetles, target_id);
            if ti != -1 {
                let t = beetles[ti];
                if spec_can_interact(b, t.position) {
                    if t.team_id != b.team_id {
                        Action::Attack {
                            source_id: b.id,
                            target_id,
                            attack_power: spec_attack_power(b.genome) as u32,
                        }
                    } else {
                        Action::Nothing { beetle_id: b.id }
                    }
                } else {
                    Action::MoveToward { beetle_id: b.id, x: t.position.x, y: t.position.y }
                }
            } else {
                let fi = idx_of(foods, target_id);
                if fi != -1 {
                    spec_collect(b, foods[fi], bases)
                } else {
                    let hi = idx_of(bases, target_id);
                    if hi != -1 {
                        if b.food_carrying > 0 {
                            spec_deliver(b, bases[hi])
                        } else {
                            Action::Nothing { beetle_id: b.id }
                        }
                    } else if b.food_carrying > 0 {
                        spec_deliver_closest(b, bases)
                    } else {
                        Action::Nothing { beetle_id: b.id }
                    }
                }
            }
        },
        Command::HarvestClosestFood => {
            if foods.len() > 0 {
                spec_collect(b, foods[closest_idx(foods, b.position)], bases)
            } else {
                Action::Nothing { beetle_id: b.id }
            }
        },
        Command::Stop => Action::Nothing { beetle_id: b.id },
    }
}

/// One movement step toward `to`: when the heading is aligned with the
/// bearing within the deadband, advance along the heading by the derived
/// speed (clamped to the field); otherwise rotate the heading one angular
/// step toward the bearing and do not translate. Never both in one tick.
pub open spec fn spec_move_toward(b: Beetle, to: Vec2) -> Beetle {
    if aligned_toward(b.direction, b.position, to) {
        let sp = spec_speed_fp(b.genome, b.max_speed_units_per_tick as int);
        let nx = clamp_spec(
            b.position.x + div_trunc(b.direction.x * sp, FP_ONE as int),
            -POS_LIMIT as int,
            POS_LIMIT as int,
        );
        let ny = clamp_spec(
            b.position.y + div_trunc(b.direction.y * sp, FP_ONE as int),
            -POS_LIMIT as int,
            POS_LIMIT as int,
        );
        Beetle { position: Vec2 { x: nx as i64, y: ny as i64 }, ..b }
    } else {
        let ccw = cross_toward(b.direction, b.position, to) >= 0;
        Beetle {
            direction: rotate_spec(
                b.direction,
                b.rotation_cos as int,
                b.rotation_sin as int,
                ccw,
            ),
            ..b
        }
    }
}

impl Beetle {
    /// Whether the agent has arrived at `position` (within the arrival
    /// radius).
    pub fn basically_here(&self, position: Vec2) -> (r: bool)
        requires
            in_bounds(self.position),
            in_bounds(position),
        ensures
            r == spec_basically_here(*self, position),
    {
        dist_sq_fp(self.position, position) < INTERACT_RANGE_SQ
    }

    /// Whether the agent can act on something at `target_position`.
    fn can_interact(&self, target_position: Vec2) -> (r: bool)
        requires
            in_bounds(self.position),
            dir_ok(self.direction),
            in_bounds(target_position),
        ensures
            r == spec_can_interact(*self, target_position),
    {
        let close: bool = dist_sq_fp(self.position, target_position) < INTERACT_RANGE_SQ;
        close && is_aligned_toward(self.direction, self.position, target_position)
    }

    /// Decision for harvesting `food_source`; see [`spec_collect`].
    fn handle_collect_food_command(
        &self,
        food_source: &FoodSource,
        home_bases: &Vec<HomeBase>,
    ) -> (a: Action)
        requires
            self.wf(),
            in_bounds(food_source.position),
            positions_ok(home_bases@),
        ensures
            a == spec_collect(*self, *food_source, home_bases@),
    {
        let cap: u32 = self.carrying_capacity();
        if self.food_carrying < cap {
            if self.can_interact(food_source.position) {
                Action::TakeFood {
                    beetle_id: self.id,
                    food_source_id: food_source.id,
                    amount: 1,
                }
            } else {
                Action::MoveToward {
                    beetle_id: self.id,
                    x: food_source.position.x,
                    y: food_source.position.y,
                }
            }
        } else {
            self.take_food_to_closest_base(home_bases)
        }
    }

    /// Decision for delivering to the nearest base; see
    /// [`spec_deliver_closest`].
    fn take_food_to_closest_base(&self, home_bases: &Vec<HomeBase>) -> (a: Action)
        requires
            self.wf(),
            positions_ok(home_bases@),
        ensures
            a == spec_deliver_closest(*self, home_bases@),
    {
        match find_closest(self, home_bases) {
            Option::Some(ci) => self.take_food_to_base(&home_bases[ci]),
            Option::None => Action::Nothing { beetle_id: self.id },
        }
    }

    /// Decision for delivering to one base; see [`spec_deliver`].
    fn take_food_to_base(&self, home_base: &HomeBase) -> (a: Action)
        requires
            self.wf(),
            in_bounds(home_base.position),
        ensures
            a == spec_deliver(*self, *home_base),
    {
        if self.can_interact(home_base.position) {
            Action::DumpFood {
                beetle_id: self.id,
                home_base_id: home_base.id,
                amount: self.carrying_capacity(),
            }
        } else {
            Action::MoveToward {
                beetle_id: self.id,
                x: home_base.position.x,
                y: home_base.position.y,
            }
        }
    }

    /// Decision phase of one tick: derives exactly one action from the
    /// standing command and a read-only snapshot of the world.
    pub fn tick(
        &self,
        beetles: &Vec<Beetle>,
        food_sources: &Vec<FoodSource>,
        home_bases: &Vec<HomeBase>,
    ) -> (a: Action)
        requires
            self.wf(),
            positions_ok(beetles@),
            positions_ok(food_sources@),
            positions_ok(home_bases@),
        ensures
            a == spec_decide(*self, beetles@, food_sources@, home_bases@),
    {
        match self.current_command {
            Command::Move { position } => {
                if self.basically_here(position) {
                    Action::Nothing { beetle_id: self.id }
                } else {
                    Action::MoveToward { beetle_id: self.id, x: position.x, y: position.y }
                }
            },
            Command::Interact { target_id } => {
                match find_index_by_id(beetles, target_id) {
                    Option::Some(ti) => {
                        let tpos: Vec2 = beetles[ti].position;
                        let tteam: Id = beetles[ti].team_id;
                        if self.can_interact(tpos) {
                            if tteam != self.team_id {
                                Action::Attack {
                                    source_id: self.id,
                                    target_id,
                                    attack_power: self.attack_power(),
                                }
                            } else {
                                Action::Nothing { beetle_id: self.id }
                            }
                        } else {
                            Action::MoveToward { beetle_id: self.id, x: tpos.x, y: tpos.y }
                        }
                    },
                    Option::None => {
                        match find_index_by_id(food_sources, target_id) {
                            Option::Some(fi) => self.handle_collect_food_command(
                                &food_sources[fi],
                                home_bases,
                            ),
                            Option::None => {
                                match find_index_by_id(home_bases, target_id) {
                                    Option::Some(hi) => {
                                        if self.food_carrying > 0 {
                                            self.take_food_to_base(&home_bases[hi])
                                        } else {
                                            Action::Nothing { beetle_id: self.id }
                                        }
                                    },
                                    Option::None => {
                                        if self.food_carrying > 0 {
                                            self.take_food_to_closest_base(home_bases)
                                        } else {
                                            Action::Nothing { beetle_id: self.id }
                                        }
                                    },
                                }
                            },
                        }
                    },
                }
            },
            Command::HarvestClosestFood => {
                match find_closest(self, food_sources) {
                    Option::Some(ci) => self.handle_collect_food_command(
                        &food_sources[ci],
                        home_bases,
                    ),
                    Option::None => Action::Nothing { beetle_id: self.id },
                }
            },
            Command::Stop => Action::Nothing { beetle_id: self.id },
        }
    }


    /// A field-for-field copy of this agent (the genome copied by value).
    pub fn duplicate(&self) -> (r: Beetle)
        requires
            self.genome.wf(),
        ensures
            r == (Beetle { genome: r.genome, ..*self }),
            r.genome@ == self.genome@,
    {
        Beetle {
            id: self.id,
            position: self.position,
            direction: self.direction,
            max_speed_units_per_tick: self.max_speed_units_per_tick,
            rotation_cos: self.rotation_cos,
            rotation_sin: self.rotation_sin,
            current_state: self.current_state,
            current_command: self.current_command,
            health: self.health,
            selected: self.selected,
            genome: self.genome.duplicate(),
            color: self.color,
            team_id: self.team_id,
            food_collected: self.food_collected,
            food_carrying: self.food_carrying,
            damage_inflicted: self.damage_inflicted,
        }
    }

    /// Resolution of a `MoveToward` action; see [`spec_move_toward`].
    pub fn move_toward(&mut self, a: &Vec2)
        requires
            old(self).wf(),
            in_bounds(*a),
        ensures
            *final(self) == spec_move_toward(*old(self), *a),
            final(self).wf(),
    {
        if is_aligned_toward(self.direction, self.position, *a) {
            let sp: i64 = self.speed();
            proof {
                crate::geom::lemma_mul_bound(self.direction.x as int, sp as int, 1000, 100_000);
                crate::geom::lemma_mul_bound(self.direction.y as int, sp as int, 1000, 100_000);
            }
            let step_x: i64 = div_trunc_fp(self.direction.x * sp, FP_ONE);
            let step_y: i64 = div_trunc_fp(self.direction.y * sp, FP_ONE);
            let nx: i64 = crate::geom::clamp_i64(self.position.x + step_x, -POS_LIMIT, POS_LIMIT);
            let ny: i64 = crate::geom::clamp_i64(self.position.y + step_y, -POS_LIMIT, POS_LIMIT);
            self.position = Vec2 { x: nx, y: ny };
        } else {
            let cr: i64 = cross_toward_fp(self.direction, self.position, *a);
            let ccw: bool = cr >= 0;
            self.direction = rotate_dir(self.direction, self.rotation_cos, self.rotation_sin, ccw);
        }
    }
}
} // verus!
