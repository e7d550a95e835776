//! Aggregate population statistics emitted after each generation for
//! external charting. The library computes exact integer sums; a display
//! collaborator divides by the count to obtain averages.

use vstd::prelude::*;
use crate::beetle::{
    Beetle, spec_speed_fp, spec_max_health, spec_attack_power, spec_size_permille,
    lemma_stat_bounds, lemma_speed_bounds,
};
use crate::game::beetles_ok;
use crate::sums::{seq_sum, lemma_seq_sum_push};

verus! {

/// Sums of the phenotype and genotype quantities charted per generation,
/// over a whole population.
#[derive(Clone, Copy, Debug, PartialEq, Eq, Structural)]
pub struct ChartSums {
    pub count: usize,
    pub speed_sum: u128,
    pub max_health_sum: u128,
    pub attack_power_sum: u128,
    pub food_collected_sum: u128,
    pub size_sum: u128,
    pub carapace_density_sum: u128,
    pub strength_sum: u128,
    pub quickness_sum: u128,
    pub venomosity_sum: u128,
    pub mandible_sharpness_sum: u128,
    pub body_width_sum: u128,
    pub body_length_sum: u128,
}

/// Projection: derived speed.
pub open spec fn speed_of() -> spec_fn(Beetle) -> int {
    |b: Beetle| spec_speed_fp(b.genome, b.max_speed_units_per_tick as int)
}

/// Projection: derived maximum health.
pub open spec fn max_health_of_fn() -> spec_fn(Beetle) -> int {
    |b: Beetle| spec_max_health(b.genome)
}

/// Projection: derived attack power.
pub open spec fn attack_power_of_fn() -> spec_fn(Beetle) -> int {
    |b: Beetle| spec_attack_power(b.genome)
}

/// Projection: lifetime food delivered.
pub open spec fn food_collected_of() -> spec_fn(Beetle) -> int {
    |b: Beetle| b.food_collected as int
}

/// Projection: derived size permille.
pub open spec fn size_of_fn() -> spec_fn(Beetle) -> int {
    |b: Beetle| spec_size_permille(b.genome)
}

/// Projection: one gene's value.
pub open spec fn gene_of(i: int) -> spec_fn(Beetle) -> int {
    |b: Beetle| crate::beetle::gene(b.genome, i)
}

/// What [`chart_sums`] computes for a population.
pub open spec fn chart_sums_ok(r: ChartSums, s: Seq<Beetle>) -> bool {
    &&& r.count == s.len()
    &&& r.speed_sum == seq_sum(s, speed_of())
    &&& r.max_health_sum == seq_sum(s, max_health_of_fn())
    &&& r.attack_power_sum == seq_sum(s, attack_power_of_fn())
    &&& r.food_collected_sum == seq_sum(s, food_collected_of())
    &&& r.size_sum == seq_sum(s, size_of_fn())
    &&& r.carapace_density_sum == seq_sum(s, gene_of(0))
    &&& r.strength_sum == seq_sum(s, gene_of(1))
    &&& r.quickness_sum == seq_sum(s, gene_of(2))
    &&& r.venomosity_sum == seq_sum(s, gene_of(3))
    &&& r.mandible_sharpness_sum == seq_sum(s, gene_of(4))
    &&& r.body_width_sum == seq_sum(s, gene_of(5))
    &&& r.body_length_sum == seq_sum(s, gene_of(6))
}

/// Computes the exact sums of every charted quantity over the
/// population, in one pass.
pub fn chart_sums(beetles: &Vec<Beetle>) -> (r: ChartSums)
    requires
        beetles_ok(beetles@),
    ensures
        chart_sums_ok(r, beetles@),
{
    let ghost s = beetles@;
    let mut r = ChartSums {
        count: 0,
        speed_sum: 0,
        max_health_sum: 0,
        attack_power_sum: 0,
        food_collected_sum: 0,
        size_sum: 0,
        carapace_density_sum: 0,
        strength_sum: 0,
        quickness_sum: 0,
        venomosity_sum: 0,
        mandible_sharpness_sum: 0,
        body_width_sum: 0,
        body_length_sum: 0,
    };
    proof {
        assert(s.take(0) =~= Seq::<Beetle>::empty());
    }
    let n: usize = beetles.len();
    let mut k: usize = 0;
    while k < n
        invariant
            s == beetles@,
            beetles_ok(s),
            n == s.len(),
            0 <= k <= n,
            chart_sums_ok(r, s.take(k as int)),
            r.speed_sum <= k * 100_000,
            r.max_health_sum <= k * 200,
            r.attack_power_sum <= k * 50,
            r.food_collected_sum <= k * 0xffff_ffff_ffff_ffff,
            r.size_sum <= k * 1000,
            r.carapace_density_sum <= k * 1000,
            r.strength_sum <= k * 1000,
            r.quickness_sum <= k * 1000,
            r.venomosity_sum <= k * 1000,
            r.mandible_sharpness_sum <= k * 1000,
            r.body_width_sum <= k * 1000,
            r.body_length_sum <= k * 1000,
        decreases n - k,
    {
        let b = &beetles[k];
        proof {
            assert(s[k as int].wf());
            lemma_stat_bounds(b.genome);
            lemma_speed_bounds(b.genome, b.max_speed_units_per_tick as int);
            assert(s.take(k + 1) =~= s.take(k as int).push(s[k as int]));
            lemma_seq_sum_push(s.take(k as int), speed_of(), s[k as int]);
            lemma_seq_sum_push(s.take(k as int), max_health_of_fn(), s[k as int]);
            lemma_seq_sum_push(s.take(k as int), attack_power_of_fn(), s[k as int]);
            lemma_seq_sum_push(s.take(k as int), food_collected_of(), s[k as int]);
            lemma_seq_sum_push(s.take(k as int), size_of_fn(), s[k as int]);
            lemma_seq_sum_push(s.take(k as int), gene_of(0), s[k as int]);
            lemma_seq_sum_push(s.take(k as int), gene_of(1), s[k as int]);
            lemma_seq_sum_push(s.take(k as int), gene_of(2), s[k as int]);
            lemma_seq_sum_push(s.take(k as int), gene_of(3), s[k as int]);
            lemma_seq_sum_push(s.take(k as int), gene_of(4), s[k as int]);
            lemma_seq_sum_push(s.take(k as int), gene_of(5), s[k as int]);
            lemma_seq_sum_push(s.take(k as int), gene_of(6), s[k as int]);
        }
        let speed: i64 = b.speed();
        let mh: u32 = b.max_health();
        let ap: u32 = b.attack_power();
        let sz: i64 = b.size();
        r.count = r.count + 1;
        r.speed_sum = r.speed_sum + speed as u128;
        r.max_health_sum = r.max_health_sum + mh as u128;
        r.attack_power_sum = r.attack_power_sum + ap as u128;
        r.food_collected_sum = r.food_collected_sum + b.food_collected as u128;
        r.size_sum = r.size_sum + sz as u128;
        r.carapace_density_sum = r.carapace_density_sum + b.genome.get_gene(
            crate::beetle_genome::BeetleGeneIndex::CarapaceDensity,
        ) as u128;
        r.strength_sum = r.strength_sum + b.genome.get_gene(
            crate::beetle_genome::BeetleGeneIndex::Strength,
        ) as u128;
        r.quickness_sum = r.quickness_sum + b.genome.get_gene(
            crate::beetle_genome::BeetleGeneIndex::Quickness,
        ) as u128;
        r.venomosity_sum = r.venomosity_sum + b.genome.get_gene(
            crate::beetle_genome::BeetleGeneIndex::Venomosity,
        ) as u128;
        r.mandible_sharpness_sum = r.mandible_sharpness_sum + b.genome.get_gene(
            crate::beetle_genome::BeetleGeneIndex::MandibleSharpness,
        ) as u128;
        r.body_width_sum = r.body_width_sum + b.genome.get_gene(
            crate::beetle_genome::BeetleGeneIndex::BodyWidth,
        ) as u128;
        r.body_length_sum = r.body_length_sum + b.genome.get_gene(
            crate::beetle_genome::BeetleGeneIndex::BodyLength,
        ) as u128;
        k = k + 1;
    }
    proof {
        assert(s.take(n as int) =~= s);
    }
    r
}

} // verus!
