//! The genome: a fixed-length vector of named trait ratios.
//!
//! Each gene is a permille ratio in `0 ..= GENE_SCALE`. The set of genes is
//! fixed for the lifetime of a run; mutation replaces exactly one gene's
//! value and never inserts or removes genes.

use vstd::prelude::*;
use crate::rng::rand_in_range;

verus! {

/// Denominator of a gene ratio: a gene value of `GENE_SCALE` means 1.0.
pub const GENE_SCALE: u32 = 1000;

/// Number of genes in every genome.
pub const NUM_GENES: usize = 7;

/// Names of the genome's positions.
#[derive(Clone, Copy, Debug, PartialEq, Eq, Structural)]
pub enum BeetleGeneIndex {
    CarapaceDensity,
    Strength,
    Quickness,
    Venomosity,
    MandibleSharpness,
    BodyWidth,
    BodyLength,
}

impl BeetleGeneIndex {
    /// The position this gene occupies in the genome vector.
    pub open spec fn as_index(self) -> int {
        match self {
            BeetleGeneIndex::CarapaceDensity => 0,
            BeetleGeneIndex::Strength => 1,
            BeetleGeneIndex::Quickness => 2,
            BeetleGeneIndex::Venomosity => 3,
            BeetleGeneIndex::MandibleSharpness => 4,
            BeetleGeneIndex::BodyWidth => 5,
            BeetleGeneIndex::BodyLength => 6,
        }
    }

    /// Executable form of [`BeetleGeneIndex::as_index`].
    pub fn index(self) -> (r: usize)
        ensures
            r == self.as_index(),
    {
        match self {
            BeetleGeneIndex::CarapaceDensity => 0,
            BeetleGeneIndex::Strength => 1,
            BeetleGeneIndex::Quickness => 2,
            BeetleGeneIndex::Venomosity => 3,
            BeetleGeneIndex::MandibleSharpness => 4,
            BeetleGeneIndex::BodyWidth => 5,
            BeetleGeneIndex::BodyLength => 6,
        }
    }

    /// The gene name at a genome position. A position at or past
    /// [`NUM_GENES`] would be a programming error, so it is excluded here
    /// rather than handled.
    pub fn from_index(val: u64) -> (r: BeetleGeneIndex)
        requires
            val < NUM_GENES,
        ensures
            r.as_index() == val,
    {
        if val == 0 {
            BeetleGeneIndex::CarapaceDensity
        } else if val == 1 {
            BeetleGeneIndex::Strength
        } else if val == 2 {
            BeetleGeneIndex::Quickness
        } else if val == 3 {
            BeetleGeneIndex::Venomosity
        } else if val == 4 {
            BeetleGeneIndex::MandibleSharpness
        } else if val == 5 {
            BeetleGeneIndex::BodyWidth
        } else {
            BeetleGeneIndex::BodyLength
        }
    }
}

/// A fixed-length vector of permille trait ratios.
#[derive(Debug)]
pub struct BeetleGenome {
    genes: Vec<u32>,
}

impl View for BeetleGenome {
    type V = Seq<u32>;

    closed spec fn view(&self) -> Seq<u32> {
        self.genes@
    }
}

impl BeetleGenome {
    /// Structural invariant: exactly [`NUM_GENES`] genes, each a permille
    /// ratio.
    pub open spec fn wf(&self) -> bool {
        &&& self@.len() == NUM_GENES
        &&& forall|i: int| 0 <= i < self@.len() ==> self@[i] <= GENE_SCALE
    }

    /// A genome with every gene at the midpoint ratio 0.5.
    pub fn new() -> (g: BeetleGenome)
        ensures
            g.wf(),
            forall|i: int| 0 <= i < g@.len() ==> g@[i] == 500u32,
    {
        let mut genes: Vec<u32> = Vec::new();
        let mut k: usize = 0;
        while k < NUM_GENES
            invariant
                k <= NUM_GENES,
                genes@.len() == k,
                forall|i: int| 0 <= i < k ==> genes@[i] == 500u32,
            decreases NUM_GENES - k,
        {
            genes.push(500);
            k = k + 1;
        }
        BeetleGenome { genes }
    }

    /// How many genes a genome carries.
    pub fn get_num_genes(&self) -> (n: usize)
        requires
            self.wf(),
        ensures
            n == self@.len(),
            n == NUM_GENES,
    {
        self.genes.len()
    }

    /// A uniformly drawn gene name.
    pub fn get_random_gene_index(&self) -> (r: BeetleGeneIndex)
        requires
            self.wf(),
    {
        let i: u64 = rand_in_range(0, NUM_GENES as u64);
        BeetleGeneIndex::from_index(i)
    }

    /// The value of one gene.
    pub fn get_gene(&self, gene_index: BeetleGeneIndex) -> (r: u32)
        requires
            self.wf(),
        ensures
            r == self@[gene_index.as_index()],
            r <= GENE_SCALE,
    {
        self.genes[gene_index.index()]
    }

    /// Overwrites one gene with a new permille value; all other genes keep
    /// their values.
    pub fn set_gene_value(&mut self, index: BeetleGeneIndex, value: u32)
        requires
            old(self).wf(),
            value <= GENE_SCALE,
        ensures
            final(self).wf(),
            final(self)@ == old(self)@.update(index.as_index(), value),
    {
        let i: usize = index.index();
        self.genes.set(i, value);
    }

    /// Redraws every gene uniformly at random.
    pub fn set_random_genome(&mut self)
        requires
            old(self).wf(),
        ensures
            final(self).wf(),
    {
        let mut k: usize = 0;
        while k < NUM_GENES
            invariant
                k <= NUM_GENES,
                self.wf(),
            decreases NUM_GENES - k,
        {
            let v: u64 = rand_in_range(0, GENE_SCALE as u64 + 1);
            self.set_gene_value(BeetleGeneIndex::from_index(k as u64), v as u32);
            k = k + 1;
        }
    }

    /// Decides the structural invariant, so that outside callers can
    /// check a genome of unknown provenance before using it.
    pub fn is_wf(&self) -> (r: bool)
        ensures
            r == self.wf(),
    {
        if self.genes.len() != NUM_GENES {
            return false;
        }
        let mut k: usize = 0;
        while k < NUM_GENES
            invariant
                self.genes@.len() == NUM_GENES,
                0 <= k <= NUM_GENES,
                forall|i: int| 0 <= i < k ==> self.genes@[i] <= GENE_SCALE,
            decreases NUM_GENES - k,
        {
            if self.genes[k] > GENE_SCALE {
                return false;
            }
            k = k + 1;
        }
        true
    }

    /// A genome with the same gene values.
    pub fn duplicate(&self) -> (g: BeetleGenome)
        requires
            self.wf(),
        ensures
            g.wf(),
            g@ == self@,
    {
        let mut genes: Vec<u32> = Vec::new();
        let mut k: usize = 0;
        while k < self.genes.len()
            invariant
                k <= self.genes.len(),
                genes@.len() == k,
                forall|i: int| 0 <= i < k ==> genes@[i] == self.genes@[i],
            decreases self.genes.len() - k,
        {
            genes.push(self.genes[k]);
            k = k + 1;
        }
        proof {
            assert(genes@ =~= self.genes@);
        }
        BeetleGenome { genes }
    }
}

} // verus!
