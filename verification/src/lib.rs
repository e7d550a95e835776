//! A verified simulation of populations of autonomous agents ("beetles")
//! that move, fight, and forage on a 2D field, together with the genetic
//! algorithm that evolves their genetically encoded traits across
//! generations.
//!
//! All geometry is carried out in fixed-point integer arithmetic: positions
//! are measured in thousandths of a world unit, and ratios (genes, angular
//! steps) in thousandths of one. Every public operation carries a contract,
//! and the world-tick engine is specified exactly: one tick first decides an
//! action for every agent against an immutable snapshot, then applies the
//! actions in order.

use vstd::prelude::*;

pub mod utils;
pub mod geom;
pub mod sums;
pub mod rng;
pub mod beetle_genome;
pub mod entities;
pub mod beetle;
pub mod game;
pub mod stats;
pub mod simulation;
pub mod experiment;
pub mod message_handler;

verus! {

/// Identifier for agents, food sources and home bases. The world draws all
/// ids from one monotonic counter starting at 1; 0 is reserved and never
/// assigned.
pub type Id = i64;

} // verus!
