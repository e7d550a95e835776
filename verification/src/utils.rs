//! Global tuning constants of the simulation, and small shared helpers.
//!
//! All quantities are integers. Lengths and positions are measured in
//! thousandths of a world unit ("milli-units"); ratios are measured in
//! thousandths of one ("permille").

use vstd::prelude::*;

verus! {

/// Scale of one: fixed-point values with this denominator represent 1.0.
pub const FP_ONE: i64 = 1000;

/// One simulation tick lasts 20 ms, so a per-second quantity becomes a
/// per-tick quantity by dividing by 50.
pub const SIMULATION_PERIOD_MS: u64 = 20;

/// Ceiling for an agent's configured top speed: 200 units/s = 4 units/tick,
/// in milli-units per tick.
pub const MAX_SPEED_UNITS_PER_TICK: i64 = 4000;

/// Floor for every agent's speed: 10 units/s = 0.2 units/tick, in
/// milli-units per tick.
pub const MIN_SPEED_UNITS_PER_TICK: i64 = 200;

/// Hard cap on the top speed a builder may configure (milli-units/tick).
pub const SPEED_LIMIT_UNITS_PER_TICK: i64 = 100_000;

/// Cosine of the default per-tick angular step (pi rad/s over one tick,
/// about 0.0628 rad), in permille.
pub const ROTATION_STEP_COS: i64 = 998;

/// Sine of the default per-tick angular step, in permille.
pub const ROTATION_STEP_SIN: i64 = 63;

/// Default population size for the evolutionary strategies.
pub const POPULATION_SIZE: usize = 64;

/// RGB+alpha color attached to each agent, used only by external display
/// collaborators.
#[derive(Clone, Copy, Debug, PartialEq, Eq, Structural)]
pub struct Color {
    pub r: u8,
    pub g: u8,
    pub b: u8,
    pub a: u8,
}

impl Color {
    /// The default green worn by freshly built agents.
    pub fn new() -> (c: Color)
        ensures
            c == (Color { r: 101, g: 224, b: 103, a: 255 }),
    {
        Color { r: 101, g: 224, b: 103, a: 255 }
    }
}

/// Addition on u64 that sticks at the maximum instead of wrapping; used for
/// lifetime counters that only ever grow.
pub fn sat_add_u64(a: u64, b: u64) -> (r: u64)
    ensures
        r == sat_add_spec(a as int, b as int),
{
    if a > u64::MAX - b {
        u64::MAX
    } else {
        a + b
    }
}

/// Mathematical meaning of [`sat_add_u64`].
pub open spec fn sat_add_spec(a: int, b: int) -> int {
    if a + b > u64::MAX {
        u64::MAX as int
    } else {
        a + b
    }
}

/// Addition on u32 that sticks at the maximum instead of wrapping.
pub fn sat_add_u32(a: u32, b: u32) -> (r: u32)
    ensures
        r == sat_add_u32_spec(a as int, b as int),
{
    if a > u32::MAX - b {
        u32::MAX
    } else {
        a + b
    }
}

/// Mathematical meaning of [`sat_add_u32`].
pub open spec fn sat_add_u32_spec(a: int, b: int) -> int {
    if a + b > u32::MAX {
        u32::MAX as int
    } else {
        a + b
    }
}

/// A mutable borrow of one vector element, with the element-update view of
/// the vector's final value.
pub fn vec_index_mut<T>(vec: &mut Vec<T>, i: usize) -> (element: &mut T)
    requires
        0 <= i < old(vec).len(),
    ensures
        *element == old(vec)@[i as int],
        final(vec)@ == old(vec)@.update(i as int, *final(element)),
{
    &mut vec[i]
}

} // verus!
