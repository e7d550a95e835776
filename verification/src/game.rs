//! The world: command and action vocabulary, the field state owning every
//! entity, and the two-phase tick engine.
//!
//! One tick first derives an action for every agent against an immutable
//! snapshot of the world ([`spec_decisions`]), then applies those actions
//! sequentially in agent storage order ([`spec_apply_seq`]); the whole
//! step is the deterministic function [`spec_tick`], and [`Game::tick`]
//! is proved to compute exactly it.

use vstd::prelude::*;
use crate::Id;
use crate::utils::{sat_add_spec, sat_add_u64, sat_add_u32_spec, sat_add_u32, vec_index_mut, FP_ONE, MIN_SPEED_UNITS_PER_TICK, SPEED_LIMIT_UNITS_PER_TICK};
use crate::geom::{Vec2, in_bounds, clamp_spec, clamp_point, POS_LIMIT, dist_sq, dist_sq_fp};
use crate::beetle::{
    Beetle, spec_decide, spec_move_toward, spec_carrying_capacity, spec_max_health,
    lemma_stat_bounds,
};
use crate::entities::{
    FoodSource, HomeBase, Entity, Positioned, idx_of, lemma_idx_of_props, find_index_by_id,
    positions_ok,
};
use crate::sums::seq_sum;

verus! {

/// First id the world ever assigns; 0 is reserved for downstream encodings
/// that cannot represent a zero id.
pub const STARTING_ID: Id = 1;

/// Coarse activity state of an agent, used by orchestrators to notice
/// agents that need a new directive.
#[derive(Clone, Copy, Debug, PartialEq, Eq, Structural)]
pub enum State {
    Idle,
    Moving,
    Attacking,
}

/// A standing directive given to an agent by the operator or a trainer.
#[derive(Clone, Copy, Debug, PartialEq, Eq, Structural)]
pub enum Command {
    /// Head for a fixed point and stop there.
    Move { position: Vec2 },
    /// Engage whatever entity carries this id: fight an enemy agent,
    /// harvest a food source, or deliver to a home base.
    Interact { target_id: Id },
    /// Keep harvesting whichever food source is nearest.
    HarvestClosestFood,
    /// Do nothing.
    Stop,
}

/// A command is storable if any point it mentions lies on the field.
pub open spec fn command_wf(c: Command) -> bool {
    match c {
        Command::Move { position } => in_bounds(position),
        _ => true,
    }
}

/// The single resolved intent an agent produces for one tick.
#[derive(Clone, Copy, Debug, PartialEq, Eq, Structural)]
pub enum Action {
    /// Turn toward, or advance to, the point `(x, y)`.
    MoveToward { beetle_id: Id, x: i64, y: i64 },
    /// Strike the target for `attack_power` health.
    Attack { source_id: Id, target_id: Id, attack_power: u32 },
    /// Harvest up to `amount` from a food source.
    TakeFood { beetle_id: Id, food_source_id: Id, amount: u32 },
    /// Deliver up to `amount` of carried food to a home base.
    DumpFood { beetle_id: Id, home_base_id: Id, amount: u32 },
    /// Stand down; resets the agent's coarse state to idle.
    Nothing { beetle_id: Id },
}

/// Mathematical snapshot of everything the tick engine reads and writes.
pub ghost struct WorldSnap {
    pub beetles: Seq<Beetle>,
    pub food_sources: Seq<FoodSource>,
    pub home_bases: Seq<HomeBase>,
}

/// Every agent is individually well-formed.
pub open spec fn beetles_ok(s: Seq<Beetle>) -> bool {
    forall|i: int| 0 <= i < s.len() ==> (#[trigger] s[i]).wf()
}

/// Every food source sits on the field and still holds food; exhausted
/// sources are removed by the tick that drains them.
pub open spec fn foods_ok(s: Seq<FoodSource>) -> bool {
    forall|i: int|
        0 <= i < s.len() ==> in_bounds((#[trigger] s[i]).position) && s[i].amount >= 1
}

/// Every home base sits on the field.
pub open spec fn bases_ok(s: Seq<HomeBase>) -> bool {
    forall|i: int| 0 <= i < s.len() ==> in_bounds((#[trigger] s[i]).position)
}

/// No two entities anywhere in the world share an id: ids are unique
/// within each collection and the three id spaces are disjoint.
pub open spec fn ids_distinct(w: WorldSnap) -> bool {
    &&& forall|i: int, j: int|
        0 <= i < j < w.beetles.len() ==> (#[trigger] w.beetles[i].id) != (#[trigger] w.beetles[j].id)
    &&& forall|i: int, j: int|
        0 <= i < j < w.food_sources.len() ==> (#[trigger] w.food_sources[i].id) != (
        #[trigger] w.food_sources[j].id)
    &&& forall|i: int, j: int|
        0 <= i < j < w.home_bases.len() ==> (#[trigger] w.home_bases[i].id) != (
        #[trigger] w.home_bases[j].id)
    &&& forall|i: int, j: int|
        0 <= i < w.beetles.len() && 0 <= j < w.food_sources.len() ==> (#[trigger] w.beetles[i].id)
            != (#[trigger] w.food_sources[j].id)
    &&& forall|i: int, j: int|
        0 <= i < w.beetles.len() && 0 <= j < w.home_bases.len() ==> (#[trigger] w.beetles[i].id)
            != (#[trigger] w.home_bases[j].id)
    &&& forall|i: int, j: int|
        0 <= i < w.food_sources.len() && 0 <= j < w.home_bases.len() ==> (
        #[trigger] w.food_sources[i].id) != (#[trigger] w.home_bases[j].id)
}

/// Every id in the world was drawn from the allocator: at least
/// [`STARTING_ID`] and below the allocator's next value.
pub open spec fn ids_below(w: WorldSnap, bound: Id) -> bool {
    &&& forall|i: int|
        0 <= i < w.beetles.len() ==> STARTING_ID <= (#[trigger] w.beetles[i].id) < bound
    &&& forall|i: int|
        0 <= i < w.food_sources.len() ==> STARTING_ID <= (#[trigger] w.food_sources[i].id) < bound
    &&& forall|i: int|
        0 <= i < w.home_bases.len() ==> STARTING_ID <= (#[trigger] w.home_bases[i].id) < bound
}

/// Well-formedness of a world snapshot.
pub open spec fn snap_wf(w: WorldSnap) -> bool {
    &&& beetles_ok(w.beetles)
    &&& foods_ok(w.food_sources)
    &&& bases_ok(w.home_bases)
    &&& ids_distinct(w)
}

/// What the resolution phase may assume of an action beyond the snapshot's
/// own invariant: a food take must fit on the taker's back. Every action
/// the decision phase produces satisfies this (see [`lemma_decide_ok`]).
pub open spec fn action_ok(w: WorldSnap, a: Action) -> bool {
    match a {
        Action::TakeFood { beetle_id, food_source_id, amount } => {
            let bi = idx_of(w.beetles, beetle_id);
            bi != -1 ==> w.beetles[bi].food_carrying + amount <= spec_carrying_capacity(
                w.beetles[bi].genome,
            )
        },
        _ => true,
    }
}

/// Resolution of one action against the world, exactly as
/// [`FieldState::apply_action`] performs it. A referenced id that no
/// longer resolves makes the action (or the affected part of it) a no-op,
/// never an error.
pub open spec fn spec_apply_action(w: WorldSnap, a: Action) -> WorldSnap {
    match a {
        Action::MoveToward { beetle_id, x, y } => {
            let bi = idx_of(w.beetles, beetle_id);
            if bi == -1 {
                w
            } else {
                let to = Vec2 {
                    x: clamp_spec(x as int, -POS_LIMIT as int, POS_LIMIT as int) as i64,
                    y: clamp_spec(y as int, -POS_LIMIT as int, POS_LIMIT as int) as i64,
                };
                WorldSnap {
                    beetles: w.beetles.update(bi, spec_move_toward(w.beetles[bi], to)),
                    ..w
                }
            }
        },
        Action::Attack { source_id, target_id, attack_power } => {
            let ti = idx_of(w.beetles, target_id);
            let bs1 = if ti == -1 {
                w.beetles
            } else {
                let t = w.beetles[ti];
                let newh = if t.health >= attack_power {
                    (t.health - attack_power) as u32
                } else {
                    0u32
                };
                w.beetles.update(ti, Beetle { health: newh, ..t })
            };
            let si = idx_of(bs1, source_id);
            let bs2 = if si == -1 {
                bs1
            } else {
                bs1.update(
                    si,
                    Beetle {
                        damage_inflicted: sat_add_spec(
                            bs1[si].damage_inflicted as int,
                            attack_power as int,
                        ) as u64,
                        ..bs1[si]
                    },
                )
            };
            let dead = ti != -1 && attack_power >= w.beetles[ti].health;
            let bs3 = if dead {
                bs2.remove(ti)
            } else {
                bs2
            };
            WorldSnap { beetles: bs3, ..w }
        },
        Action::TakeFood { beetle_id, food_source_id, amount } => {
            let fi = idx_of(w.food_sources, food_source_id);
            if fi == -1 {
                w
            } else {
                let f = w.food_sources[fi];
                let collected = if f.amount >= amount {
                    amount
                } else {
                    f.amount
                };
                let newamt = (f.amount - collected) as u32;
                let fs1 = if newamt == 0 {
                    w.food_sources.remove(fi)
                } else {
                    w.food_sources.update(fi, FoodSource { amount: newamt, ..f })
                };
                let bi = idx_of(w.beetles, beetle_id);
                let bs1 = if bi == -1 {
                    w.beetles
                } else {
                    let b = w.beetles[bi];
                    w.beetles.update(
                        bi,
                        Beetle {
                            food_carrying: sat_add_u32_spec(
                                b.food_carrying as int,
                                collected as int,
                            ) as u32,
                            ..b
                        },
                    )
                };
                WorldSnap { beetles: bs1, food_sources: fs1, ..w }
            }
        },
        Action::DumpFood { beetle_id, home_base_id, amount } => {
            let bi = idx_of(w.beetles, beetle_id);
            let hi = idx_of(w.home_bases, home_base_id);
            if bi == -1 || hi == -1 {
                w
            } else {
                let b = w.beetles[bi];
                let transferred = if amount <= b.food_carrying {
                    amount
                } else {
                    b.food_carrying
                };
                let bs1 = w.beetles.update(
                    bi,
                    Beetle {
                        food_carrying: (b.food_carrying - transferred) as u32,
                        food_collected: sat_add_spec(
                            b.food_collected as int,
                            transferred as int,
                        ) as u64,
                        ..b
                    },
                );
                let h = w.home_bases[hi];
                let hs1 = w.home_bases.update(
                    hi,
                    HomeBase {
                        food_stored_amount: sat_add_spec(
                            h.food_stored_amount as int,
                            transferred as int,
                        ) as u64,
                        ..h
                    },
                );
                WorldSnap { beetles: bs1, home_bases: hs1, ..w }
            }
        },
        Action::Nothing { beetle_id } => {
            let bi = idx_of(w.beetles, beetle_id);
            if bi == -1 {
                w
            } else {
                WorldSnap {
                    beetles: w.beetles.update(
                        bi,
                        Beetle { current_state: State::Idle, ..w.beetles[bi] },
                    ),
                    ..w
                }
            }
        },
    }
}

/// Sequential resolution of a list of actions, first to last.
pub open spec fn spec_apply_seq(w: WorldSnap, actions: Seq<Action>) -> WorldSnap
    decreases actions.len(),
{
    if actions.len() == 0 {
        w
    } else {
        spec_apply_seq(spec_apply_action(w, actions[0]), actions.drop_first())
    }
}

/// Appending one action to a list applies it after the rest.
pub proof fn lemma_apply_seq_snoc(w: WorldSnap, s: Seq<Action>, a: Action)
    ensures
        spec_apply_seq(w, s.push(a)) == spec_apply_action(spec_apply_seq(w, s), a),
    decreases s.len(),
{
    if s.len() == 0 {
        assert(s.push(a)[0] == a);
        assert(s.push(a).drop_first() =~= Seq::<Action>::empty());
        assert(spec_apply_seq(spec_apply_action(w, a), Seq::<Action>::empty())
            == spec_apply_action(w, a));
        assert(spec_apply_seq(w, s) == w);
    } else {
        assert(s.push(a)[0] == s[0]);
        assert(s.push(a).drop_first() =~= s.drop_first().push(a));
        assert(spec_apply_seq(w, s.push(a)) == spec_apply_seq(
            spec_apply_action(w, s[0]),
            s.drop_first().push(a),
        ));
        assert(spec_apply_seq(w, s) == spec_apply_seq(spec_apply_action(w, s[0]), s.drop_first()));
        lemma_apply_seq_snoc(spec_apply_action(w, s[0]), s.drop_first(), a);
    }
}

/// The decision phase: one action per agent, each derived against the
/// same immutable snapshot, in agent storage order.
pub open spec fn spec_decisions(w: WorldSnap) -> Seq<Action> {
    Seq::new(
        w.beetles.len(),
        |i: int| spec_decide(w.beetles[i], w.beetles, w.food_sources, w.home_bases),
    )
}

/// One whole tick: decide for every agent against the starting snapshot,
/// then apply the decisions in order.
pub open spec fn spec_tick(w: WorldSnap) -> WorldSnap {
    spec_apply_seq(w, spec_decisions(w))
}

/// Elements of a sequence after removing position `t`.
proof fn lemma_remove_elements<T>(s: Seq<T>, t: int)
    requires
        0 <= t < s.len(),
    ensures
        s.remove(t).len() == s.len() - 1,
        forall|k: int|
            0 <= k < s.len() - 1 ==> #[trigger] s.remove(t)[k] == (if k < t {
                s[k]
            } else {
                s[k + 1]
            }),
{
}

/// Resolution preserves the world invariant, and invents no ids: a
/// well-formed snapshot stays well-formed under any action the decision
/// phase can produce, and ids stay below the allocator bound.
#[verifier::rlimit(90)]
pub proof fn lemma_apply_action_preserves(w: WorldSnap, a: Action, bound: Id)
    requires
        snap_wf(w),
        ids_below(w, bound),
    ensures
        snap_wf(spec_apply_action(w, a)),
        ids_below(spec_apply_action(w, a), bound),
{
    let w2 = spec_apply_action(w, a);
    match a {
        Action::MoveToward { beetle_id, x, y } => {
            let bi = idx_of(w.beetles, beetle_id);
            if bi != -1 {
                lemma_idx_of_props(w.beetles, beetle_id);
                let b = w.beetles[bi];
                let to = Vec2 {
                    x: clamp_spec(x as int, -POS_LIMIT as int, POS_LIMIT as int) as i64,
                    y: clamp_spec(y as int, -POS_LIMIT as int, POS_LIMIT as int) as i64,
                };
                let b2 = spec_move_toward(b, to);
                assert(b2.wf());
                assert(b2.id == b.id);
                assert(forall|k: int|
                    0 <= k < w2.beetles.len() ==> (#[trigger] w2.beetles[k]).id == w.beetles[k].id);
            }
        },
        Action::Attack { source_id, target_id, attack_power } => {
            let ti = idx_of(w.beetles, target_id);
            if ti != -1 {
                lemma_idx_of_props(w.beetles, target_id);
            }
            {
                let bs1 = if ti == -1 {
                    w.beetles
                } else {
                    let t = w.beetles[ti];
                    let newh = if t.health >= attack_power {
                        (t.health - attack_power) as u32
                    } else {
                        0u32
                    };
                    w.beetles.update(ti, Beetle { health: newh, ..t })
                };
                assert(forall|k: int|
                    0 <= k < bs1.len() ==> (#[trigger] bs1[k]).id == w.beetles[k].id);
                assert(beetles_ok(bs1));
                let si = idx_of(bs1, source_id);
                let bs2 = if si == -1 {
                    bs1
                } else {
                    bs1.update(
                        si,
                        Beetle {
                            damage_inflicted: sat_add_spec(
                                bs1[si].damage_inflicted as int,
                                attack_power as int,
                            ) as u64,
                            ..bs1[si]
                        },
                    )
                };
                if si != -1 {
                    lemma_idx_of_props(bs1, source_id);
                }
                assert(forall|k: int|
                    0 <= k < bs2.len() ==> (#[trigger] bs2[k]).id == w.beetles[k].id);
                assert(beetles_ok(bs2));
                let dead = ti != -1 && attack_power >= w.beetles[ti].health;
                if dead {
                    lemma_remove_elements(bs2, ti);
                    let bs3 = bs2.remove(ti);
                    assert forall|k: int| 0 <= k < bs3.len() implies (#[trigger] bs3[k]).wf()
                        && STARTING_ID <= bs3[k].id < bound by {
                        if k < ti {
                            assert(bs3[k] == bs2[k]);
                        } else {
                            assert(bs3[k] == bs2[k + 1]);
                        }
                    }
                    assert forall|i: int, j: int| 0 <= i < j < bs3.len() implies (
                    #[trigger] bs3[i].id) != (#[trigger] bs3[j].id) by {
                        let ii = if i < ti { i } else { i + 1 };
                        let jj = if j < ti { j } else { j + 1 };
                        assert(bs3[i] == bs2[ii]);
                        assert(bs3[j] == bs2[jj]);
                        assert(w.beetles[ii].id != w.beetles[jj].id);
                    }
                    assert forall|i: int, j: int|
                        0 <= i < bs3.len() && 0 <= j < w.food_sources.len() implies (
                    #[trigger] bs3[i].id) != (#[trigger] w.food_sources[j].id) by {
                        let ii = if i < ti { i } else { i + 1 };
                        assert(bs3[i] == bs2[ii]);
                        assert(w.beetles[ii].id != w.food_sources[j].id);
                    }
                    assert forall|i: int, j: int|
                        0 <= i < bs3.len() && 0 <= j < w.home_bases.len() implies (
                    #[trigger] bs3[i].id) != (#[trigger] w.home_bases[j].id) by {
                        let ii = if i < ti { i } else { i + 1 };
                        assert(bs3[i] == bs2[ii]);
                        assert(w.beetles[ii].id != w.home_bases[j].id);
                    }
                }
            }
        },
        Action::TakeFood { beetle_id, food_source_id, amount } => {
            let fi = idx_of(w.food_sources, food_source_id);
            if fi != -1 {
                lemma_idx_of_props(w.food_sources, food_source_id);
                let f = w.food_sources[fi];
                let collected = if f.amount >= amount {
                    amount
                } else {
                    f.amount
                };
                let newamt = (f.amount - collected) as u32;
                let fs1 = if newamt == 0 {
                    w.food_sources.remove(fi)
                } else {
                    w.food_sources.update(fi, FoodSource { amount: newamt, ..f })
                };
                if newamt == 0 {
                    lemma_remove_elements(w.food_sources, fi);
                    assert forall|k: int| 0 <= k < fs1.len() implies in_bounds(
                        (#[trigger] fs1[k]).position,
                    ) && fs1[k].amount >= 1 && STARTING_ID <= fs1[k].id < bound by {
                        if k < fi {
                            assert(fs1[k] == w.food_sources[k]);
                        } else {
                            assert(fs1[k] == w.food_sources[k + 1]);
                        }
                    }
                    assert forall|i: int, j: int| 0 <= i < j < fs1.len() implies (
                    #[trigger] fs1[i].id) != (#[trigger] fs1[j].id) by {
                        let ii = if i < fi { i } else { i + 1 };
                        let jj = if j < fi { j } else { j + 1 };
                        assert(fs1[i] == w.food_sources[ii]);
                        assert(fs1[j] == w.food_sources[jj]);
                        assert(w.food_sources[ii].id != w.food_sources[jj].id);
                    }
                    assert forall|i: int, j: int|
                        0 <= i < w.beetles.len() && 0 <= j < fs1.len() implies (
                    #[trigger] w.beetles[i].id) != (#[trigger] fs1[j].id) by {
                        let jj = if j < fi { j } else { j + 1 };
                        assert(fs1[j] == w.food_sources[jj]);
                        assert(w.beetles[i].id != w.food_sources[jj].id);
                    }
                    assert forall|i: int, j: int|
                        0 <= i < fs1.len() && 0 <= j < w.home_bases.len() implies (
                    #[trigger] fs1[i].id) != (#[trigger] w.home_bases[j].id) by {
                        let ii = if i < fi { i } else { i + 1 };
                        assert(fs1[i] == w.food_sources[ii]);
                        assert(w.food_sources[ii].id != w.home_bases[j].id);
                    }
                } else {
                    assert(forall|k: int|
                        0 <= k < fs1.len() ==> (#[trigger] fs1[k]).id == w.food_sources[k].id);
                }
                let bi = idx_of(w.beetles, beetle_id);
                if bi != -1 {
                    lemma_idx_of_props(w.beetles, beetle_id);
                    assert(forall|k: int|
                        0 <= k < w2.beetles.len() ==> (#[trigger] w2.beetles[k]).id
                            == w.beetles[k].id);
                }
            }
        },
        Action::DumpFood { beetle_id, home_base_id, amount } => {
            let bi = idx_of(w.beetles, beetle_id);
            let hi = idx_of(w.home_bases, home_base_id);
            if bi != -1 && hi != -1 {
                lemma_idx_of_props(w.beetles, beetle_id);
                lemma_idx_of_props(w.home_bases, home_base_id);
                assert(forall|k: int|
                    0 <= k < w2.beetles.len() ==> (#[trigger] w2.beetles[k]).id == w.beetles[k].id);
                assert(forall|k: int|
                    0 <= k < w2.home_bases.len() ==> (#[trigger] w2.home_bases[k]).id
                        == w.home_bases[k].id);
                assert(forall|k: int|
                    0 <= k < w2.home_bases.len() ==> (#[trigger] w2.home_bases[k]).position
                        == w.home_bases[k].position);
            }
        },
        Action::Nothing { beetle_id } => {
            let bi = idx_of(w.beetles, beetle_id);
            if bi != -1 {
                lemma_idx_of_props(w.beetles, beetle_id);
                assert(forall|k: int|
                    0 <= k < w2.beetles.len() ==> (#[trigger] w2.beetles[k]).id == w.beetles[k].id);
            }
        },
    }
}

/// Every action the decision phase derives for agent `i` satisfies
/// [`action_ok`]: in particular a food take always fits within the
/// taker's remaining capacity.
pub proof fn lemma_decide_ok(w: WorldSnap, i: int)
    requires
        snap_wf(w),
        0 <= i < w.beetles.len(),
    ensures
        action_ok(w, spec_decide(w.beetles[i], w.beetles, w.food_sources, w.home_bases)),
{
    let b = w.beetles[i];
    let a = spec_decide(b, w.beetles, w.food_sources, w.home_bases);
    match a {
        Action::TakeFood { beetle_id, food_source_id, amount } => {
            assert(beetle_id == b.id && amount == 1 && b.food_carrying < spec_carrying_capacity(
                b.genome,
            ));
            lemma_idx_of_props(w.beetles, b.id);
            let r = idx_of(w.beetles, b.id);
            assert(w.beetles[i].id_spec() == b.id);
            assert(r != -1);
            assert(w.beetles[r].id == b.id);
            if r != i {
                if r < i {
                    assert(w.beetles[r].id != w.beetles[i].id);
                } else {
                    assert(w.beetles[i].id != w.beetles[r].id);
                }
            }
            assert(w.beetles[r] == b);
        },
        _ => {},
    }
}


/// Resolution never adds agents: every action keeps or shrinks the
/// population.
#[verifier::rlimit(60)]
pub proof fn lemma_apply_action_len(w: WorldSnap, a: Action)
    ensures
        spec_apply_action(w, a).beetles.len() <= w.beetles.len(),
{
    match a {
        Action::Attack { source_id, target_id, attack_power } => {
            let ti = idx_of(w.beetles, target_id);
            if ti != -1 {
                lemma_idx_of_props(w.beetles, target_id);
            }
            let bs1 = if ti == -1 {
                w.beetles
            } else {
                let t = w.beetles[ti];
                let newh = if t.health >= attack_power {
                    (t.health - attack_power) as u32
                } else {
                    0u32
                };
                w.beetles.update(ti, Beetle { health: newh, ..t })
            };
            assert(bs1.len() == w.beetles.len());
            let si = idx_of(bs1, source_id);
            if si != -1 {
                lemma_idx_of_props(bs1, source_id);
            }
            let bs2 = if si == -1 {
                bs1
            } else {
                bs1.update(
                    si,
                    Beetle {
                        damage_inflicted: sat_add_spec(
                            bs1[si].damage_inflicted as int,
                            attack_power as int,
                        ) as u64,
                        ..bs1[si]
                    },
                )
            };
            assert(bs2.len() == w.beetles.len());
            let dead = ti != -1 && attack_power >= w.beetles[ti].health;
            if dead {
                assert(bs2.remove(ti).len() == bs2.len() - 1);
            }
        },
        Action::MoveToward { beetle_id, x, y } => {
            let bi = idx_of(w.beetles, beetle_id);
            if bi != -1 {
                lemma_idx_of_props(w.beetles, beetle_id);
            }
        },
        Action::TakeFood { beetle_id, food_source_id, amount } => {
            let fi = idx_of(w.food_sources, food_source_id);
            if fi != -1 {
                lemma_idx_of_props(w.food_sources, food_source_id);
                let bi = idx_of(w.beetles, beetle_id);
                if bi != -1 {
                    lemma_idx_of_props(w.beetles, beetle_id);
                }
            }
        },
        Action::DumpFood { beetle_id, home_base_id, amount } => {
            let bi = idx_of(w.beetles, beetle_id);
            let hi = idx_of(w.home_bases, home_base_id);
            if bi != -1 && hi != -1 {
                lemma_idx_of_props(w.beetles, beetle_id);
                lemma_idx_of_props(w.home_bases, home_base_id);
            }
        },
        Action::Nothing { beetle_id } => {
            let bi = idx_of(w.beetles, beetle_id);
            if bi != -1 {
                lemma_idx_of_props(w.beetles, beetle_id);
            }
        },
    }
}

/// A whole sequence of actions never adds agents.
pub proof fn lemma_apply_seq_len(w: WorldSnap, actions: Seq<Action>)
    ensures
        spec_apply_seq(w, actions).beetles.len() <= w.beetles.len(),
    decreases actions.len(),
{
    if actions.len() > 0 {
        lemma_apply_action_len(w, actions[0]);
        lemma_apply_seq_len(spec_apply_action(w, actions[0]), actions.drop_first());
    }
}


/// Two populations with pointwise equal ids agree on every id lookup.
pub proof fn lemma_idx_of_same_ids(s1: Seq<Beetle>, s2: Seq<Beetle>, id: Id)
    requires
        s1.len() == s2.len(),
        forall|k: int| 0 <= k < s1.len() ==> (#[trigger] s1[k]).id == s2[k].id,
    ensures
        idx_of(s1, id) == idx_of(s2, id),
    decreases s1.len(),
{
    if s1.len() > 0 {
        assert(s1[0].id == s2[0].id);
        assert(forall|k: int|
            0 <= k < s1.drop_first().len() ==> (#[trigger] s1.drop_first()[k]).id
                == s1[k + 1].id);
        assert(forall|k: int|
            0 <= k < s2.drop_first().len() ==> (#[trigger] s2.drop_first()[k]).id
                == s2[k + 1].id);
        lemma_idx_of_same_ids(s1.drop_first(), s2.drop_first(), id);
    }
}

/// Resolution invents no agents: an id present after an action was
/// present before it.
#[verifier::rlimit(60)]
pub proof fn lemma_apply_action_ids_subset(w: WorldSnap, a: Action, id: Id)
    requires
        idx_of(spec_apply_action(w, a).beetles, id) != -1,
    ensures
        idx_of(w.beetles, id) != -1,
{
    let w2 = spec_apply_action(w, a);
    lemma_idx_of_props(w2.beetles, id);
    let r = idx_of(w2.beetles, id);
    assert(w2.beetles[r].id_spec() == id);
    lemma_idx_of_props(w.beetles, id);
    if idx_of(w.beetles, id) == -1 {
        // every element of the resolved world carries an id of the old one
        match a {
            Action::Attack { source_id, target_id, attack_power } => {
                let ti = idx_of(w.beetles, target_id);
                if ti != -1 {
                    lemma_idx_of_props(w.beetles, target_id);
                }
                let bs1 = if ti == -1 {
                    w.beetles
                } else {
                    let t = w.beetles[ti];
                    let newh = if t.health >= attack_power {
                        (t.health - attack_power) as u32
                    } else {
                        0u32
                    };
                    w.beetles.update(ti, Beetle { health: newh, ..t })
                };
                assert(forall|k: int|
                    0 <= k < bs1.len() ==> (#[trigger] bs1[k]).id == w.beetles[k].id);
                let si = idx_of(bs1, source_id);
                if si != -1 {
                    lemma_idx_of_props(bs1, source_id);
                }
                let bs2 = if si == -1 {
                    bs1
                } else {
                    bs1.update(
                        si,
                        Beetle {
                            damage_inflicted: sat_add_spec(
                                bs1[si].damage_inflicted as int,
                                attack_power as int,
                            ) as u64,
                            ..bs1[si]
                        },
                    )
                };
                assert(forall|k: int|
                    0 <= k < bs2.len() ==> (#[trigger] bs2[k]).id == w.beetles[k].id);
                let dead = ti != -1 && attack_power >= w.beetles[ti].health;
                if dead {
                    lemma_remove_elements(bs2, ti);
                    if r < ti {
                        assert(w2.beetles[r] == bs2[r]);
                        assert(w.beetles[r].id_spec() != id);
                    } else {
                        assert(w2.beetles[r] == bs2[r + 1]);
                        assert(w.beetles[r + 1].id_spec() != id);
                    }
                } else {
                    assert(w.beetles[r].id_spec() != id);
                }
            },
            Action::MoveToward { beetle_id, x, y } => {
                let bi = idx_of(w.beetles, beetle_id);
                if bi != -1 {
                    lemma_idx_of_props(w.beetles, beetle_id);
                }
                assert(forall|k: int|
                    0 <= k < w2.beetles.len() ==> (#[trigger] w2.beetles[k]).id
                        == w.beetles[k].id);
                assert(w.beetles[r].id_spec() != id);
            },
            Action::TakeFood { beetle_id, food_source_id, amount } => {
                let fi = idx_of(w.food_sources, food_source_id);
                if fi != -1 {
                    lemma_idx_of_props(w.food_sources, food_source_id);
                    let bi = idx_of(w.beetles, beetle_id);
                    if bi != -1 {
                        lemma_idx_of_props(w.beetles, beetle_id);
                    }
                }
                assert(forall|k: int|
                    0 <= k < w2.beetles.len() ==> (#[trigger] w2.beetles[k]).id
                        == w.beetles[k].id);
                assert(w.beetles[r].id_spec() != id);
            },
            Action::DumpFood { beetle_id, home_base_id, amount } => {
                let bi = idx_of(w.beetles, beetle_id);
                let hi = idx_of(w.home_bases, home_base_id);
                if bi != -1 && hi != -1 {
                    lemma_idx_of_props(w.beetles, beetle_id);
                    lemma_idx_of_props(w.home_bases, home_base_id);
                }
                assert(forall|k: int|
                    0 <= k < w2.beetles.len() ==> (#[trigger] w2.beetles[k]).id
                        == w.beetles[k].id);
                assert(w.beetles[r].id_spec() != id);
            },
            Action::Nothing { beetle_id } => {
                let bi = idx_of(w.beetles, beetle_id);
                if bi != -1 {
                    lemma_idx_of_props(w.beetles, beetle_id);
                }
                assert(forall|k: int|
                    0 <= k < w2.beetles.len() ==> (#[trigger] w2.beetles[k]).id
                        == w.beetles[k].id);
                assert(w.beetles[r].id_spec() != id);
            },
        }
    }
}

/// A whole sequence of resolutions invents no agents.
pub proof fn lemma_apply_seq_ids_subset(w: WorldSnap, actions: Seq<Action>, id: Id)
    requires
        idx_of(spec_apply_seq(w, actions).beetles, id) != -1,
    ensures
        idx_of(w.beetles, id) != -1,
    decreases actions.len(),
{
    if actions.len() > 0 {
        lemma_apply_seq_ids_subset(spec_apply_action(w, actions[0]), actions.drop_first(), id);
        lemma_apply_action_ids_subset(w, actions[0], id);
    }
}

/// An agent absent from the world stays absent under any further
/// resolution: in particular, once a lethal strike has removed an agent
/// mid-tick, it is absent from the tick's final world and every later
/// one.
pub proof fn lemma_absent_stays_absent(w: WorldSnap, actions: Seq<Action>, id: Id)
    requires
        idx_of(w.beetles, id) == -1,
    ensures
        idx_of(spec_apply_seq(w, actions).beetles, id) == -1,
{
    if idx_of(spec_apply_seq(w, actions).beetles, id) != -1 {
        lemma_apply_seq_ids_subset(w, actions, id);
    }
}


/// No agent holds an interact command, so no decision can be an attack:
/// a purely foraging or racing world.
pub open spec fn no_interact_commands(s: Seq<Beetle>) -> bool {
    forall|i: int|
        0 <= i < s.len() ==> !((#[trigger] s[i]).current_command matches Command::Interact { .. })
}

/// An agent without an interact command never decides to attack.
#[verifier::rlimit(60)]
pub proof fn lemma_decide_not_attack(w: WorldSnap, i: int)
    requires
        0 <= i < w.beetles.len(),
        !(w.beetles[i].current_command matches Command::Interact { .. }),
    ensures
        !(spec_decisions(w)[i] matches Action::Attack { .. }),
{
    assert(spec_decisions(w)[i] == spec_decide(
        w.beetles[i],
        w.beetles,
        w.food_sources,
        w.home_bases,
    ));
}

/// Any action other than an attack keeps the population's size and every
/// agent's standing command.
#[verifier::rlimit(60)]
pub proof fn lemma_apply_non_attack_commands(w: WorldSnap, a: Action)
    requires
        !(a matches Action::Attack { .. }),
    ensures
        spec_apply_action(w, a).beetles.len() == w.beetles.len(),
        forall|k: int|
            0 <= k < w.beetles.len() ==> (#[trigger] spec_apply_action(
                w,
                a,
            ).beetles[k]).current_command == w.beetles[k].current_command,
{
    let w2 = spec_apply_action(w, a);
    match a {
        Action::MoveToward { beetle_id, x, y } => {
            let bi = idx_of(w.beetles, beetle_id);
            if bi != -1 {
                lemma_idx_of_props(w.beetles, beetle_id);
            }
        },
        Action::TakeFood { beetle_id, food_source_id, amount } => {
            let fi = idx_of(w.food_sources, food_source_id);
            if fi != -1 {
                lemma_idx_of_props(w.food_sources, food_source_id);
                let bi = idx_of(w.beetles, beetle_id);
                if bi != -1 {
                    lemma_idx_of_props(w.beetles, beetle_id);
                }
            }
        },
        Action::DumpFood { beetle_id, home_base_id, amount } => {
            let bi = idx_of(w.beetles, beetle_id);
            let hi = idx_of(w.home_bases, home_base_id);
            if bi != -1 && hi != -1 {
                lemma_idx_of_props(w.beetles, beetle_id);
                lemma_idx_of_props(w.home_bases, home_base_id);
            }
        },
        Action::Nothing { beetle_id } => {
            let bi = idx_of(w.beetles, beetle_id);
            if bi != -1 {
                lemma_idx_of_props(w.beetles, beetle_id);
            }
        },
        Action::Attack { source_id, target_id, attack_power } => {},
    }
}

/// A sequence of non-attack actions keeps the population's size and
/// every agent's standing command.
pub proof fn lemma_apply_seq_no_attack(w: WorldSnap, actions: Seq<Action>)
    requires
        forall|t: int|
            0 <= t < actions.len() ==> !((#[trigger] actions[t]) matches Action::Attack { .. }),
    ensures
        spec_apply_seq(w, actions).beetles.len() == w.beetles.len(),
        forall|k: int|
            0 <= k < w.beetles.len() ==> (#[trigger] spec_apply_seq(
                w,
                actions,
            ).beetles[k]).current_command == w.beetles[k].current_command,
    decreases actions.len(),
{
    if actions.len() > 0 {
        lemma_apply_non_attack_commands(w, actions[0]);
        assert(forall|t: int|
            0 <= t < actions.drop_first().len() ==> (#[trigger] actions.drop_first()[t])
                == actions[t + 1]);
        lemma_apply_seq_no_attack(spec_apply_action(w, actions[0]), actions.drop_first());
    }
}

/// A tick of a world with no interact commands — a pure race or foraging
/// run — removes no agent and leaves every standing command in place, so
/// such a world keeps its population size across any number of ticks.
pub proof fn lemma_peaceful_tick(w: WorldSnap)
    requires
        no_interact_commands(w.beetles),
    ensures
        spec_tick(w).beetles.len() == w.beetles.len(),
        no_interact_commands(spec_tick(w).beetles),
{
    let acts = spec_decisions(w);
    assert forall|t: int| 0 <= t < acts.len() implies !((#[trigger] acts[t])
        matches Action::Attack { .. }) by {
        lemma_decide_not_attack(w, t);
    }
    lemma_apply_seq_no_attack(w, acts);
    assert forall|i: int| 0 <= i < spec_tick(w).beetles.len() implies !((
    #[trigger] spec_tick(w).beetles[i]).current_command matches Command::Interact { .. }) by {
        assert(spec_tick(w).beetles[i].current_command == w.beetles[i].current_command);
    }
}

/// The world's entities and the operator's current selection.
#[derive(Debug)]
pub struct FieldState {
    pub beetles: Vec<Beetle>,
    pub food_sources: Vec<FoodSource>,
    pub home_bases: Vec<HomeBase>,
    pub selected_beetles: Vec<Id>,
}

impl FieldState {
    /// The mathematical snapshot of this state.
    pub open spec fn snap(&self) -> WorldSnap {
        WorldSnap {
            beetles: self.beetles@,
            food_sources: self.food_sources@,
            home_bases: self.home_bases@,
        }
    }

    /// The food-source table.
    pub fn get_food_sources(&self) -> (r: &Vec<FoodSource>)
        ensures
            r@ == self.food_sources@,
    {
        &self.food_sources
    }

    /// The home-base table.
    pub fn get_home_bases(&self) -> (r: &Vec<HomeBase>)
        ensures
            r@ == self.home_bases@,
    {
        &self.home_bases
    }

    /// Resolution of one action, mutating the world exactly as
    /// [`spec_apply_action`] describes; the selection is untouched.
    pub fn apply_action(&mut self, action: Action)
        requires
            snap_wf(old(self).snap()),
        ensures
            final(self).snap() == spec_apply_action(old(self).snap(), action),
            final(self).selected_beetles@ == old(self).selected_beetles@,
    {
        match action {
            Action::MoveToward { beetle_id, x, y } => {
                match find_index_by_id(&self.beetles, beetle_id) {
                    Option::Some(bi) => {
                        let to: Vec2 = clamp_point(Vec2 { x, y });
                        let b = vec_index_mut(&mut self.beetles, bi);
                        b.move_toward(&to);
                    },
                    Option::None => {},
                }
            },
            Action::Attack { source_id, target_id, attack_power } => {
                let target_idx: Option<usize> = find_index_by_id(&self.beetles, target_id);
                let mut dead: bool = false;
                match target_idx {
                    Option::Some(ti) => {
                        let t = vec_index_mut(&mut self.beetles, ti);
                        dead = t.take_damage(attack_power);
                    },
                    Option::None => {},
                }
                match find_index_by_id(&self.beetles, source_id) {
                    Option::Some(si) => {
                        let s = vec_index_mut(&mut self.beetles, si);
                        let cur: u64 = s.damage_inflicted;
                        s.damage_inflicted = sat_add_u64(cur, attack_power as u64);
                    },
                    Option::None => {},
                }
                if dead {
                    match target_idx {
                        Option::Some(ti) => {
                            let _ = self.beetles.remove(ti);
                        },
                        Option::None => {},
                    }
                }
            },
            Action::TakeFood { beetle_id, food_source_id, amount } => {
                let ghost w = self.snap();
                match find_index_by_id(&self.food_sources, food_source_id) {
                    Option::Some(fi) => {
                        let collected: u32;
                        let empty: bool;
                        {
                            let f = vec_index_mut(&mut self.food_sources, fi);
                            collected = f.reduce_food(amount);
                            empty = f.amount() == 0;
                        }
                        if empty {
                            let _ = self.food_sources.remove(fi);
                            proof {
                                assert(self.food_sources@ =~= w.food_sources.remove(fi as int));
                            }
                        }
                        match find_index_by_id(&self.beetles, beetle_id) {
                            Option::Some(bi) => {
                                let b = vec_index_mut(&mut self.beetles, bi);
                                let cur: u32 = b.food_carrying;
                                b.food_carrying = sat_add_u32(cur, collected);
                            },
                            Option::None => {},
                        }
                    },
                    Option::None => {},
                }
            },
            Action::DumpFood { beetle_id, home_base_id, amount } => {
                match find_index_by_id(&self.beetles, beetle_id) {
                    Option::Some(bi) => {
                        match find_index_by_id(&self.home_bases, home_base_id) {
                            Option::Some(hi) => {
                                let transferred: u32;
                                {
                                    let b = vec_index_mut(&mut self.beetles, bi);
                                    let carrying: u32 = b.food_carrying;
                                    transferred = if amount <= carrying {
                                        amount
                                    } else {
                                        carrying
                                    };
                                    b.food_carrying = carrying - transferred;
                                    let cur: u64 = b.food_collected;
                                    b.food_collected = sat_add_u64(cur, transferred as u64);
                                }
                                let h = vec_index_mut(&mut self.home_bases, hi);
                                let stored: u64 = h.food_stored_amount;
                                h.food_stored_amount = sat_add_u64(stored, transferred as u64);
                            },
                            Option::None => {},
                        }
                    },
                    Option::None => {},
                }
            },
            Action::Nothing { beetle_id } => {
                match find_index_by_id(&self.beetles, beetle_id) {
                    Option::Some(bi) => {
                        let b = vec_index_mut(&mut self.beetles, bi);
                        b.current_state = State::Idle;
                    },
                    Option::None => {},
                }
            },
        }
    }
}

/// The one source of ids in a world: a monotonic counter starting at
/// [`STARTING_ID`]. All id assignment goes through [`IdAllocator::fresh`].
#[derive(Debug)]
pub struct IdAllocator {
    pub next: Id,
}

impl IdAllocator {
    /// A fresh allocator.
    pub fn new() -> (r: IdAllocator)
        ensures
            r.next == STARTING_ID,
    {
        IdAllocator { next: STARTING_ID }
    }

    /// Hands out the next id, which is never handed out again.
    pub fn fresh(&mut self) -> (id: Id)
        requires
            old(self).next < i64::MAX,
        ensures
            id == old(self).next,
            final(self).next == old(self).next + 1,
    {
        let id: Id = self.next;
        self.next = self.next + 1;
        id
    }
}

/// The world plus its id allocator.
#[derive(Debug)]
pub struct Game {
    pub field_state: FieldState,
    pub ids: IdAllocator,
}

/// Invariant of a whole game: the snapshot is well-formed and every id
/// was drawn from the allocator.
pub open spec fn game_wf(g: Game) -> bool {
    &&& snap_wf(g.field_state.snap())
    &&& ids_below(g.field_state.snap(), g.ids.next)
    &&& STARTING_ID <= g.ids.next
}

impl Game {
    /// An empty world.
    pub fn new() -> (g: Game)
        ensures
            game_wf(g),
            g.field_state.beetles@.len() == 0,
            g.field_state.food_sources@.len() == 0,
            g.field_state.home_bases@.len() == 0,
            g.field_state.selected_beetles@.len() == 0,
            g.ids.next == STARTING_ID,
    {
        Game {
            field_state: FieldState {
                beetles: Vec::new(),
                food_sources: Vec::new(),
                home_bases: Vec::new(),
                selected_beetles: Vec::new(),
            },
            ids: IdAllocator::new(),
        }
    }

    /// Draws the next fresh id.
    pub fn get_next_id(&mut self) -> (id: Id)
        requires
            old(self).ids.next < i64::MAX,
        ensures
            id == old(self).ids.next,
            final(self).ids.next == old(self).ids.next + 1,
            final(self).field_state == old(self).field_state,
    {
        self.ids.fresh()
    }

    /// One tick of the world: every agent decides an action against the
    /// starting snapshot, then the actions are applied in storage order.
    /// The result is exactly [`spec_tick`] of the starting snapshot.
    pub fn tick(&mut self)
        requires
            game_wf(*old(self)),
        ensures
            game_wf(*final(self)),
            final(self).field_state.snap() == spec_tick(old(self).field_state.snap()),
            final(self).field_state.beetles@.len() <= old(self).field_state.beetles@.len(),
            final(self).ids == old(self).ids,
            final(self).field_state.selected_beetles@ == old(self).field_state.selected_beetles@,
    {
        let ghost w0 = self.field_state.snap();
        proof {
            assert forall|i: int| 0 <= i < w0.beetles.len() implies in_bounds(
                #[trigger] w0.beetles[i].pos_spec(),
            ) by {
                assert(w0.beetles[i].wf());
            }
            assert forall|i: int| 0 <= i < w0.food_sources.len() implies in_bounds(
                #[trigger] w0.food_sources[i].pos_spec(),
            ) by {
                assert(in_bounds(w0.food_sources[i].position));
            }
            assert forall|i: int| 0 <= i < w0.home_bases.len() implies in_bounds(
                #[trigger] w0.home_bases[i].pos_spec(),
            ) by {
                assert(in_bounds(w0.home_bases[i].position));
            }
        }
        let mut actions: Vec<Action> = Vec::new();
        let n: usize = self.field_state.beetles.len();
        let mut i: usize = 0;
        while i < n
            invariant
                self.field_state.snap() == w0,
                snap_wf(w0),
                positions_ok(w0.beetles),
                positions_ok(w0.food_sources),
                positions_ok(w0.home_bases),
                n == w0.beetles.len(),
                0 <= i <= n,
                actions@.len() == i,
                forall|k: int|
                    0 <= k < i ==> #[trigger] actions@[k] == spec_decisions(w0)[k],
            decreases n - i,
        {
            let a: Action = self.field_state.beetles[i].tick(
                &self.field_state.beetles,
                &self.field_state.food_sources,
                &self.field_state.home_bases,
            );
            actions.push(a);
            i = i + 1;
        }
        proof {
            assert(actions@ =~= spec_decisions(w0));
        }
        let ghost acts = spec_decisions(w0);
        let ghost bound = self.ids.next;
        let mut j: usize = 0;
        while j < actions.len()
            invariant
                actions@ == acts,
                acts == spec_decisions(w0),
                snap_wf(w0),
                ids_below(w0, bound),
                bound == self.ids.next,
                0 <= j <= acts.len(),
                acts.len() == w0.beetles.len(),
                self.field_state.snap() == spec_apply_seq(w0, acts.take(j as int)),
                snap_wf(self.field_state.snap()),
                ids_below(self.field_state.snap(), bound),
                self.field_state.selected_beetles@ == old(self).field_state.selected_beetles@,
                self.ids == old(self).ids,
            decreases acts.len() - j,
        {
            let a: Action = actions[j];
            let ghost wcur = self.field_state.snap();
            self.field_state.apply_action(a);
            proof {
                lemma_apply_action_preserves(wcur, a, bound);
                assert(acts.take(j + 1) =~= acts.take(j as int).push(acts[j as int]));
                lemma_apply_seq_snoc(w0, acts.take(j as int), acts[j as int]);
            }
            j = j + 1;
        }
        proof {
            assert(acts.take(acts.len() as int) =~= acts);
            lemma_apply_seq_len(w0, acts);
        }
    }
}


/// A replacement population is admissible for a game when every agent is
/// well-formed and its id was drawn from the game's allocator and clashes
/// with no other id anywhere.
pub open spec fn population_ok(g: Game, pop: Seq<Beetle>) -> bool {
    &&& beetles_ok(pop)
    &&& forall|i: int, j: int|
        0 <= i < j < pop.len() ==> (#[trigger] pop[i].id) != (#[trigger] pop[j].id)
    &&& forall|i: int| 0 <= i < pop.len() ==> STARTING_ID <= (#[trigger] pop[i].id) < g.ids.next
    &&& forall|i: int, j: int|
        0 <= i < pop.len() && 0 <= j < g.field_state.food_sources@.len() ==> (
        #[trigger] pop[i].id) != (#[trigger] g.field_state.food_sources@[j].id)
    &&& forall|i: int, j: int|
        0 <= i < pop.len() && 0 <= j < g.field_state.home_bases@.len() ==> (#[trigger] pop[i].id)
            != (#[trigger] g.field_state.home_bases@[j].id)
}

/// What commanding the selection means: exactly the agents whose ids
/// stand in the selection list carry the command afterward; every other
/// agent is untouched; nothing else about the world changes.
pub open spec fn selection_commanded(g0: Game, g1: Game, command: Command) -> bool {
    let s0 = g0.field_state.beetles@;
    let sel = g0.field_state.selected_beetles@;
    &&& g1.field_state.beetles@.len() == s0.len()
    &&& forall|i: int|
        0 <= i < s0.len() ==> (#[trigger] g1.field_state.beetles@[i]) == (
        if id_in_selection(sel, sel.len() as int, s0[i].id) {
            Beetle { current_command: command, ..s0[i] }
        } else {
            s0[i]
        })
    &&& g1.field_state.food_sources@ == g0.field_state.food_sources@
    &&& g1.field_state.home_bases@ == g0.field_state.home_bases@
    &&& g1.field_state.selected_beetles@ == g0.field_state.selected_beetles@
}

/// Whether a point lies in the axis-aligned box.
pub open spec fn in_box(p: Vec2, x_low: int, y_low: int, x_high: int, y_high: int) -> bool {
    &&& x_low <= p.x <= x_high
    &&& y_low <= p.y <= y_high
}

/// The ids of the agents inside the box, from position `j` on, in
/// storage order.
pub open spec fn in_box_ids(
    s: Seq<Beetle>,
    j: int,
    x_low: int,
    y_low: int,
    x_high: int,
    y_high: int,
) -> Seq<Id>
    decreases s.len() - j,
{
    if j < 0 || j >= s.len() {
        Seq::empty()
    } else {
        let rest = in_box_ids(s, j + 1, x_low, y_low, x_high, y_high);
        if in_box(s[j].position, x_low, y_low, x_high, y_high) {
            seq![s[j].id] + rest
        } else {
            rest
        }
    }
}

/// The id belongs to some agent of `s0` standing inside the box.
pub open spec fn box_member_ok(
    id: Id,
    s0: Seq<Beetle>,
    x_low: int,
    y_low: int,
    x_high: int,
    y_high: int,
) -> bool {
    exists|i: int|
        0 <= i < s0.len() && id == (#[trigger] s0[i]).id && in_box(
            s0[i].position,
            x_low,
            y_low,
            x_high,
            y_high,
        )
}

/// Accumulator of the bounding-box scan: the running (x_low, y_low,
/// x_high, y_high) after folding in the selected agents from position
/// `j` on; selection entries that resolve to no agent are skipped.
pub open spec fn bbox_from(
    beetles: Seq<Beetle>,
    sel: Seq<Id>,
    j: int,
    acc: (int, int, int, int),
) -> (int, int, int, int)
    decreases sel.len() - j,
{
    if j < 0 || j >= sel.len() {
        acc
    } else {
        let bi = idx_of(beetles, sel[j]);
        let acc2 = if bi == -1 {
            acc
        } else {
            let p = beetles[bi].position;
            (
                if (p.x as int) < acc.0 {
                    p.x as int
                } else {
                    acc.0
                },
                if (p.y as int) < acc.1 {
                    p.y as int
                } else {
                    acc.1
                },
                if (p.x as int) > acc.2 {
                    p.x as int
                } else {
                    acc.2
                },
                if (p.y as int) > acc.3 {
                    p.y as int
                } else {
                    acc.3
                },
            )
        };
        bbox_from(beetles, sel, j + 1, acc2)
    }
}

/// The bounding box of the selected agents, starting from the inverted
/// empty box.
pub open spec fn spec_selected_bbox(g: Game) -> (int, int, int, int) {
    bbox_from(
        g.field_state.beetles@,
        g.field_state.selected_beetles@,
        0,
        (POS_LIMIT as int, POS_LIMIT as int, -POS_LIMIT as int, -POS_LIMIT as int),
    )
}

/// What a move-style order to the selection means: exactly the agents
/// whose ids stand in the selection list end up under some on-field
/// move command, untouched otherwise; nothing else changes.
pub open spec fn selection_sent_moving(g0: Game, g1: Game) -> bool {
    let s0 = g0.field_state.beetles@;
    let sel = g0.field_state.selected_beetles@;
    &&& g1.field_state.beetles@.len() == s0.len()
    &&& forall|i: int|
        0 <= i < s0.len() ==> {
            let b1 = #[trigger] g1.field_state.beetles@[i];
            if id_in_selection(sel, sel.len() as int, s0[i].id) {
                b1 == (Beetle { current_command: b1.current_command, ..s0[i] })
                    && (b1.current_command matches Command::Move { .. })
            } else {
                b1 == s0[i]
            }
        }
    &&& g1.field_state.food_sources@ == g0.field_state.food_sources@
    &&& g1.field_state.home_bases@ == g0.field_state.home_bases@
    &&& g1.field_state.selected_beetles@ == g0.field_state.selected_beetles@
}

/// Whether `id` occurs among the first `upto` entries of the selection.
pub open spec fn id_in_selection(sel: Seq<Id>, upto: int, id: Id) -> bool {
    exists|k: int| 0 <= k < upto && sel[k] == id
}

impl Game {
    /// Replaces the whole population with an admissible one.
    pub fn set_population(&mut self, population: Vec<Beetle>)
        requires
            game_wf(*old(self)),
            population_ok(*old(self), population@),
        ensures
            game_wf(*final(self)),
            final(self).field_state.beetles@ == population@,
            final(self).field_state.food_sources@ == old(self).field_state.food_sources@,
            final(self).field_state.home_bases@ == old(self).field_state.home_bases@,
            final(self).field_state.selected_beetles@ == old(self).field_state.selected_beetles@,
            final(self).ids == old(self).ids,
    {
        self.field_state.beetles = population;
    }

    /// Spawns `population_size` agents with random genomes and random
    /// positions in the starting square, ids drawn from `ids`.
    pub fn generate_random_population(
        population_size: usize,
        max_speed: i64,
        rotation_cos: i64,
        rotation_sin: i64,
        ids: &mut IdAllocator,
    ) -> (beetles: Vec<Beetle>)
        requires
            MIN_SPEED_UNITS_PER_TICK <= max_speed <= SPEED_LIMIT_UNITS_PER_TICK,
            0 <= rotation_cos <= FP_ONE,
            0 <= rotation_sin <= FP_ONE,
            old(ids).next + population_size < i64::MAX,
            STARTING_ID <= old(ids).next,
        ensures
            beetles@.len() == population_size,
            final(ids).next == old(ids).next + population_size,
            beetles_ok(beetles@),
            forall|i: int|
                0 <= i < beetles@.len() ==> (#[trigger] beetles@[i]).id == old(ids).next + i,
            forall|i: int| 0 <= i < beetles@.len() ==> (#[trigger] beetles@[i]).team_id == 0,
            forall|i: int|
                0 <= i < beetles@.len() ==> 0 <= (#[trigger] beetles@[i]).position.x < 500_000
                    && 0 <= beetles@[i].position.y < 500_000,
            forall|i: int|
                0 <= i < beetles@.len() ==> (#[trigger] beetles@[i]).max_speed_units_per_tick
                    == max_speed && beetles@[i].rotation_cos == rotation_cos
                    && beetles@[i].rotation_sin == rotation_sin,
    {
        let mut beetles: Vec<Beetle> = Vec::new();
        let mut k: usize = 0;
        while k < population_size
            invariant
                0 <= k <= population_size,
                beetles@.len() == k,
                ids.next == old(ids).next + k,
                old(ids).next + population_size < i64::MAX,
                STARTING_ID <= old(ids).next,
                MIN_SPEED_UNITS_PER_TICK <= max_speed <= SPEED_LIMIT_UNITS_PER_TICK,
                0 <= rotation_cos <= FP_ONE,
                0 <= rotation_sin <= FP_ONE,
                beetles_ok(beetles@),
                forall|i: int|
                    0 <= i < k ==> (#[trigger] beetles@[i]).id == old(ids).next + i,
                forall|i: int| 0 <= i < k ==> (#[trigger] beetles@[i]).team_id == 0,
                forall|i: int|
                    0 <= i < k ==> 0 <= (#[trigger] beetles@[i]).position.x < 500_000 && 0
                        <= beetles@[i].position.y < 500_000,
                forall|i: int|
                    0 <= i < k ==> (#[trigger] beetles@[i]).max_speed_units_per_tick == max_speed
                        && beetles@[i].rotation_cos == rotation_cos && beetles@[i].rotation_sin
                        == rotation_sin,
            decreases population_size - k,
        {
            let id: Id = ids.fresh();
            let mut genome = crate::beetle_genome::BeetleGenome::new();
            genome.set_random_genome();
            // starting square [0, 500) units, drawn in milli-units
            let x: i64 = crate::rng::rand_in_range(0, 500_000) as i64;
            let y: i64 = crate::rng::rand_in_range(0, 500_000) as i64;
            let mut beetle: Beetle = crate::beetle::BeetleBuilder::new()
                .max_speed_units_per_tick(max_speed)
                .rotation_step_per_tick(rotation_cos, rotation_sin)
                .x_pos(x)
                .y_pos(y)
                .genome(genome)
                .build();
            beetle.id = id;
            beetles.push(beetle);
            k = k + 1;
        }
        beetles
    }

    /// Replaces the population with a fresh random one.
    pub fn set_random_population(
        &mut self,
        population_size: usize,
        max_speed: i64,
        rotation_cos: i64,
        rotation_sin: i64,
    )
        requires
            game_wf(*old(self)),
            MIN_SPEED_UNITS_PER_TICK <= max_speed <= SPEED_LIMIT_UNITS_PER_TICK,
            0 <= rotation_cos <= FP_ONE,
            0 <= rotation_sin <= FP_ONE,
            old(self).ids.next + population_size < i64::MAX,
        ensures
            game_wf(*final(self)),
            final(self).field_state.beetles@.len() == population_size,
    {
        let beetles: Vec<Beetle> = Game::generate_random_population(
            population_size,
            max_speed,
            rotation_cos,
            rotation_sin,
            &mut self.ids,
        );
        self.field_state.beetles = beetles;
    }

    /// Marks one agent as selected and adds it to the selection list; an
    /// id that resolves to no agent changes nothing.
    pub fn select_beetle(&mut self, beetle_id: Id)
        requires
            game_wf(*old(self)),
        ensures
            game_wf(*final(self)),
            final(self).ids == old(self).ids,
            final(self).field_state.food_sources@ == old(self).field_state.food_sources@,
            final(self).field_state.home_bases@ == old(self).field_state.home_bases@,
            ({
                let bi = idx_of(old(self).field_state.beetles@, beetle_id);
                if bi == -1 {
                    &&& final(self).field_state.beetles@ == old(self).field_state.beetles@
                    &&& final(self).field_state.selected_beetles@ == old(
                        self,
                    ).field_state.selected_beetles@
                } else {
                    &&& final(self).field_state.beetles@ == old(
                        self,
                    ).field_state.beetles@.update(
                        bi,
                        Beetle { selected: true, ..old(self).field_state.beetles@[bi] },
                    )
                    &&& final(self).field_state.selected_beetles@ == old(
                        self,
                    ).field_state.selected_beetles@.push(beetle_id)
                }
            }),
    {
        match find_index_by_id(&self.field_state.beetles, beetle_id) {
            Option::Some(bi) => {
                {
                    let b = vec_index_mut(&mut self.field_state.beetles, bi);
                    b.selected = true;
                }
                proof {
                    assert(forall|k: int|
                        0 <= k < self.field_state.beetles@.len() ==> (
                        #[trigger] self.field_state.beetles@[k]).id
                            == old(self).field_state.beetles@[k].id);
                }
                self.field_state.selected_beetles.push(beetle_id);
            },
            Option::None => {},
        }
    }

    /// Clears the selection and every agent's selection flag; nothing
    /// else about any agent changes.
    pub fn deselect_all_beetles(&mut self)
        requires
            game_wf(*old(self)),
        ensures
            game_wf(*final(self)),
            final(self).ids == old(self).ids,
            final(self).field_state.selected_beetles@.len() == 0,
            final(self).field_state.food_sources@ == old(self).field_state.food_sources@,
            final(self).field_state.home_bases@ == old(self).field_state.home_bases@,
            final(self).field_state.beetles@.len() == old(self).field_state.beetles@.len(),
            forall|i: int|
                0 <= i < final(self).field_state.beetles@.len() ==> (
                #[trigger] final(self).field_state.beetles@[i]) == (Beetle {
                    selected: false,
                    ..old(self).field_state.beetles@[i]
                }),
    {
        let n: usize = self.field_state.beetles.len();
        let mut k: usize = 0;
        while k < n
            invariant
                game_wf(*self),
                self.ids == old(self).ids,
                n == self.field_state.beetles@.len(),
                0 <= k <= n,
                self.field_state.food_sources@ == old(self).field_state.food_sources@,
                self.field_state.home_bases@ == old(self).field_state.home_bases@,
                self.field_state.beetles@.len() == old(self).field_state.beetles@.len(),
                forall|i: int|
                    0 <= i < k ==> (#[trigger] self.field_state.beetles@[i]) == (Beetle {
                        selected: false,
                        ..old(self).field_state.beetles@[i]
                    }),
                forall|i: int|
                    k <= i < n ==> (#[trigger] self.field_state.beetles@[i]) == old(
                        self,
                    ).field_state.beetles@[i],
            decreases n - k,
        {
            let ghost before = self.field_state.beetles@;
            {
                let b = vec_index_mut(&mut self.field_state.beetles, k);
                b.selected = false;
            }
            proof {
                assert(forall|j: int|
                    0 <= j < self.field_state.beetles@.len() ==> (
                    #[trigger] self.field_state.beetles@[j]).id == before[j].id);
                assert(forall|j: int|
                    0 <= j < self.field_state.beetles@.len() ==> (
                    #[trigger] self.field_state.beetles@[j]).wf());
            }
            k = k + 1;
        }
        self.field_state.selected_beetles = Vec::new();
    }

    /// Selects exactly the agents inside the axis-aligned box spanned by
    /// the two corners (coordinates in milli-units).
    pub fn select_all_in_area(&mut self, x1: i64, y1: i64, x2: i64, y2: i64)
        requires
            game_wf(*old(self)),
            -POS_LIMIT <= x1 <= POS_LIMIT,
            -POS_LIMIT <= y1 <= POS_LIMIT,
            -POS_LIMIT <= x2 <= POS_LIMIT,
            -POS_LIMIT <= y2 <= POS_LIMIT,
        ensures
            game_wf(*final(self)),
            final(self).ids == old(self).ids,
            ({
                let s0 = old(self).field_state.beetles@;
                let xl = if x1 < x2 { x1 as int } else { x2 as int };
                let xh = if x1 < x2 { x2 as int } else { x1 as int };
                let yl = if y1 < y2 { y1 as int } else { y2 as int };
                let yh = if y1 < y2 { y2 as int } else { y1 as int };
                &&& final(self).field_state.beetles@.len() == s0.len()
                &&& forall|i: int|
                    0 <= i < s0.len() ==> (#[trigger] final(self).field_state.beetles@[i]) == (
                    Beetle { selected: in_box(s0[i].position, xl, yl, xh, yh), ..s0[i] })
                &&& final(self).field_state.selected_beetles@ == in_box_ids(
                    s0,
                    0,
                    xl,
                    yl,
                    xh,
                    yh,
                )
            }),
    {
        let ghost s0 = old(self).field_state.beetles@;
        let x_low: i64 = if x1 < x2 { x1 } else { x2 };
        let x_high: i64 = if x1 < x2 { x2 } else { x1 };
        let y_low: i64 = if y1 < y2 { y1 } else { y2 };
        let y_high: i64 = if y1 < y2 { y2 } else { y1 };
        self.deselect_all_beetles();
        let ghost s1 = self.field_state.beetles@;
        proof {
            assert(forall|i: int|
                0 <= i < s0.len() ==> (#[trigger] s1[i]) == (Beetle {
                    selected: false,
                    ..s0[i]
                }));
        }
        let n: usize = self.field_state.beetles.len();
        let mut k: usize = 0;
        let mut chosen: Vec<Id> = Vec::new();
        proof {
            assert(in_box_ids(s0, n as int, x_low as int, y_low as int, x_high as int, y_high as int)
                =~= Seq::<Id>::empty());
        }
        while k < n
            invariant
                game_wf(*self),
                self.ids == old(self).ids,
                s1 == self.field_state.beetles@,
                s0.len() == s1.len(),
                forall|i: int|
                    0 <= i < s0.len() ==> (#[trigger] s1[i]) == (Beetle {
                        selected: false,
                        ..s0[i]
                    }),
                self.field_state.selected_beetles@.len() == 0,
                n == s1.len(),
                0 <= k <= n,
                chosen@ + in_box_ids(
                    s0,
                    k as int,
                    x_low as int,
                    y_low as int,
                    x_high as int,
                    y_high as int,
                ) == in_box_ids(s0, 0, x_low as int, y_low as int, x_high as int, y_high as int),
                forall|t: int|
                    0 <= t < chosen@.len() ==> #[trigger] box_member_ok(
                        chosen@[t],
                        s0,
                        x_low as int,
                        y_low as int,
                        x_high as int,
                        y_high as int,
                    ),
                forall|i: int|
                    0 <= i < k && in_box(
                        (#[trigger] s0[i]).position,
                        x_low as int,
                        y_low as int,
                        x_high as int,
                        y_high as int,
                    ) ==> id_in_selection(chosen@, chosen@.len() as int, s0[i].id),
            decreases n - k,
        {
            let inside: bool;
            let id: Id;
            {
                let b = &self.field_state.beetles[k];
                inside = b.position.x >= x_low && b.position.x <= x_high && b.position.y >= y_low
                    && b.position.y <= y_high;
                id = b.id;
            }
            let ghost chosen_before = chosen@;
            if inside {
                chosen.push(id);
            }
            proof {
                assert(s1[k as int] == (Beetle { selected: false, ..s0[k as int] }));
                assert(inside == in_box(
                    s0[k as int].position,
                    x_low as int,
                    y_low as int,
                    x_high as int,
                    y_high as int,
                ));
                assert(in_box_ids(s0, k as int, x_low as int, y_low as int, x_high as int, y_high as int)
                    == (if in_box(
                    s0[k as int].position,
                    x_low as int,
                    y_low as int,
                    x_high as int,
                    y_high as int,
                ) {
                    seq![s0[k as int].id] + in_box_ids(
                        s0,
                        k + 1,
                        x_low as int,
                        y_low as int,
                        x_high as int,
                        y_high as int,
                    )
                } else {
                    in_box_ids(s0, k + 1, x_low as int, y_low as int, x_high as int, y_high as int)
                }));
                if inside {
                    assert(chosen@ =~= chosen_before + seq![s0[k as int].id]);
                    assert(chosen@[chosen@.len() - 1] == s0[k as int].id);
                    assert(box_member_ok(
                        chosen@[chosen@.len() - 1],
                        s0,
                        x_low as int,
                        y_low as int,
                        x_high as int,
                        y_high as int,
                    ));
                    assert((chosen_before + seq![s0[k as int].id]) + in_box_ids(
                        s0,
                        k + 1,
                        x_low as int,
                        y_low as int,
                        x_high as int,
                        y_high as int,
                    ) =~= chosen_before + (seq![s0[k as int].id] + in_box_ids(
                        s0,
                        k + 1,
                        x_low as int,
                        y_low as int,
                        x_high as int,
                        y_high as int,
                    )));
                    assert(id_in_selection(chosen@, chosen@.len() as int, s0[k as int].id));
                }
                assert forall|i: int|
                    0 <= i < k + 1 && in_box(
                        (#[trigger] s0[i]).position,
                        x_low as int,
                        y_low as int,
                        x_high as int,
                        y_high as int,
                    ) implies id_in_selection(chosen@, chosen@.len() as int, s0[i].id) by {
                    if i < k {
                        assert(id_in_selection(chosen_before, chosen_before.len() as int, s0[i].id));
                        let t = choose|t: int|
                            0 <= t < chosen_before.len() && chosen_before[t] == s0[i].id;
                        assert(chosen@[t] == s0[i].id);
                    }
                }
            }
            k = k + 1;
        }
        proof {
            assert(chosen@ + Seq::<Id>::empty() =~= chosen@);
            assert(chosen@.take(0) =~= Seq::<Id>::empty());
            assert(self.field_state.selected_beetles@ =~= chosen@.take(0));
            assert forall|i: int| 0 <= i < s0.len() implies (
            #[trigger] self.field_state.beetles@[i]) == (Beetle {
                selected: id_in_selection(chosen@, 0, s0[i].id),
                ..s0[i]
            }) by {
                assert(!id_in_selection(chosen@, 0, s0[i].id));
                assert(s1[i] == (Beetle { selected: false, ..s0[i] }));
            }
        }
        let ghost target_sel = chosen@;
        let m: usize = chosen.len();
        let mut j: usize = 0;
        while j < m
            invariant
                game_wf(*self),
                self.ids == old(self).ids,
                target_sel == chosen@,
                m == chosen@.len(),
                0 <= j <= m,
                s0.len() == self.field_state.beetles@.len(),
                self.field_state.selected_beetles@ == chosen@.take(j as int),
                forall|t: int|
                    0 <= t < chosen@.len() ==> #[trigger] box_member_ok(
                        chosen@[t],
                        s0,
                        x_low as int,
                        y_low as int,
                        x_high as int,
                        y_high as int,
                    ),
                forall|i: int|
                    0 <= i < s0.len() ==> (#[trigger] self.field_state.beetles@[i]) == (Beetle {
                        selected: id_in_selection(chosen@, j as int, s0[i].id),
                        ..s0[i]
                    }),
            decreases m - j,
        {
            let ghost before = self.field_state.beetles@;
            let cid: Id = chosen[j];
            proof {
                // the chosen id belongs to some agent, so selection will land
                assert(box_member_ok(
                    chosen@[j as int],
                    s0,
                    x_low as int,
                    y_low as int,
                    x_high as int,
                    y_high as int,
                ));
                let i0 = choose|i: int|
                    0 <= i < s0.len() && cid == (#[trigger] s0[i]).id && in_box(
                        s0[i].position,
                        x_low as int,
                        y_low as int,
                        x_high as int,
                        y_high as int,
                    );
                assert(self.field_state.beetles@[i0].id_spec() == cid);
                lemma_idx_of_props(self.field_state.beetles@, cid);
            }
            self.select_beetle(cid);
            proof {
                let bi = idx_of(before, cid);
                assert(bi != -1);
                assert(chosen@.take(j + 1) =~= chosen@.take(j as int).push(chosen@[j as int]));
                assert forall|i: int| 0 <= i < s0.len() implies (
                #[trigger] self.field_state.beetles@[i]) == (Beetle {
                    selected: id_in_selection(chosen@, j + 1, s0[i].id),
                    ..s0[i]
                }) by {
                    assert(before[i] == (Beetle {
                        selected: id_in_selection(chosen@, j as int, s0[i].id),
                        ..s0[i]
                    }));
                    if i == bi {
                        assert(before[bi].id == s0[i].id);
                        assert(cid == s0[i].id);
                        assert(id_in_selection(chosen@, j + 1, s0[i].id));
                    } else {
                        assert(self.field_state.beetles@[i] == before[i]);
                        if id_in_selection(chosen@, j + 1, s0[i].id)
                            && !id_in_selection(chosen@, j as int, s0[i].id) {
                            assert(chosen@[j as int] == s0[i].id);
                            assert(before[bi].id == cid);
                            assert(s0[bi].id == s0[i].id);
                            if bi < i {
                                assert(s0[bi].id != s0[i].id);
                            } else {
                                assert(s0[i].id != s0[bi].id);
                            }
                        }
                    }
                }
            }
            j = j + 1;
        }
        proof {
            assert(chosen@.take(m as int) =~= chosen@);
            assert forall|i: int| 0 <= i < s0.len() implies (
            #[trigger] self.field_state.beetles@[i]) == (Beetle {
                selected: in_box(
                    s0[i].position,
                    x_low as int,
                    y_low as int,
                    x_high as int,
                    y_high as int,
                ),
                ..s0[i]
            }) by {
                if id_in_selection(chosen@, chosen@.len() as int, s0[i].id) && !in_box(
                    s0[i].position,
                    x_low as int,
                    y_low as int,
                    x_high as int,
                    y_high as int,
                ) {
                    let t = choose|t: int|
                        0 <= t < chosen@.len() && chosen@[t] == s0[i].id;
                    assert(box_member_ok(
                        chosen@[t],
                        s0,
                        x_low as int,
                        y_low as int,
                        x_high as int,
                        y_high as int,
                    ));
                    let i2 = choose|i2: int|
                        0 <= i2 < s0.len() && chosen@[t] == (#[trigger] s0[i2]).id && in_box(
                            s0[i2].position,
                            x_low as int,
                            y_low as int,
                            x_high as int,
                            y_high as int,
                        );
                    if i2 < i {
                        assert(old(self).field_state.beetles@[i2].id != old(
                            self,
                        ).field_state.beetles@[i].id);
                    } else if i < i2 {
                        assert(old(self).field_state.beetles@[i].id != old(
                            self,
                        ).field_state.beetles@[i2].id);
                    }
                }
            }
        }
    }

    /// Gives every selected agent a move command toward the point, or —
    /// with more than one agent selected — moves the whole selection as a
    /// rigid formation.
    pub fn selected_move_command(&mut self, x: i64, y: i64)
        requires
            game_wf(*old(self)),
        ensures
            game_wf(*final(self)),
            final(self).ids == old(self).ids,
            selection_sent_moving(*old(self), *final(self)),
    {
        let ghost s0 = self.field_state.beetles@;
        let ghost sel = self.field_state.selected_beetles@;
        if self.field_state.selected_beetles.len() == 1 {
            let target: Vec2 = clamp_point(Vec2 { x, y });
            let id: Id = self.field_state.selected_beetles[0];
            let ghost j: int = 0;
            match find_index_by_id(&self.field_state.beetles, id) {
                Option::Some(bi) => {
                    let ghost before = self.field_state.beetles@;
                    {
                        let b = vec_index_mut(&mut self.field_state.beetles, bi);
                        b.set_command(Command::Move { position: target });
                    }
                    proof {
                        assert(forall|i2: int|
                            0 <= i2 < self.field_state.beetles@.len() ==> (
                            #[trigger] self.field_state.beetles@[i2]).id == before[i2].id);
                        assert forall|i: int| 0 <= i < s0.len() implies ({
                            let b1 = #[trigger] self.field_state.beetles@[i];
                            if id_in_selection(sel, j + 1, s0[i].id) {
                                b1 == (Beetle { current_command: b1.current_command, ..s0[i] })
                                    && (b1.current_command matches Command::Move { .. })
                            } else {
                                b1 == s0[i]
                            }
                        }) by {
                            if i == bi {
                                assert(before[bi as int].id == s0[i].id);
                                assert(sel[j as int] == s0[i].id);
                                assert(id_in_selection(sel, j + 1, s0[i].id));
                            } else {
                                assert(self.field_state.beetles@[i] == before[i]);
                                if id_in_selection(sel, j + 1, s0[i].id)
                                    && !id_in_selection(sel, j as int, s0[i].id) {
                                    assert(sel[j as int] == s0[i].id);
                                    assert(before[bi as int].id == s0[i].id);
                                    assert(s0[bi as int].id == s0[i].id);
                                    if (bi as int) < i {
                                        assert(s0[bi as int].id != s0[i].id);
                                    } else {
                                        assert(s0[i].id != s0[bi as int].id);
                                    }
                                }
                            }
                        }
                    }
                },
                Option::None => {
                    proof {
                        crate::entities::lemma_idx_of_props(self.field_state.beetles@, id);
                        assert forall|i: int| 0 <= i < s0.len() implies ({
                            let b1 = #[trigger] self.field_state.beetles@[i];
                            if id_in_selection(sel, j + 1, s0[i].id) {
                                b1 == (Beetle { current_command: b1.current_command, ..s0[i] })
                                    && (b1.current_command matches Command::Move { .. })
                            } else {
                                b1 == s0[i]
                            }
                        }) by {
                            if id_in_selection(sel, j + 1, s0[i].id)
                                && !id_in_selection(sel, j as int, s0[i].id) {
                                assert(sel[j as int] == s0[i].id);
                                assert(self.field_state.beetles@[i].id_spec() == s0[i].id);
                            }
                        }
                    }
                },
            }
        } else {
            self.move_in_formation(x, y);
        }
    }

    /// Issues an interact command toward `target_id` to every selected
    /// agent; no other agent's command changes.
    pub fn selected_interact_command(&mut self, target_id: Id)
        requires
            game_wf(*old(self)),
        ensures
            game_wf(*final(self)),
            final(self).ids == old(self).ids,
            selection_commanded(*old(self), *final(self), Command::Interact { target_id }),
    {
        self.selected_set_command(Command::Interact { target_id });
    }

    /// Issues the standing harvest command to every selected agent.
    pub fn selected_harvest_command(&mut self)
        requires
            game_wf(*old(self)),
        ensures
            game_wf(*final(self)),
            final(self).ids == old(self).ids,
            selection_commanded(*old(self), *final(self), Command::HarvestClosestFood),
    {
        self.selected_set_command(Command::HarvestClosestFood);
    }

    /// Stops every selected agent.
    pub fn selected_stop_command(&mut self)
        requires
            game_wf(*old(self)),
        ensures
            game_wf(*final(self)),
            final(self).ids == old(self).ids,
            selection_commanded(*old(self), *final(self), Command::Stop),
    {
        self.selected_set_command(Command::Stop);
    }

    /// Installs one storable command on every selected agent: exactly the
    /// agents whose ids stand in the selection list get the command;
    /// every other agent is untouched.
    fn selected_set_command(&mut self, command: Command)
        requires
            game_wf(*old(self)),
            command_wf(command),
        ensures
            game_wf(*final(self)),
            final(self).ids == old(self).ids,
            selection_commanded(*old(self), *final(self), command),
    {
        let ghost s0 = self.field_state.beetles@;
        let ghost sel = self.field_state.selected_beetles@;
        let m: usize = self.field_state.selected_beetles.len();
        let mut j: usize = 0;
        while j < m
            invariant
                game_wf(*self),
                command_wf(command),
                self.ids == old(self).ids,
                s0 == old(self).field_state.beetles@,
                sel == self.field_state.selected_beetles@,
                sel == old(self).field_state.selected_beetles@,
                m == sel.len(),
                0 <= j <= m,
                self.field_state.beetles@.len() == s0.len(),
                self.field_state.food_sources@ == old(self).field_state.food_sources@,
                self.field_state.home_bases@ == old(self).field_state.home_bases@,
                forall|i: int|
                    0 <= i < s0.len() ==> (#[trigger] self.field_state.beetles@[i]) == (
                    if id_in_selection(sel, j as int, s0[i].id) {
                        Beetle { current_command: command, ..s0[i] }
                    } else {
                        s0[i]
                    }),
            decreases m - j,
        {
            let id: Id = self.field_state.selected_beetles[j];
            let ghost before = self.field_state.beetles@;
            match find_index_by_id(&self.field_state.beetles, id) {
                Option::Some(bi) => {
                    {
                        let b = vec_index_mut(&mut self.field_state.beetles, bi);
                        b.set_command(command);
                    }
                    proof {
                        assert(forall|k: int|
                            0 <= k < self.field_state.beetles@.len() ==> (
                            #[trigger] self.field_state.beetles@[k]).id == before[k].id);
                        assert forall|i: int| 0 <= i < s0.len() implies (
                        #[trigger] self.field_state.beetles@[i]) == (
                        if id_in_selection(sel, j + 1, s0[i].id) {
                            Beetle { current_command: command, ..s0[i] }
                        } else {
                            s0[i]
                        }) by {
                            assert(before[i].id == s0[i].id);
                            if i == bi {
                                assert(sel[j as int] == s0[i].id);
                                assert(id_in_selection(sel, j + 1, s0[i].id));
                            } else {
                                assert(self.field_state.beetles@[i] == before[i]);
                                if id_in_selection(sel, j + 1, s0[i].id)
                                    && !id_in_selection(sel, j as int, s0[i].id) {
                                    assert(sel[j as int] == s0[i].id);
                                    assert(self.field_state.beetles@[bi as int].id == s0[i].id);
                                    assert(s0[bi as int].id == s0[i].id);
                                    if (bi as int) < i {
                                        assert(s0[bi as int].id != s0[i].id);
                                    } else {
                                        assert(s0[i].id != s0[bi as int].id);
                                    }
                                }
                            }
                        }
                    }
                },
                Option::None => {
                    proof {
                        crate::entities::lemma_idx_of_props(self.field_state.beetles@, id);
                        assert forall|i: int| 0 <= i < s0.len() implies (
                        #[trigger] self.field_state.beetles@[i]) == (
                        if id_in_selection(sel, j + 1, s0[i].id) {
                            Beetle { current_command: command, ..s0[i] }
                        } else {
                            s0[i]
                        }) by {
                            if id_in_selection(sel, j + 1, s0[i].id)
                                && !id_in_selection(sel, j as int, s0[i].id) {
                                assert(sel[j as int] == s0[i].id);
                                assert(self.field_state.beetles@[i].id_spec() == s0[i].id);
                            }
                        }
                    }
                },
            }
            j = j + 1;
        }
    }

    /// The bounding box of the selected agents, as (x_low, y_low, x_high,
    /// y_high), exactly the fold [`spec_selected_bbox`] describes; with
    /// nothing selected the box is inverted-empty.
    pub fn calculate_selected_bounding_box(&self) -> (r: (i64, i64, i64, i64))
        requires
            game_wf(*self),
        ensures
            -POS_LIMIT <= r.0 <= POS_LIMIT,
            -POS_LIMIT <= r.1 <= POS_LIMIT,
            -POS_LIMIT <= r.2 <= POS_LIMIT,
            -POS_LIMIT <= r.3 <= POS_LIMIT,
            (r.0 as int, r.1 as int, r.2 as int, r.3 as int) == spec_selected_bbox(*self),
    {
        let ghost s = self.field_state.beetles@;
        let ghost sel = self.field_state.selected_beetles@;
        let mut x_low: i64 = POS_LIMIT;
        let mut y_low: i64 = POS_LIMIT;
        let mut x_high: i64 = -POS_LIMIT;
        let mut y_high: i64 = -POS_LIMIT;
        let m: usize = self.field_state.selected_beetles.len();
        let mut j: usize = 0;
        while j < m
            invariant
                game_wf(*self),
                s == self.field_state.beetles@,
                sel == self.field_state.selected_beetles@,
                m == sel.len(),
                0 <= j <= m,
                -POS_LIMIT <= x_low <= POS_LIMIT,
                -POS_LIMIT <= y_low <= POS_LIMIT,
                -POS_LIMIT <= x_high <= POS_LIMIT,
                -POS_LIMIT <= y_high <= POS_LIMIT,
                bbox_from(s, sel, j as int, (x_low as int, y_low as int, x_high as int, y_high as int))
                    == spec_selected_bbox(*self),
            decreases m - j,
        {
            let id: Id = self.field_state.selected_beetles[j];
            match find_index_by_id(&self.field_state.beetles, id) {
                Option::Some(bi) => {
                    let b = &self.field_state.beetles[bi];
                    proof {
                        assert(b.wf());
                    }
                    if b.position.x < x_low {
                        x_low = b.position.x;
                    }
                    if b.position.x > x_high {
                        x_high = b.position.x;
                    }
                    if b.position.y < y_low {
                        y_low = b.position.y;
                    }
                    if b.position.y > y_high {
                        y_high = b.position.y;
                    }
                },
                Option::None => {},
            }
            j = j + 1;
        }
        (x_low, y_low, x_high, y_high)
    }

    /// Arranges the selected agents into a rectangular formation anchored
    /// at the upper-left corner of their bounding box.
    pub fn create_formation(&mut self)
        requires
            game_wf(*old(self)),
            old(self).field_state.selected_beetles@.len() <= 1_000_000,
        ensures
            game_wf(*final(self)),
            final(self).ids == old(self).ids,
            selection_sent_moving(*old(self), *final(self)),
    {
        let ghost s0 = self.field_state.beetles@;
        let ghost sel = self.field_state.selected_beetles@;
        let (x1, y1, _x2, _y2) = self.calculate_selected_bounding_box();
        let spacing: i64 = 80_000;
        let column_width: usize = 8;
        let m: usize = self.field_state.selected_beetles.len();
        let mut j: usize = 0;
        let mut row: i64 = -1;
        while j < m
            invariant
                game_wf(*self),
                self.ids == old(self).ids,
                m == sel.len(),
                m <= 1_000_000,
                column_width == 8,
                spacing == 80_000,
                s0 == old(self).field_state.beetles@,
                sel == self.field_state.selected_beetles@,
                sel == old(self).field_state.selected_beetles@,
                self.field_state.beetles@.len() == s0.len(),
                self.field_state.food_sources@ == old(self).field_state.food_sources@,
                self.field_state.home_bases@ == old(self).field_state.home_bases@,
                forall|i: int|
                    0 <= i < s0.len() ==> (#[trigger] self.field_state.beetles@[i]).id
                        == s0[i].id,
                forall|i: int|
                    0 <= i < s0.len() ==> ({
                        let b1 = #[trigger] self.field_state.beetles@[i];
                        if id_in_selection(sel, j as int, s0[i].id) {
                            b1 == (Beetle { current_command: b1.current_command, ..s0[i] })
                                && (b1.current_command matches Command::Move { .. })
                        } else {
                            b1 == s0[i]
                        }
                    }),
                0 <= j <= m,
                -1 <= row <= j,
                -POS_LIMIT <= x1 <= POS_LIMIT,
                -POS_LIMIT <= y1 <= POS_LIMIT,
            decreases m - j,
        {
            if j % column_width == 0 {
                row = row + 1;
            }
            let x_offset: i64 = (j % column_width) as i64;
            let x: i64 = x1 + x_offset * spacing;
            let y: i64 = y1 + row * spacing;
            let target: Vec2 = clamp_point(Vec2 { x, y });
            let id: Id = self.field_state.selected_beetles[j];
            match find_index_by_id(&self.field_state.beetles, id) {
                Option::Some(bi) => {
                    let ghost before = self.field_state.beetles@;
                    {
                        let b = vec_index_mut(&mut self.field_state.beetles, bi);
                        b.set_command(Command::Move { position: target });
                    }
                    proof {
                        assert(forall|i2: int|
                            0 <= i2 < self.field_state.beetles@.len() ==> (
                            #[trigger] self.field_state.beetles@[i2]).id == before[i2].id);
                        assert forall|i: int| 0 <= i < s0.len() implies ({
                            let b1 = #[trigger] self.field_state.beetles@[i];
                            if id_in_selection(sel, j + 1, s0[i].id) {
                                b1 == (Beetle { current_command: b1.current_command, ..s0[i] })
                                    && (b1.current_command matches Command::Move { .. })
                            } else {
                                b1 == s0[i]
                            }
                        }) by {
                            if i == bi {
                                assert(before[bi as int].id == s0[i].id);
                                assert(sel[j as int] == s0[i].id);
                                assert(id_in_selection(sel, j + 1, s0[i].id));
                            } else {
                                assert(self.field_state.beetles@[i] == before[i]);
                                if id_in_selection(sel, j + 1, s0[i].id)
                                    && !id_in_selection(sel, j as int, s0[i].id) {
                                    assert(sel[j as int] == s0[i].id);
                                    assert(before[bi as int].id == s0[i].id);
                                    assert(s0[bi as int].id == s0[i].id);
                                    if (bi as int) < i {
                                        assert(s0[bi as int].id != s0[i].id);
                                    } else {
                                        assert(s0[i].id != s0[bi as int].id);
                                    }
                                }
                            }
                        }
                    }
                },
                Option::None => {
                    proof {
                        crate::entities::lemma_idx_of_props(self.field_state.beetles@, id);
                        assert forall|i: int| 0 <= i < s0.len() implies ({
                            let b1 = #[trigger] self.field_state.beetles@[i];
                            if id_in_selection(sel, j + 1, s0[i].id) {
                                b1 == (Beetle { current_command: b1.current_command, ..s0[i] })
                                    && (b1.current_command matches Command::Move { .. })
                            } else {
                                b1 == s0[i]
                            }
                        }) by {
                            if id_in_selection(sel, j + 1, s0[i].id)
                                && !id_in_selection(sel, j as int, s0[i].id) {
                                assert(sel[j as int] == s0[i].id);
                                assert(self.field_state.beetles@[i].id_spec() == s0[i].id);
                            }
                        }
                    }
                },
            }
            j = j + 1;
        }
    }

    /// Moves the whole selection rigidly: each selected agent is sent to
    /// its own position shifted by the vector from the selection's center
    /// to the point.
    pub fn move_in_formation(&mut self, x: i64, y: i64)
        requires
            game_wf(*old(self)),
        ensures
            game_wf(*final(self)),
            final(self).ids == old(self).ids,
            selection_sent_moving(*old(self), *final(self)),
    {
        let ghost s0 = self.field_state.beetles@;
        let ghost sel = self.field_state.selected_beetles@;
        let (x1, y1, x2, y2) = self.calculate_selected_bounding_box();
        let center_x: i64 = (x2 - x1) / 2 + x1;
        let center_y: i64 = (y2 - y1) / 2 + y1;
        let tx: i64 = clamp_point(Vec2 { x, y }).x;
        let ty: i64 = clamp_point(Vec2 { x, y }).y;
        let vx: i64 = tx - center_x;
        let vy: i64 = ty - center_y;
        let m: usize = self.field_state.selected_beetles.len();
        let mut j: usize = 0;
        while j < m
            invariant
                game_wf(*self),
                self.ids == old(self).ids,
                m == sel.len(),
                s0 == old(self).field_state.beetles@,
                sel == self.field_state.selected_beetles@,
                sel == old(self).field_state.selected_beetles@,
                self.field_state.beetles@.len() == s0.len(),
                self.field_state.food_sources@ == old(self).field_state.food_sources@,
                self.field_state.home_bases@ == old(self).field_state.home_bases@,
                forall|i: int|
                    0 <= i < s0.len() ==> (#[trigger] self.field_state.beetles@[i]).id
                        == s0[i].id,
                forall|i: int|
                    0 <= i < s0.len() ==> ({
                        let b1 = #[trigger] self.field_state.beetles@[i];
                        if id_in_selection(sel, j as int, s0[i].id) {
                            b1 == (Beetle { current_command: b1.current_command, ..s0[i] })
                                && (b1.current_command matches Command::Move { .. })
                        } else {
                            b1 == s0[i]
                        }
                    }),
                0 <= j <= m,
                -2 * POS_LIMIT <= vx <= 2 * POS_LIMIT,
                -2 * POS_LIMIT <= vy <= 2 * POS_LIMIT,
            decreases m - j,
        {
            let id: Id = self.field_state.selected_beetles[j];
            match find_index_by_id(&self.field_state.beetles, id) {
                Option::Some(bi) => {
                    let px: i64 = self.field_state.beetles[bi].position.x;
                    let py: i64 = self.field_state.beetles[bi].position.y;
                    proof {
                        assert(self.field_state.beetles@[bi as int].wf());
                    }
                    let target: Vec2 = clamp_point(Vec2 { x: px + vx, y: py + vy });
                    let ghost before = self.field_state.beetles@;
                    {
                        let b = vec_index_mut(&mut self.field_state.beetles, bi);
                        b.set_command(Command::Move { position: target });
                    }
                    proof {
                        assert(forall|i2: int|
                            0 <= i2 < self.field_state.beetles@.len() ==> (
                            #[trigger] self.field_state.beetles@[i2]).id == before[i2].id);
                        assert forall|i: int| 0 <= i < s0.len() implies ({
                            let b1 = #[trigger] self.field_state.beetles@[i];
                            if id_in_selection(sel, j + 1, s0[i].id) {
                                b1 == (Beetle { current_command: b1.current_command, ..s0[i] })
                                    && (b1.current_command matches Command::Move { .. })
                            } else {
                                b1 == s0[i]
                            }
                        }) by {
                            if i == bi {
                                assert(before[bi as int].id == s0[i].id);
                                assert(sel[j as int] == s0[i].id);
                                assert(id_in_selection(sel, j + 1, s0[i].id));
                            } else {
                                assert(self.field_state.beetles@[i] == before[i]);
                                if id_in_selection(sel, j + 1, s0[i].id)
                                    && !id_in_selection(sel, j as int, s0[i].id) {
                                    assert(sel[j as int] == s0[i].id);
                                    assert(before[bi as int].id == s0[i].id);
                                    assert(s0[bi as int].id == s0[i].id);
                                    if (bi as int) < i {
                                        assert(s0[bi as int].id != s0[i].id);
                                    } else {
                                        assert(s0[i].id != s0[bi as int].id);
                                    }
                                }
                            }
                        }
                    }
                },
                Option::None => {
                    proof {
                        crate::entities::lemma_idx_of_props(self.field_state.beetles@, id);
                        assert forall|i: int| 0 <= i < s0.len() implies ({
                            let b1 = #[trigger] self.field_state.beetles@[i];
                            if id_in_selection(sel, j + 1, s0[i].id) {
                                b1 == (Beetle { current_command: b1.current_command, ..s0[i] })
                                    && (b1.current_command matches Command::Move { .. })
                            } else {
                                b1 == s0[i]
                            }
                        }) by {
                            if id_in_selection(sel, j + 1, s0[i].id)
                                && !id_in_selection(sel, j as int, s0[i].id) {
                                assert(sel[j as int] == s0[i].id);
                                assert(self.field_state.beetles@[i].id_spec() == s0[i].id);
                            }
                        }
                    }
                },
            }
            j = j + 1;
        }
    }

    /// Adds an agent under a fresh id and returns that id.
    pub fn add_beetle(&mut self, beetle: Beetle) -> (id: Id)
        requires
            game_wf(*old(self)),
            beetle.wf(),
            old(self).ids.next < i64::MAX,
        ensures
            game_wf(*final(self)),
            id == old(self).ids.next,
            final(self).ids.next == old(self).ids.next + 1,
            final(self).field_state.beetles@ == old(self).field_state.beetles@.push(
                Beetle { id, ..beetle },
            ),
            final(self).field_state.food_sources@ == old(self).field_state.food_sources@,
            final(self).field_state.home_bases@ == old(self).field_state.home_bases@,
            final(self).field_state.selected_beetles@ == old(self).field_state.selected_beetles@,
    {
        let id: Id = self.ids.fresh();
        let mut b: Beetle = beetle;
        b.id = id;
        self.field_state.beetles.push(b);
        id
    }

    /// Adds a food source at the point (clamped to the field) under a
    /// fresh id and returns that id.
    pub fn add_food_source(&mut self, x: i64, y: i64) -> (id: Id)
        requires
            game_wf(*old(self)),
            old(self).ids.next < i64::MAX,
        ensures
            game_wf(*final(self)),
            id == old(self).ids.next,
            final(self).ids.next == old(self).ids.next + 1,
            final(self).field_state.food_sources@ == old(self).field_state.food_sources@.push(
                FoodSource {
                    id,
                    amount: crate::entities::FOOD_SOURCE_INITIAL_AMOUNT,
                    position: Vec2 {
                        x: clamp_spec(x as int, -POS_LIMIT as int, POS_LIMIT as int) as i64,
                        y: clamp_spec(y as int, -POS_LIMIT as int, POS_LIMIT as int) as i64,
                    },
                },
            ),
            final(self).field_state.beetles@ == old(self).field_state.beetles@,
            final(self).field_state.home_bases@ == old(self).field_state.home_bases@,
    {
        let id: Id = self.ids.fresh();
        let food_source = FoodSource {
            id,
            amount: crate::entities::FOOD_SOURCE_INITIAL_AMOUNT,
            position: clamp_point(Vec2 { x, y }),
        };
        self.field_state.food_sources.push(food_source);
        id
    }

    /// Adds a home base at the point (clamped to the field) under a fresh
    /// id and returns that id.
    pub fn add_home_base(&mut self, x: i64, y: i64) -> (id: Id)
        requires
            game_wf(*old(self)),
            old(self).ids.next < i64::MAX,
        ensures
            game_wf(*final(self)),
            id == old(self).ids.next,
            final(self).ids.next == old(self).ids.next + 1,
            final(self).field_state.home_bases@ == old(self).field_state.home_bases@.push(
                HomeBase {
                    id,
                    food_stored_amount: 0,
                    position: Vec2 {
                        x: clamp_spec(x as int, -POS_LIMIT as int, POS_LIMIT as int) as i64,
                        y: clamp_spec(y as int, -POS_LIMIT as int, POS_LIMIT as int) as i64,
                    },
                },
            ),
            final(self).field_state.beetles@ == old(self).field_state.beetles@,
            final(self).field_state.food_sources@ == old(self).field_state.food_sources@,
    {
        let id: Id = self.ids.fresh();
        let home_base = HomeBase { id, food_stored_amount: 0, position: clamp_point(Vec2 { x, y }) };
        self.field_state.home_bases.push(home_base);
        id
    }

    /// A uniformly drawn agent id; the population must not be empty.
    pub fn get_random_beetle_id(&self) -> (id: Id)
        requires
            self.field_state.beetles@.len() > 0,
        ensures
            exists|i: int|
                0 <= i < self.field_state.beetles@.len() && id == (
                #[trigger] self.field_state.beetles@[i]).id,
    {
        let n: u64 = self.field_state.beetles.len() as u64;
        let idx: usize = crate::rng::rand_in_range(0, n) as usize;
        self.field_state.beetles[idx].id
    }

    /// The id of the nearest agent on another team than `beetle`, if any
    /// enemy exists: no enemy stands strictly closer than the one
    /// returned.
    pub fn find_closest_enemy(&self, beetle: &Beetle) -> (r: Option<Id>)
        requires
            game_wf(*self),
            beetle.wf(),
        ensures
            r == ({
                let idx = spec_closest_enemy_idx(self.field_state.beetles@, *beetle);
                if idx == -1 {
                    Option::<Id>::None
                } else {
                    Option::Some(self.field_state.beetles@[idx].id)
                }
            }),
            match r {
                Option::None => forall|i: int|
                    0 <= i < self.field_state.beetles@.len() ==> (
                    #[trigger] self.field_state.beetles@[i]).team_id == beetle.team_id,
                Option::Some(id) => exists|i: int|
                    0 <= i < self.field_state.beetles@.len() && (
                    #[trigger] self.field_state.beetles@[i]).id == id
                        && self.field_state.beetles@[i].team_id != beetle.team_id && forall|
                        j: int,
                    |
                        0 <= j < self.field_state.beetles@.len()
                            && (#[trigger] self.field_state.beetles@[j]).team_id != beetle.team_id
                            ==> dist_sq(self.field_state.beetles@[i].position, beetle.position)
                            <= dist_sq(self.field_state.beetles@[j].position, beetle.position),
            },
    {
        let ghost s = self.field_state.beetles@;
        let n: usize = self.field_state.beetles.len();
        let mut best: Option<usize> = Option::None;
        let mut best_dist: i64 = i64::MAX;
        let mut k: usize = 0;
        while k < n
            invariant
                s == self.field_state.beetles@,
                game_wf(*self),
                beetle.wf(),
                n == s.len(),
                0 <= k <= n,
                match best {
                    Option::None => best_dist == i64::MAX && forall|i: int|
                        0 <= i < k ==> (#[trigger] s[i]).team_id == beetle.team_id,
                    Option::Some(bi) => 0 <= bi < k && s[bi as int].team_id != beetle.team_id
                        && best_dist == dist_sq(s[bi as int].position, beetle.position) && forall|
                        j: int,
                    |
                        0 <= j < k && (#[trigger] s[j]).team_id != beetle.team_id ==> best_dist
                            <= dist_sq(s[j].position, beetle.position),
                },
                enemy_from(
                    s,
                    *beetle,
                    k as int,
                    match best {
                        Option::None => -1,
                        Option::Some(bi) => bi as int,
                    },
                ) == spec_closest_enemy_idx(s, *beetle),
            decreases n - k,
        {
            let candidate: bool = self.field_state.beetles[k].team_id != beetle.team_id;
            if candidate {
                proof {
                    assert(s[k as int].wf());
                }
                let d: i64 = dist_sq_fp(self.field_state.beetles[k].position, beetle.position);
                proof {
                    assert(d < i64::MAX);
                }
                if d < best_dist {
                    best = Option::Some(k);
                    best_dist = d;
                }
            }
            k = k + 1;
        }
        match best {
            Option::Some(bi) => Option::Some(self.field_state.beetles[bi].id),
            Option::None => Option::None,
        }
    }
}


/// Accumulator of the nearest-enemy scan: the index of the closest agent
/// on another team than `me` among position `cur` (or -1 for none yet)
/// and everything from `j` on; earlier indices win ties.
pub open spec fn enemy_from(s: Seq<Beetle>, me: Beetle, j: int, cur: int) -> int
    decreases s.len() - j,
{
    if j < 0 || j >= s.len() {
        cur
    } else {
        let better = s[j].team_id != me.team_id && (cur == -1 || crate::geom::dist_sq(
            s[j].position,
            me.position,
        ) < crate::geom::dist_sq(s[cur].position, me.position));
        enemy_from(s, me, j + 1, if better { j } else { cur })
    }
}

/// The index of `me`'s nearest enemy in `s`, or -1 when no other team
/// appears.
pub open spec fn spec_closest_enemy_idx(s: Seq<Beetle>, me: Beetle) -> int {
    enemy_from(s, me, 0, -1)
}

/// Projection used by [`total_food`]: the food an agent carries.
pub open spec fn carry_fn() -> spec_fn(Beetle) -> int {
    |b: Beetle| b.food_carrying as int
}

/// Projection used by [`total_food`]: what a source still holds.
pub open spec fn source_amount_fn() -> spec_fn(FoodSource) -> int {
    |f: FoodSource| f.amount as int
}

/// Projection used by [`total_food`]: what a base has stored.
pub open spec fn stored_fn() -> spec_fn(HomeBase) -> int {
    |h: HomeBase| h.food_stored_amount as int
}

/// All food anywhere in the world: carried by agents, remaining at
/// sources, and stored at bases.
pub open spec fn total_food(w: WorldSnap) -> int {
    seq_sum(w.beetles, carry_fn()) + seq_sum(w.food_sources, source_amount_fn()) + seq_sum(
        w.home_bases,
        stored_fn(),
    )
}

/// Delivering food never changes the world's total food: a dump moves
/// exactly the transferred amount from the agent's back to the base's
/// store. The total must fit the counters' representation, which any run
/// that starts from finite sources satisfies.
pub proof fn lemma_dump_preserves_total_food(
    w: WorldSnap,
    beetle_id: Id,
    home_base_id: Id,
    amount: u32,
)
    requires
        total_food(w) <= u64::MAX,
    ensures
        total_food(
            spec_apply_action(w, Action::DumpFood { beetle_id, home_base_id, amount }),
        ) == total_food(w),
{
    let a = Action::DumpFood { beetle_id, home_base_id, amount };
    let w2 = spec_apply_action(w, a);
    let bi = idx_of(w.beetles, beetle_id);
    let hi = idx_of(w.home_bases, home_base_id);
    if bi != -1 && hi != -1 {
        lemma_idx_of_props(w.beetles, beetle_id);
        lemma_idx_of_props(w.home_bases, home_base_id);
        let b = w.beetles[bi];
        let h = w.home_bases[hi];
        let transferred = if amount <= b.food_carrying {
            amount as int
        } else {
            b.food_carrying as int
        };
        crate::sums::lemma_seq_sum_nonneg(w.beetles, carry_fn());
        crate::sums::lemma_seq_sum_nonneg(w.food_sources, source_amount_fn());
        crate::sums::lemma_seq_sum_nonneg(w.home_bases, stored_fn());
        crate::sums::lemma_seq_sum_element_le(w.beetles, carry_fn(), bi);
        crate::sums::lemma_seq_sum_element_le(w.home_bases, stored_fn(), hi);
        assert(h.food_stored_amount + transferred <= u64::MAX);
        let b2 = Beetle {
            food_carrying: (b.food_carrying - transferred) as u32,
            food_collected: sat_add_spec(b.food_collected as int, transferred) as u64,
            ..b
        };
        let h2 = HomeBase {
            food_stored_amount: sat_add_spec(h.food_stored_amount as int, transferred) as u64,
            ..h
        };
        crate::sums::lemma_seq_sum_update(w.beetles, carry_fn(), bi, b2);
        crate::sums::lemma_seq_sum_update(w.home_bases, stored_fn(), hi, h2);
    }
}

/// Harvesting: a take of `amount` from a source holding `R` collects
/// exactly the smaller of the two; the source keeps the nonnegative rest
/// and is removed from the world exactly when that rest is zero; the
/// collecting agent's load grows by exactly what was collected.
pub proof fn lemma_take_food_amounts(
    w: WorldSnap,
    beetle_id: Id,
    food_source_id: Id,
    amount: u32,
)
    requires
        snap_wf(w),
        idx_of(w.food_sources, food_source_id) != -1,
    ensures
        ({
            let a = Action::TakeFood { beetle_id, food_source_id, amount };
            let w2 = spec_apply_action(w, a);
            let fi = idx_of(w.food_sources, food_source_id);
            let remaining = w.food_sources[fi].amount as int;
            let collected = if remaining >= amount {
                amount as int
            } else {
                remaining
            };
            &&& remaining - collected >= 0
            &&& (remaining == collected ==> idx_of(w2.food_sources, food_source_id) == -1)
            &&& (remaining != collected ==> idx_of(w2.food_sources, food_source_id) == fi
                && w2.food_sources[fi].amount == remaining - collected)
            &&& ({
                let bi = idx_of(w.beetles, beetle_id);
                bi != -1 && w.beetles[bi].food_carrying + collected <= u32::MAX
                    ==> w2.beetles[bi].food_carrying == w.beetles[bi].food_carrying + collected
            })
        }),
{
    let a = Action::TakeFood { beetle_id, food_source_id, amount };
    let w2 = spec_apply_action(w, a);
    let fi = idx_of(w.food_sources, food_source_id);
    lemma_idx_of_props(w.food_sources, food_source_id);
    let f = w.food_sources[fi];
    let remaining = f.amount as int;
    let collected = if remaining >= amount {
        amount as int
    } else {
        remaining
    };
    let bi = idx_of(w.beetles, beetle_id);
    if bi != -1 {
        lemma_idx_of_props(w.beetles, beetle_id);
    }
    if remaining == collected {
        lemma_remove_elements(w.food_sources, fi);
        let fs1 = w.food_sources.remove(fi);
        assert forall|k: int| 0 <= k < fs1.len() implies (#[trigger] fs1[k]).id
            != food_source_id by {
            if k < fi {
                assert(fs1[k] == w.food_sources[k]);
            } else {
                assert(fs1[k] == w.food_sources[k + 1]);
            }
        }
        lemma_idx_of_props(fs1, food_source_id);
        if idx_of(fs1, food_source_id) != -1 {
            assert(fs1[idx_of(fs1, food_source_id)].id_spec() == food_source_id);
        }
    } else {
        let f2 = FoodSource { amount: (remaining - collected) as u32, ..f };
        let fs1 = w.food_sources.update(fi, f2);
        assert(forall|k: int| 0 <= k < fs1.len() ==> (#[trigger] fs1[k]).id
            == w.food_sources[k].id);
        lemma_idx_of_props(fs1, food_source_id);
        let r2 = idx_of(fs1, food_source_id);
        assert(fs1[fi].id_spec() == food_source_id);
        assert(r2 != -1);
        if r2 != fi {
            if r2 < fi {
                assert(w.food_sources[r2].id != w.food_sources[fi].id);
            } else {
                assert(w.food_sources[fi].id != w.food_sources[r2].id);
            }
        }
    }
}

/// Applying the actions of a whole tick one after another keeps the
/// world invariant and invents no ids.
pub proof fn lemma_apply_seq_preserves(w: WorldSnap, actions: Seq<Action>, bound: Id)
    requires
        snap_wf(w),
        ids_below(w, bound),
    ensures
        snap_wf(spec_apply_seq(w, actions)),
        ids_below(spec_apply_seq(w, actions), bound),
    decreases actions.len(),
{
    if actions.len() > 0 {
        lemma_apply_action_preserves(w, actions[0], bound);
        lemma_apply_seq_preserves(spec_apply_action(w, actions[0]), actions.drop_first(), bound);
    }
}

/// Health stays within bounds across any number of ticks: after a tick of
/// a well-formed world, every agent's health is at most its derived
/// maximum (and, being unsigned, never below zero).
pub proof fn lemma_tick_health_bounds(w: WorldSnap, bound: Id)
    requires
        snap_wf(w),
        ids_below(w, bound),
    ensures
        snap_wf(spec_tick(w)),
        ids_below(spec_tick(w), bound),
        forall|i: int|
            0 <= i < spec_tick(w).beetles.len() ==> (#[trigger] spec_tick(w).beetles[i]).health
                <= spec_max_health(spec_tick(w).beetles[i].genome),
{
    lemma_apply_seq_preserves(w, spec_decisions(w), bound);
    assert forall|i: int| 0 <= i < spec_tick(w).beetles.len() implies (
    #[trigger] spec_tick(w).beetles[i]).health <= spec_max_health(
        spec_tick(w).beetles[i].genome,
    ) by {
        assert(spec_tick(w).beetles[i].wf());
    }
}

/// An agent whose health a strike exhausts is absent from the world the
/// action leaves behind: a lethal attack removes its target.
pub proof fn lemma_lethal_attack_removes(
    w: WorldSnap,
    source_id: Id,
    target_id: Id,
    attack_power: u32,
)
    requires
        snap_wf(w),
        idx_of(w.beetles, target_id) != -1,
        attack_power >= w.beetles[idx_of(w.beetles, target_id)].health,
    ensures
        idx_of(
            spec_apply_action(
                w,
                Action::Attack { source_id, target_id, attack_power },
            ).beetles,
            target_id,
        ) == -1,
{
    let a = Action::Attack { source_id, target_id, attack_power };
    let w2 = spec_apply_action(w, a);
    let ti = idx_of(w.beetles, target_id);
    lemma_idx_of_props(w.beetles, target_id);
    let t = w.beetles[ti];
    let newh = if t.health >= attack_power {
        (t.health - attack_power) as u32
    } else {
        0u32
    };
    let bs1 = w.beetles.update(ti, Beetle { health: newh, ..t });
    let si = idx_of(bs1, source_id);
    let bs2 = if si == -1 {
        bs1
    } else {
        bs1.update(
            si,
            Beetle {
                damage_inflicted: sat_add_spec(
                    bs1[si].damage_inflicted as int,
                    attack_power as int,
                ) as u64,
                ..bs1[si]
            },
        )
    };
    if si != -1 {
        lemma_idx_of_props(bs1, source_id);
    }
    assert(forall|k: int| 0 <= k < bs2.len() ==> (#[trigger] bs2[k]).id == w.beetles[k].id);
    lemma_remove_elements(bs2, ti);
    let bs3 = bs2.remove(ti);
    assert forall|k: int| 0 <= k < bs3.len() implies (#[trigger] bs3[k]).id != target_id by {
        if k < ti {
            assert(bs3[k] == bs2[k]);
        } else {
            assert(bs3[k] == bs2[k + 1]);
        }
    }
    lemma_idx_of_props(bs3, target_id);
    if idx_of(bs3, target_id) != -1 {
        assert(bs3[idx_of(bs3, target_id)].id_spec() == target_id);
    }
}

/// An agent that has arrived at its move target decides to do nothing,
/// and a do-nothing action moves no one: once within the arrival radius,
/// the agent stops translating.
#[verifier::rlimit(60)]
pub proof fn lemma_arrival_stops_translation(w: WorldSnap, i: int, position: Vec2)
    requires
        snap_wf(w),
        0 <= i < w.beetles.len(),
        w.beetles[i].current_command == (Command::Move { position }),
        crate::beetle::spec_basically_here(w.beetles[i], position),
    ensures
        spec_decisions(w)[i] == (Action::Nothing { beetle_id: w.beetles[i].id }),
        ({
            let w2 = spec_apply_action(w, Action::Nothing { beetle_id: w.beetles[i].id });
            forall|k: int|
                0 <= k < w2.beetles.len() ==> (#[trigger] w2.beetles[k]).position
                    == w.beetles[k].position
        }),
{
    let b = w.beetles[i];
    assert(spec_decisions(w)[i] == spec_decide(b, w.beetles, w.food_sources, w.home_bases));
    let a = Action::Nothing { beetle_id: b.id };
    let w2 = spec_apply_action(w, a);
    let bi = idx_of(w.beetles, b.id);
    if bi != -1 {
        lemma_idx_of_props(w.beetles, b.id);
        assert(forall|k: int|
            0 <= k < w2.beetles.len() ==> (#[trigger] w2.beetles[k]).position
                == w.beetles[k].position);
    }
}


/// A population that can seed a fresh world on its own: well-formed
/// agents under positive, pairwise distinct ids.
pub open spec fn population_standalone_ok(pop: Seq<Beetle>) -> bool {
    &&& beetles_ok(pop)
    &&& forall|i: int, j: int|
        0 <= i < j < pop.len() ==> (#[trigger] pop[i].id) != (#[trigger] pop[j].id)
    &&& forall|i: int| 0 <= i < pop.len() ==> STARTING_ID <= (#[trigger] pop[i].id) < i64::MAX
}

impl Game {
    /// A fresh world owning exactly this population; the id allocator
    /// resumes above the population's largest id.
    pub fn from_population(population: Vec<Beetle>) -> (g: Game)
        requires
            population_standalone_ok(population@),
        ensures
            game_wf(g),
            g.field_state.beetles@ == population@,
            g.field_state.food_sources@.len() == 0,
            g.field_state.home_bases@.len() == 0,
            g.field_state.selected_beetles@.len() == 0,
    {
        let mut maxid: Id = 0;
        let n: usize = population.len();
        let mut k: usize = 0;
        while k < n
            invariant
                population_standalone_ok(population@),
                n == population@.len(),
                0 <= k <= n,
                0 <= maxid < i64::MAX,
                forall|i: int| 0 <= i < k ==> (#[trigger] population@[i]).id <= maxid,
            decreases n - k,
        {
            if population[k].id > maxid {
                maxid = population[k].id;
            }
            k = k + 1;
        }
        Game {
            field_state: FieldState {
                beetles: population,
                food_sources: Vec::new(),
                home_bases: Vec::new(),
                selected_beetles: Vec::new(),
            },
            ids: IdAllocator { next: maxid + 1 },
        }
    }
}


/// An agent equal to another except for the genome vector's identity: all
/// plain fields agree and the genomes carry the same gene values.
pub open spec fn beetle_like(a: Beetle, b: Beetle) -> bool {
    &&& a == (Beetle { genome: a.genome, ..b })
    &&& a.genome@ == b.genome@
}

/// Copies a population agent by agent.
pub fn duplicate_population(population: &Vec<Beetle>) -> (r: Vec<Beetle>)
    requires
        beetles_ok(population@),
    ensures
        r@.len() == population@.len(),
        forall|i: int| 0 <= i < r@.len() ==> beetle_like(#[trigger] r@[i], population@[i]),
        beetles_ok(r@),
        population_standalone_ok(population@) ==> population_standalone_ok(r@),
{
    let n: usize = population.len();
    let mut r: Vec<Beetle> = Vec::new();
    let mut k: usize = 0;
    while k < n
        invariant
            beetles_ok(population@),
            n == population@.len(),
            0 <= k <= n,
            r@.len() == k,
            forall|i: int| 0 <= i < k ==> beetle_like(#[trigger] r@[i], population@[i]),
        decreases n - k,
    {
        proof {
            assert(population@[k as int].wf());
        }
        let b: Beetle = population[k].duplicate();
        r.push(b);
        k = k + 1;
    }
    proof {
        assert forall|i: int| 0 <= i < r@.len() implies (#[trigger] r@[i]).wf() by {
            assert(beetle_like(r@[i], population@[i]));
            assert(population@[i].wf());
        }
        if population_standalone_ok(population@) {
            assert forall|i: int, j: int| 0 <= i < j < r@.len() implies (#[trigger] r@[i].id) != (
            #[trigger] r@[j].id) by {
                assert(beetle_like(r@[i], population@[i]));
                assert(beetle_like(r@[j], population@[j]));
                assert(population@[i].id != population@[j].id);
            }
            assert forall|i: int| 0 <= i < r@.len() implies STARTING_ID <= (#[trigger] r@[i].id)
                < i64::MAX by {
                assert(beetle_like(r@[i], population@[i]));
                assert(STARTING_ID <= population@[i].id < i64::MAX);
            }
        }
    }
    r
}

impl Game {
    /// Tops up a food source by `amount`, unless the source is gone or
    /// the top-up would overflow its counter; reports whether it
    /// happened. Exactly the named source's amount grows, by exactly
    /// `amount`.
    pub fn top_up_food_source(&mut self, food_source_id: Id, amount: u32) -> (r: bool)
        requires
            game_wf(*old(self)),
        ensures
            game_wf(*final(self)),
            final(self).ids == old(self).ids,
            final(self).field_state.beetles@ == old(self).field_state.beetles@,
            final(self).field_state.home_bases@ == old(self).field_state.home_bases@,
            final(self).field_state.selected_beetles@ == old(self).field_state.selected_beetles@,
            ({
                let foods = old(self).field_state.food_sources@;
                let fi = idx_of(foods, food_source_id);
                if fi == -1 || foods[fi].amount + amount > u32::MAX {
                    &&& final(self).field_state.food_sources@ == foods
                    &&& r == false
                } else {
                    &&& final(self).field_state.food_sources@ == foods.update(
                        fi,
                        FoodSource { amount: (foods[fi].amount + amount) as u32, ..foods[fi] },
                    )
                    &&& r == true
                }
            }),
    {
        match find_index_by_id(&self.field_state.food_sources, food_source_id) {
            Option::Some(fi) => {
                let current: u32 = self.field_state.food_sources[fi].amount;
                if current > u32::MAX - amount {
                    return false;
                }
                let ghost foods0 = self.field_state.food_sources@;
                {
                    let f = vec_index_mut(&mut self.field_state.food_sources, fi);
                    let _ = f.increase_food(amount);
                }
                proof {
                    assert(forall|k: int|
                        0 <= k < self.field_state.food_sources@.len() ==> (
                        #[trigger] self.field_state.food_sources@[k]).id == foods0[k].id);
                    assert(forall|k: int|
                        0 <= k < self.field_state.food_sources@.len() ==> (
                        #[trigger] self.field_state.food_sources@[k]).position
                            == foods0[k].position);
                }
                true
            },
            Option::None => false,
        }
    }
}

} // verus!
