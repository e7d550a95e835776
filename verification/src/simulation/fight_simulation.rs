//! A single bounded fight, without generations: idle agents are pointed
//! at their nearest enemy before every tick, until a pluggable stop
//! condition holds or the tick budget runs out.

use vstd::prelude::*;
use crate::Id;
use crate::utils::vec_index_mut;
use crate::game::{Game, FieldState, Command, State, game_wf};
use crate::beetle::Beetle;
use crate::simulation::Simulate;

verus! {

/// A termination predicate over the world, packaged as a narrow trait so
/// both struct-based and constant conditions can drive a fight.
pub trait StopCondition {
    /// When the fight counts as over.
    spec fn done_spec(&self, fs: &FieldState) -> bool;

    /// Decides the predicate.
    fn is_done(&self, fs: &FieldState) -> (r: bool)
        ensures
            r == self.done_spec(fs),
    ;
}

/// Stop once the population has shrunk below a threshold.
#[derive(Clone, Copy, Debug)]
pub struct PopulationBelow {
    pub threshold: usize,
}

impl StopCondition for PopulationBelow {
    open spec fn done_spec(&self, fs: &FieldState) -> bool {
        fs.beetles@.len() < self.threshold
    }

    fn is_done(&self, fs: &FieldState) -> (r: bool) {
        fs.beetles.len() < self.threshold
    }
}

/// Stop once every surviving agent stands on one team.
#[derive(Clone, Copy, Debug)]
pub struct SingleTeamLeft {}

impl StopCondition for SingleTeamLeft {
    open spec fn done_spec(&self, fs: &FieldState) -> bool {
        forall|i: int, j: int|
            0 <= i < fs.beetles@.len() && 0 <= j < fs.beetles@.len() ==> (
            #[trigger] fs.beetles@[i]).team_id == (#[trigger] fs.beetles@[j]).team_id
    }

    fn is_done(&self, fs: &FieldState) -> (r: bool) {
        let n: usize = fs.beetles.len();
        if n == 0 {
            return true;
        }
        let t0: Id = fs.beetles[0].team_id;
        let mut k: usize = 1;
        while k < n
            invariant
                n == fs.beetles@.len(),
                n > 0,
                t0 == fs.beetles@[0].team_id,
                1 <= k <= n,
                forall|i: int| 0 <= i < k ==> (#[trigger] fs.beetles@[i]).team_id == t0,
            decreases n - k,
        {
            if fs.beetles[k].team_id != t0 {
                return false;
            }
            k = k + 1;
        }
        true
    }
}

/// What retargeting promises one agent: an idle agent with at least one
/// enemy on the field ends up ordered against an agent of another team;
/// every other agent keeps the command it had.
pub open spec fn retargeted(s0: Seq<Beetle>, s1: Seq<Beetle>, i: int) -> bool {
    if s0[i].current_state == State::Idle && (exists|j: int|
        0 <= j < s0.len() && (#[trigger] s0[j]).team_id != s0[i].team_id) {
        exists|j: int|
            0 <= j < s0.len() && (#[trigger] s0[j]).team_id != s0[i].team_id
                && s1[i].current_command == (Command::Interact { target_id: s0[j].id })
    } else {
        s1[i].current_command == s0[i].current_command
    }
}

/// What the first scan records for one agent: `Some` exactly when the
/// agent is idle and an enemy exists, and then some enemy's id.
spec fn target_choice_ok(s0: Seq<Beetle>, i: int, t: Option<Id>) -> bool {
    match t {
        Option::Some(id) => s0[i].current_state == State::Idle && exists|j: int|
            0 <= j < s0.len() && (#[trigger] s0[j]).team_id != s0[i].team_id && id == s0[j].id,
        Option::None => !(s0[i].current_state == State::Idle && exists|j: int|
            0 <= j < s0.len() && (#[trigger] s0[j]).team_id != s0[i].team_id),
    }
}

/// Points every agent at its nearest enemy: each agent in the idle state
/// receives an interact command against the closest agent of another
/// team, if one exists; no other agent's command changes.
pub fn retarget_idle_agents(game: &mut Game)
    requires
        game_wf(*old(game)),
    ensures
        game_wf(*final(game)),
        final(game).ids == old(game).ids,
        final(game).field_state.beetles@.len() == old(game).field_state.beetles@.len(),
        forall|i: int|
            0 <= i < final(game).field_state.beetles@.len() ==> (
            #[trigger] final(game).field_state.beetles@[i]).id
                == old(game).field_state.beetles@[i].id,
        forall|i: int|
            0 <= i < final(game).field_state.beetles@.len() ==> #[trigger] retargeted(
                old(game).field_state.beetles@,
                final(game).field_state.beetles@,
                i,
            ),
{
    let ghost s0 = game.field_state.beetles@;
    let n: usize = game.field_state.beetles.len();
    let mut targets: Vec<Option<Id>> = Vec::new();
    let mut k: usize = 0;
    while k < n
        invariant
            game_wf(*game),
            game == old(game),
            s0 == game.field_state.beetles@,
            n == game.field_state.beetles@.len(),
            0 <= k <= n,
            targets@.len() == k,
            forall|i: int| 0 <= i < k ==> #[trigger] target_choice_ok(s0, i, targets@[i]),
        decreases n - k,
    {
        let idle: bool = match game.field_state.beetles[k].current_state {
            State::Idle => true,
            _ => false,
        };
        if idle {
            proof {
                assert(game.field_state.beetles@[k as int].wf());
            }
            let enemy: Option<Id> = game.find_closest_enemy(&game.field_state.beetles[k]);
            targets.push(enemy);
        } else {
            targets.push(Option::None);
        }
        k = k + 1;
    }
    let mut j: usize = 0;
    while j < n
        invariant
            game_wf(*game),
            game.ids == old(game).ids,
            s0 == old(game).field_state.beetles@,
            n == game.field_state.beetles@.len(),
            n == s0.len(),
            targets@.len() == n,
            0 <= j <= n,
            forall|i: int| 0 <= i < n ==> #[trigger] target_choice_ok(s0, i, targets@[i]),
            forall|i: int|
                0 <= i < n ==> (#[trigger] game.field_state.beetles@[i]).id == s0[i].id,
            forall|i: int| 0 <= i < j ==> #[trigger] retargeted(s0, game.field_state.beetles@, i),
            forall|i: int|
                j <= i < n ==> (#[trigger] game.field_state.beetles@[i]) == s0[i],
        decreases n - j,
    {
        match targets[j] {
            Option::Some(enemy_id) => {
                let ghost before = game.field_state.beetles@;
                {
                    let b = vec_index_mut(&mut game.field_state.beetles, j);
                    b.set_command(Command::Interact { target_id: enemy_id });
                }
                proof {
                    assert(forall|i: int|
                        0 <= i < game.field_state.beetles@.len() ==> (
                        #[trigger] game.field_state.beetles@[i]).id == before[i].id);
                    assert(target_choice_ok(s0, j as int, targets@[j as int]));
                    assert(game.field_state.beetles@[j as int].current_command == (
                    Command::Interact { target_id: enemy_id }));
                    assert(retargeted(s0, game.field_state.beetles@, j as int));
                    assert forall|i: int| 0 <= i < j implies #[trigger] retargeted(
                        s0,
                        game.field_state.beetles@,
                        i,
                    ) by {
                        assert(game.field_state.beetles@[i] == before[i]);
                        assert(retargeted(s0, before, i));
                    }
                }
            },
            Option::None => {
                proof {
                    assert(target_choice_ok(s0, j as int, targets@[j as int]));
                    assert(retargeted(s0, game.field_state.beetles@, j as int));
                }
            },
        }
        j = j + 1;
    }
}

/// Runs a fight: before each tick, idle agents are pointed at their
/// nearest enemy; the loop stops as soon as the stop condition holds, or
/// after `max_ticks` ticks. Returns how many ticks ran; a return below
/// the budget means the condition held.
pub fn run_fight<D: StopCondition>(game: &mut Game, done: &D, max_ticks: u64) -> (ticks: u64)
    requires
        game_wf(*old(game)),
    ensures
        game_wf(*final(game)),
        ticks <= max_ticks,
        ticks < max_ticks ==> done.done_spec(&final(game).field_state),
        done.done_spec(&old(game).field_state) ==> ticks == 0 && *final(game) == *old(game),
        final(game).ids == old(game).ids,
        final(game).field_state.beetles@.len() <= old(game).field_state.beetles@.len(),
        forall|id: crate::Id|
            #[trigger] crate::entities::idx_of(final(game).field_state.beetles@, id) != -1
                ==> crate::entities::idx_of(old(game).field_state.beetles@, id) != -1,
{
    let ghost start = old(game).field_state.beetles@;
    let mut t: u64 = 0;
    while t < max_ticks
        invariant
            game_wf(*game),
            0 <= t <= max_ticks,
            start == old(game).field_state.beetles@,
            game.ids == old(game).ids,
            t == 0 ==> *game == *old(game),
            done.done_spec(&old(game).field_state) ==> t == 0 && *game == *old(game),
            game.field_state.beetles@.len() <= old(game).field_state.beetles@.len(),
            forall|id: crate::Id|
                #[trigger] crate::entities::idx_of(game.field_state.beetles@, id) != -1
                    ==> crate::entities::idx_of(start, id) != -1,
        decreases max_ticks - t,
    {
        if done.is_done(&game.field_state) {
            return t;
        }
        let ghost before_retarget = game.field_state.beetles@;
        retarget_idle_agents(game);
        proof {
            assert forall|id: crate::Id|
                #[trigger] crate::entities::idx_of(game.field_state.beetles@, id) != -1 implies
                crate::entities::idx_of(before_retarget, id) != -1 by {
                crate::game::lemma_idx_of_same_ids(
                    game.field_state.beetles@,
                    before_retarget,
                    id,
                );
            }
        }
        let ghost before_tick = game.field_state.snap();
        game.tick();
        proof {
            assert forall|id: crate::Id|
                #[trigger] crate::entities::idx_of(game.field_state.beetles@, id) != -1 implies
                crate::entities::idx_of(start, id) != -1 by {
                crate::game::lemma_apply_seq_ids_subset(
                    before_tick,
                    crate::game::spec_decisions(before_tick),
                    id,
                );
            }
        }
        t = t + 1;
    }
    max_ticks
}

/// A single fight bundled with its world, stop condition and tick
/// budget.
#[derive(Debug)]
pub struct FightSimulation<D: StopCondition> {
    pub game: Game,
    pub done: D,
    pub max_ticks: u64,
}

impl<D: StopCondition> FightSimulation<D> {
    /// Packages a fight over `game` that stops on `done` or after
    /// `max_ticks` ticks.
    pub fn new(game: Game, done: D, max_ticks: u64) -> (r: FightSimulation<D>)
        requires
            game_wf(game),
        ensures
            r.game == game,
            r.max_ticks == max_ticks,
            game_wf(r.game),
    {
        FightSimulation { game, done, max_ticks }
    }

    /// Hands the world back after the fight.
    pub fn into_game(self) -> (g: Game)
        ensures
            g == self.game,
    {
        self.game
    }
}

impl<D: StopCondition> Simulate for FightSimulation<D> {
    open spec fn sim_wf(&self) -> bool {
        game_wf(self.game)
    }

    fn run(&mut self) {
        let _ = run_fight(&mut self.game, &self.done, self.max_ticks);
    }
}

} // verus!
