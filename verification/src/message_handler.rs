//! Dispatch of operator commands against the world's public surface.
//!
//! An external transport collaborator decodes wire messages into the
//! plain [`UiMessage`] values handled here; every decision about what a
//! message does to the world is taken in this verified dispatcher.

use vstd::prelude::*;
use crate::Id;
use crate::utils::{vec_index_mut, FP_ONE};
use crate::geom::{Vec2, POS_LIMIT, clamp_i64};
use crate::game::{Game, Command, game_wf, population_standalone_ok, beetles_ok, STARTING_ID};
use crate::beetle::{Beetle, BeetleBuilder};
use crate::entities::find_index_by_id;
use crate::simulation::{Simulate, GaConfig};
use crate::simulation::speed_ga::run_speed_generations;
use crate::simulation::battle_ga::BattleGA;
use crate::simulation::food_ga::FoodGA;
use crate::simulation::fight_simulation::{run_fight, SingleTeamLeft};

verus! {

/// Tick budget of an operator-triggered fight.
pub const HANDLER_FIGHT_TICKS: u64 = 100_000;

/// An operator command, decoded from the wire by the transport
/// collaborator. Coordinates are in milli-units and are clamped onto the
/// field on arrival.
#[derive(Clone, Copy, Debug, PartialEq, Eq, Structural)]
pub enum UiMessage {
    SelectBeetle { beetle_id: Id },
    SelectAllInArea { x1: i64, y1: i64, x2: i64, y2: i64 },
    SelectedMoveCommand { x: i64, y: i64 },
    DeselectAllBeetles,
    CreateBeetle { x: i64, y: i64 },
    SelectedInteractCommand { target_id: Id },
    SelectedHarvestCommand,
    SelectedStopCommand,
    Terminate,
    RunSpeedSimulation,
    RunBattleSimulation,
    RunFoodGa,
    RunFightSimulation,
    CreateFormation,
}

/// Stateless dispatcher of operator commands.
#[derive(Debug)]
pub struct MessageHandler {
}

impl MessageHandler {
    /// A dispatcher.
    pub fn new() -> (r: MessageHandler)
    {
        MessageHandler {}
    }

    /// Applies one operator command to the world and reports whether the
    /// operator asked to shut down — exactly on `Terminate`. Each
    /// selection or command arm carries the exact effect of the world
    /// operation it dispatches to; the trainer arms promise the world
    /// invariant, with their content stated on the trainers themselves.
    pub fn handle_message(&mut self, game: &mut Game, message: UiMessage) -> (done: bool)
        requires
            game_wf(*old(game)),
        ensures
            game_wf(*final(game)),
            done <==> message == UiMessage::Terminate,
            (match message {
                UiMessage::SelectBeetle { beetle_id } => ({
                    let bi = crate::entities::idx_of(
                        old(game).field_state.beetles@,
                        beetle_id,
                    );
                    if bi == -1 {
                        &&& final(game).field_state.beetles@ == old(game).field_state.beetles@
                        &&& final(game).field_state.selected_beetles@ == old(
                            game,
                        ).field_state.selected_beetles@
                    } else {
                        &&& final(game).field_state.beetles@ == old(
                            game,
                        ).field_state.beetles@.update(
                            bi,
                            Beetle { selected: true, ..old(game).field_state.beetles@[bi] },
                        )
                        &&& final(game).field_state.selected_beetles@ == old(
                            game,
                        ).field_state.selected_beetles@.push(beetle_id)
                    }
                }),
                UiMessage::DeselectAllBeetles => ({
                    &&& final(game).field_state.selected_beetles@.len() == 0
                    &&& final(game).field_state.beetles@.len() == old(
                        game,
                    ).field_state.beetles@.len()
                    &&& forall|i: int|
                        0 <= i < final(game).field_state.beetles@.len() ==> (
                        #[trigger] final(game).field_state.beetles@[i]) == (Beetle {
                            selected: false,
                            ..old(game).field_state.beetles@[i]
                        })
                }),
                UiMessage::SelectAllInArea { x1, y1, x2, y2 } => ({
                    let s0 = old(game).field_state.beetles@;
                    let cx1 = crate::geom::clamp_spec(x1 as int, -POS_LIMIT as int, POS_LIMIT as int);
                    let cy1 = crate::geom::clamp_spec(y1 as int, -POS_LIMIT as int, POS_LIMIT as int);
                    let cx2 = crate::geom::clamp_spec(x2 as int, -POS_LIMIT as int, POS_LIMIT as int);
                    let cy2 = crate::geom::clamp_spec(y2 as int, -POS_LIMIT as int, POS_LIMIT as int);
                    let xl = if cx1 < cx2 { cx1 } else { cx2 };
                    let xh = if cx1 < cx2 { cx2 } else { cx1 };
                    let yl = if cy1 < cy2 { cy1 } else { cy2 };
                    let yh = if cy1 < cy2 { cy2 } else { cy1 };
                    &&& final(game).field_state.beetles@.len() == s0.len()
                    &&& forall|i: int|
                        0 <= i < s0.len() ==> (#[trigger] final(game).field_state.beetles@[i])
                            == (Beetle {
                            selected: crate::game::in_box(s0[i].position, xl, yl, xh, yh),
                            ..s0[i]
                        })
                    &&& final(game).field_state.selected_beetles@ == crate::game::in_box_ids(
                        s0,
                        0,
                        xl,
                        yl,
                        xh,
                        yh,
                    )
                }),
                UiMessage::SelectedMoveCommand { x, y } => crate::game::selection_sent_moving(
                    *old(game),
                    *final(game),
                ),
                UiMessage::SelectedInteractCommand { target_id } => {
                    crate::game::selection_commanded(
                        *old(game),
                        *final(game),
                        Command::Interact { target_id },
                    )
                },
                UiMessage::SelectedHarvestCommand => crate::game::selection_commanded(
                    *old(game),
                    *final(game),
                    Command::HarvestClosestFood,
                ),
                UiMessage::SelectedStopCommand => crate::game::selection_commanded(
                    *old(game),
                    *final(game),
                    Command::Stop,
                ),
                UiMessage::CreateFormation => old(
                    game,
                ).field_state.selected_beetles@.len() <= 1_000_000
                    ==> crate::game::selection_sent_moving(*old(game), *final(game)),
                UiMessage::CreateBeetle { x, y } => old(game).ids.next < i64::MAX ==> ({
                    let grown = final(game).field_state.beetles@;
                    let before = old(game).field_state.beetles@;
                    &&& grown.len() == before.len() + 1
                    &&& forall|i: int| 0 <= i < before.len() ==> (#[trigger] grown[i])
                        == before[i]
                    &&& grown[before.len() as int].id == old(game).ids.next
                    &&& grown[before.len() as int].position == (Vec2 {
                        x: crate::geom::clamp_spec(
                            x as int,
                            -POS_LIMIT as int,
                            POS_LIMIT as int,
                        ) as i64,
                        y: crate::geom::clamp_spec(
                            y as int,
                            -POS_LIMIT as int,
                            POS_LIMIT as int,
                        ) as i64,
                    })
                    &&& grown[before.len() as int].current_command == Command::Stop
                }),
                _ => true,
            }),
    {
        let mut done: bool = false;
        match message {
            UiMessage::SelectBeetle { beetle_id } => {
                game.select_beetle(beetle_id);
            },
            UiMessage::SelectAllInArea { x1, y1, x2, y2 } => {
                game.select_all_in_area(
                    clamp_i64(x1, -POS_LIMIT, POS_LIMIT),
                    clamp_i64(y1, -POS_LIMIT, POS_LIMIT),
                    clamp_i64(x2, -POS_LIMIT, POS_LIMIT),
                    clamp_i64(y2, -POS_LIMIT, POS_LIMIT),
                );
            },
            UiMessage::SelectedMoveCommand { x, y } => {
                game.selected_move_command(x, y);
            },
            UiMessage::DeselectAllBeetles => {
                game.deselect_all_beetles();
            },
            UiMessage::CreateBeetle { x, y } => {
                if game.ids.next < i64::MAX {
                    let beetle: Beetle = BeetleBuilder::new()
                        .x_pos(clamp_i64(x, -POS_LIMIT, POS_LIMIT))
                        .y_pos(clamp_i64(y, -POS_LIMIT, POS_LIMIT))
                        .build();
                    let _ = game.add_beetle(beetle);
                }
            },
            UiMessage::SelectedInteractCommand { target_id } => {
                game.selected_interact_command(target_id);
            },
            UiMessage::SelectedHarvestCommand => {
                game.selected_harvest_command();
            },
            UiMessage::SelectedStopCommand => {
                game.selected_stop_command();
            },
            UiMessage::Terminate => {
                done = true;
            },
            UiMessage::RunSpeedSimulation => {
                run_speed_generations(game, GaConfig::standard());
            },
            UiMessage::RunBattleSimulation => {
                run_selected_through_ga(game, true);
            },
            UiMessage::RunFoodGa => {
                run_selected_through_ga(game, false);
            },
            UiMessage::RunFightSimulation => {
                let done_when = SingleTeamLeft {};
                let _ticks: u64 = run_fight(game, &done_when, HANDLER_FIGHT_TICKS);
            },
            UiMessage::CreateFormation => {
                if game.field_state.selected_beetles.len() <= 1_000_000 {
                    game.create_formation();
                }
            },
        }
        done
    }
}

/// The agent at position `q` of `pop` is a field-for-field copy of some
/// agent of `world`.
pub open spec fn copied_from_world(pop: Seq<Beetle>, world: Seq<Beetle>, q: int) -> bool {
    exists|bi: int| 0 <= bi < world.len() && crate::game::beetle_like(pop[q], #[trigger] world[bi])
}

/// Collects the selected agents (each id once, in selection order) as a
/// standalone population of copies: every collected agent is a
/// field-for-field copy of some agent of the world.
fn collect_selected(game: &Game) -> (pop: Vec<Beetle>)
    requires
        game_wf(*game),
    ensures
        population_standalone_ok(pop@),
        forall|q: int|
            0 <= q < pop@.len() ==> #[trigger] copied_from_world(
                pop@,
                game.field_state.beetles@,
                q,
            ),
{
    let m: usize = game.field_state.selected_beetles.len();
    let mut pop: Vec<Beetle> = Vec::new();
    let mut j: usize = 0;
    while j < m
        invariant
            game_wf(*game),
            m == game.field_state.selected_beetles@.len(),
            0 <= j <= m,
            population_standalone_ok(pop@),
            forall|q: int|
                0 <= q < pop@.len() ==> #[trigger] copied_from_world(
                    pop@,
                    game.field_state.beetles@,
                    q,
                ),
        decreases m - j,
    {
        let id: Id = game.field_state.selected_beetles[j];
        let mut already: bool = false;
        let mut t: usize = 0;
        let p: usize = pop.len();
        while t < p
            invariant
                p == pop@.len(),
                0 <= t <= p,
                already ==> exists|q: int| 0 <= q < p && (#[trigger] pop@[q].id) == id,
                !already ==> forall|q: int| 0 <= q < t ==> (#[trigger] pop@[q].id) != id,
            decreases p - t,
        {
            if pop[t].id == id {
                already = true;
                t = p;
            } else {
                t = t + 1;
            }
        }
        if !already {
            match find_index_by_id(&game.field_state.beetles, id) {
                Option::Some(bi) => {
                    proof {
                        assert(game.field_state.beetles@[bi as int].wf());
                    }
                    let b: Beetle = game.field_state.beetles[bi].duplicate();
                    let ghost before = pop@;
                    pop.push(b);
                    proof {
                        assert forall|q: int, w: int| 0 <= q < w < pop@.len() implies (
                        #[trigger] pop@[q].id) != (#[trigger] pop@[w].id) by {
                            if w < before.len() {
                                assert(pop@[q] == before[q]);
                                assert(pop@[w] == before[w]);
                            } else {
                                assert(pop@[w] == b);
                                if q < before.len() {
                                    assert(pop@[q] == before[q]);
                                }
                            }
                        }
                        assert forall|q: int| 0 <= q < pop@.len() implies (
                        #[trigger] pop@[q]).wf() && STARTING_ID <= pop@[q].id < i64::MAX by {
                            if q < before.len() {
                                assert(pop@[q] == before[q]);
                            } else {
                                assert(pop@[q] == b);
                            }
                        }
                        assert forall|q: int| 0 <= q < pop@.len() implies
                            #[trigger] copied_from_world(
                            pop@,
                            game.field_state.beetles@,
                            q,
                        ) by {
                            if q < before.len() {
                                assert(pop@[q] == before[q]);
                                assert(copied_from_world(before, game.field_state.beetles@, q));
                                let wbi = choose|bi2: int|
                                    0 <= bi2 < game.field_state.beetles@.len()
                                        && crate::game::beetle_like(
                                        before[q],
                                        #[trigger] game.field_state.beetles@[bi2],
                                    );
                                assert(crate::game::beetle_like(
                                    pop@[q],
                                    game.field_state.beetles@[wbi],
                                ));
                            } else {
                                assert(pop@[q] == b);
                                assert(crate::game::beetle_like(
                                    pop@[q],
                                    game.field_state.beetles@[bi as int],
                                ));
                            }
                        }
                    }
                },
                Option::None => {},
            }
        }
        j = j + 1;
    }
    pop
}

/// Evolves the selected agents through the battle or foraging trainer,
/// then writes each evolved agent back over the agent whose selection
/// slot it came from, keeping that agent's id and position; the whole
/// group lands on one team with one shared heading.
fn run_selected_through_ga(game: &mut Game, use_battle: bool)
    requires
        game_wf(*old(game)),
    ensures
        game_wf(*final(game)),
{
    let pop: Vec<Beetle> = collect_selected(game);
    let evolved: Vec<Beetle> = if use_battle {
        let mut ga = BattleGA::new(pop);
        ga.run();
        ga.game.field_state.beetles
    } else {
        let mut ga = FoodGA::new(pop);
        ga.run();
        ga.game.field_state.beetles
    };
    let team: Id = if use_battle {
        0
    } else {
        1
    };
    let heading: Vec2 = if use_battle {
        Vec2 { x: FP_ONE, y: 0 }
    } else {
        Vec2 { x: -FP_ONE, y: 0 }
    };
    let m: usize = game.field_state.selected_beetles.len();
    let e: usize = evolved.len();
    let n: usize = if m < e {
        m
    } else {
        e
    };
    let mut j: usize = 0;
    while j < n
        invariant
            game_wf(*game),
            beetles_ok(evolved@),
            m == game.field_state.selected_beetles@.len(),
            e == evolved@.len(),
            n <= m,
            n <= e,
            0 <= j <= n,
            -FP_ONE <= heading.x <= FP_ONE,
            heading.y == 0,
        decreases n - j,
    {
        let id: Id = game.field_state.selected_beetles[j];
        match find_index_by_id(&game.field_state.beetles, id) {
            Option::Some(bi) => {
                proof {
                    assert(evolved@[j as int].wf());
                }
                let mut replacement: Beetle = evolved[j].duplicate();
                let keep_position: Vec2 = game.field_state.beetles[bi].position;
                proof {
                    assert(game.field_state.beetles@[bi as int].wf());
                }
                replacement.id = id;
                replacement.position = keep_position;
                replacement.team_id = team;
                replacement.direction = heading;
                let ghost before = game.field_state.beetles@;
                {
                    let slot = vec_index_mut(&mut game.field_state.beetles, bi);
                    *slot = replacement;
                }
                proof {
                    assert(forall|i: int|
                        0 <= i < game.field_state.beetles@.len() ==> (
                        #[trigger] game.field_state.beetles@[i]).id == before[i].id);
                    assert(forall|i: int|
                        0 <= i < game.field_state.beetles@.len() ==> (
                        #[trigger] game.field_state.beetles@[i]).wf());
                }
            },
            Option::None => {},
        }
        j = j + 1;
    }
}

} // verus!
