use battle_beetles::game::{Game, Command};
use battle_beetles::message_handler::{MessageHandler, UiMessage};

#[test]
fn terminate_is_the_only_shutdown_message() {
    let mut handler = MessageHandler::new();
    let mut game = Game::new();
    assert!(handler.handle_message(&mut game, UiMessage::Terminate));
    assert!(!handler.handle_message(&mut game, UiMessage::DeselectAllBeetles));
    assert!(!handler.handle_message(&mut game, UiMessage::CreateBeetle { x: 0, y: 0 }));
}

#[test]
fn create_select_and_command_flow() {
    let mut handler = MessageHandler::new();
    let mut game = Game::new();
    handler.handle_message(&mut game, UiMessage::CreateBeetle { x: 10_000, y: 20_000 });
    assert_eq!(game.field_state.beetles.len(), 1);
    let id = game.field_state.beetles[0].id;
    handler.handle_message(&mut game, UiMessage::SelectBeetle { beetle_id: id });
    assert!(game.field_state.beetles[0].selected);
    assert_eq!(game.field_state.selected_beetles.len(), 1);
    handler.handle_message(&mut game, UiMessage::SelectedInteractCommand { target_id: 99 });
    assert_eq!(
        game.field_state.beetles[0].current_command,
        Command::Interact { target_id: 99 }
    );
    handler.handle_message(&mut game, UiMessage::SelectedHarvestCommand);
    assert_eq!(game.field_state.beetles[0].current_command, Command::HarvestClosestFood);
    handler.handle_message(&mut game, UiMessage::SelectedStopCommand);
    assert_eq!(game.field_state.beetles[0].current_command, Command::Stop);
    handler.handle_message(&mut game, UiMessage::DeselectAllBeetles);
    assert!(!game.field_state.beetles[0].selected);
    assert!(game.field_state.selected_beetles.is_empty());
}

#[test]
fn select_all_in_area_selects_exactly_the_box() {
    let mut handler = MessageHandler::new();
    let mut game = Game::new();
    handler.handle_message(&mut game, UiMessage::CreateBeetle { x: 10_000, y: 10_000 });
    handler.handle_message(&mut game, UiMessage::CreateBeetle { x: 90_000, y: 90_000 });
    handler.handle_message(
        &mut game,
        UiMessage::SelectAllInArea { x1: 0, y1: 0, x2: 50_000, y2: 50_000 },
    );
    assert_eq!(game.field_state.selected_beetles.len(), 1);
    assert!(game.field_state.beetles[0].selected);
    assert!(!game.field_state.beetles[1].selected);
}

#[test]
fn create_formation_orders_every_selected_agent_to_move() {
    let mut handler = MessageHandler::new();
    let mut game = Game::new();
    handler.handle_message(&mut game, UiMessage::CreateBeetle { x: 10_000, y: 10_000 });
    handler.handle_message(&mut game, UiMessage::CreateBeetle { x: 40_000, y: 40_000 });
    handler.handle_message(
        &mut game,
        UiMessage::SelectAllInArea { x1: 0, y1: 0, x2: 50_000, y2: 50_000 },
    );
    handler.handle_message(&mut game, UiMessage::CreateFormation);
    for b in game.field_state.beetles.iter() {
        assert!(
            matches!(b.current_command, Command::Move { .. }),
            "every selected agent is sent moving"
        );
    }
}

#[test]
fn selected_move_command_reaches_the_single_selection() {
    let mut handler = MessageHandler::new();
    let mut game = Game::new();
    handler.handle_message(&mut game, UiMessage::CreateBeetle { x: 0, y: 0 });
    let id = game.field_state.beetles[0].id;
    handler.handle_message(&mut game, UiMessage::SelectBeetle { beetle_id: id });
    handler.handle_message(&mut game, UiMessage::SelectedMoveCommand { x: 30_000, y: 40_000 });
    match game.field_state.beetles[0].current_command {
        Command::Move { position } => {
            assert_eq!(position.x, 30_000);
            assert_eq!(position.y, 40_000);
        }
        other => panic!("expected a move command, got {:?}", other),
    }
}
