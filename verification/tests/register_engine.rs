use roborally::engine::register_engine::{RegisterEngine, RegisterEngineError};
use roborally::state::{
    Board, EDirection, ERobotStatus, ERotationDirection, ESimpleMove, ETileType, MoveCard,
    Player, Position, Register, Robot, RobotBuilder, State, StateError, Tile,
};

fn plain_board(size_x: i32, size_y: i32) -> Board {
    Board::new_empty_board(size_x, size_y)
}

fn set_type(board: &mut Board, x: i32, y: i32, ttype: ETileType) {
    let index = (x + y * board.size_x) as usize;
    board.tiles[index].ttype = ttype;
}

fn add_wall(board: &mut Board, x: i32, y: i32, direction: EDirection) {
    let index = (x + y * board.size_x) as usize;
    board.tiles[index].walls.push(direction);
}

fn conveyor(out: EDirection, input: EDirection, express: bool) -> ETileType {
    ETileType::Conveyor2 { out, input, express }
}

/// A five by five board with a rotator to the right at (2, 1).
fn rotator_board() -> Board {
    let mut board = plain_board(5, 5);
    set_type(&mut board, 2, 1, ETileType::Rotator { dir: ERotationDirection::Right });
    board
}

/// A five by five board with conveyors:
/// a walled belt down the first column that bends to the east at its end,
/// an express belt to the west in the fourth row,
/// two belts that face each other in the second row,
/// and a belt in the first row that leads onto a regular tile.
fn conveyor_board() -> Board {
    let mut board = plain_board(5, 5);
    set_type(&mut board, 0, 0, conveyor(EDirection::SOUTH, EDirection::NORTH, false));
    add_wall(&mut board, 0, 0, EDirection::SOUTH);
    set_type(&mut board, 0, 1, conveyor(EDirection::SOUTH, EDirection::NORTH, false));
    add_wall(&mut board, 0, 2, EDirection::NORTH);
    set_type(&mut board, 0, 3, conveyor(EDirection::SOUTH, EDirection::NORTH, true));
    set_type(&mut board, 0, 4, conveyor(EDirection::EAST, EDirection::NORTH, false));
    set_type(&mut board, 3, 3, conveyor(EDirection::WEST, EDirection::EAST, true));
    set_type(&mut board, 2, 3, conveyor(EDirection::WEST, EDirection::EAST, false));
    set_type(&mut board, 2, 1, conveyor(EDirection::EAST, EDirection::WEST, false));
    set_type(&mut board, 3, 1, conveyor(EDirection::WEST, EDirection::EAST, false));
    set_type(&mut board, 2, 0, conveyor(EDirection::EAST, EDirection::WEST, false));
    board
}

/// A four by three board with a belt that leads over the northern edge and a
/// belt that leads onto a missing tile.
fn deadly_conveyor_board() -> Board {
    let mut board = plain_board(4, 3);
    set_type(&mut board, 1, 0, conveyor(EDirection::NORTH, EDirection::SOUTH, false));
    set_type(&mut board, 2, 1, conveyor(EDirection::EAST, EDirection::WEST, false));
    set_type(&mut board, 3, 1, ETileType::NoTile);
    board
}

fn robot(id: u32, x: i32, y: i32, direction: EDirection) -> Robot {
    RobotBuilder::default()
        .id(id)
        .position(Position::new(x, y))
        .direction(direction)
        .build()
        .unwrap()
}

fn create_state(board: Board) -> (Board, Vec<Player>) {
    let robot1 = RobotBuilder::default()
        .id(0)
        .position(Position::new(2, 2))
        .direction(EDirection::NORTH)
        .build()
        .unwrap();
    let player1 =
        Player::new_with_move(0, robot1, MoveCard::new_from_moves(0, 1, &[ESimpleMove::Forward]));

    let robot2 = RobotBuilder::default()
        .id(1)
        .position(Position::new(4, 4))
        .direction(EDirection::EAST)
        .build()
        .unwrap();
    let player2 = Player::new_with_move(
        1,
        robot2,
        MoveCard::new_from_moves(1, 2, &[ESimpleMove::TurnLeft, ESimpleMove::Forward]),
    );
    (board, vec![player1, player2])
}

#[test]
fn register_engine_test_simple_move() -> Result<(), RegisterEngineError> {
    let (board, players) = create_state(plain_board(5, 5));
    let state = State::new_with_random_deck(board, players);

    let engine = RegisterEngine::default();
    let actual_state = engine.execute_registers(state)?;

    let actual_robot1 = actual_state.get_robot_by_player_id_or_fail(0).unwrap();
    let actual_robot2 = actual_state.get_robot_by_player_id_or_fail(1).unwrap();
    assert_eq!(actual_robot1.direction, EDirection::NORTH, "robot1 direction");
    assert_eq!(actual_robot1.position, Position { x: 2, y: 1 }, "robot1 position");
    assert_eq!(actual_robot2.direction, EDirection::NORTH, "robot2 direction");
    assert_eq!(actual_robot2.position, Position { x: 4, y: 3 }, "robot2 position");

    Ok(())
}

#[test]
fn test_dead_robot_does_not_move() -> Result<(), RegisterEngineError> {
    let board = plain_board(5, 5);

    let player_id1: u32 = 0;
    let robot1 = robot(0, 0, 0, EDirection::NORTH);
    let player1 = Player::new_with_move(
        player_id1,
        robot1,
        MoveCard::new_from_moves(
            0,
            1,
            &[ESimpleMove::Forward, ESimpleMove::Forward, ESimpleMove::Forward],
        ),
    );

    let player_id2: u32 = 1;
    let robot2 = robot(1, 1, 0, EDirection::SOUTH);
    let player2 = Player::new_with_move(
        player_id2,
        robot2,
        MoveCard::new_from_moves(1, 2, &[ESimpleMove::Forward]),
    );
    let players = vec![player1, player2];

    let state = State::new_with_random_deck(board, players);

    let engine = RegisterEngine::default();
    let actual_state = engine.execute_registers(state)?;

    let actual_robot1 = actual_state.get_robot_by_player_id_or_fail(0).unwrap();
    let actual_robot2 = actual_state.get_robot_by_player_id_or_fail(1).unwrap();
    assert_eq!(actual_robot1.direction, EDirection::NORTH, "robot1 direction");
    assert_eq!(actual_robot1.position, Position { x: 0, y: -1 }, "robot1 position");
    assert_eq!(actual_robot2.direction, EDirection::SOUTH, "robot2 direction");
    assert_eq!(actual_robot2.position, Position { x: 1, y: 1 }, "robot2 position");

    Ok(())
}

#[test]
fn test_rotators() -> Result<(), RegisterEngineError> {
    let board = rotator_board();

    let robot1 = robot(0, 2, 0, EDirection::SOUTH);
    let player1 =
        Player::new_with_move(0, robot1, MoveCard::new_from_moves(0, 1, &[ESimpleMove::Forward]));

    let robot2 = robot(1, 0, 0, EDirection::SOUTH);
    let player2 =
        Player::new_with_move(1, robot2, MoveCard::new_from_moves(1, 2, &[ESimpleMove::Forward]));
    let players = vec![player1, player2];

    let state = State::new_with_random_deck(board, players);

    let engine = RegisterEngine::default();
    let actual_state = engine.execute_registers(state)?;

    let actual_robot1 = actual_state.get_robot_by_player_id_or_fail(0).unwrap();
    let actual_robot2 = actual_state.get_robot_by_player_id_or_fail(1).unwrap();
    assert_eq!(actual_robot1.position, Position { x: 2, y: 1 }, "robot1 position");
    assert_eq!(actual_robot1.direction, EDirection::WEST, "robot1 direction");
    assert_eq!(actual_robot2.direction, EDirection::SOUTH, "robot2 direction");
    assert_eq!(actual_robot2.position, Position { x: 0, y: 1 }, "robot2 position");

    Ok(())
}

#[test]
fn test_conveyor_moves_simple_express() -> Result<(), RegisterEngineError> {
    let board = conveyor_board();

    let robot1 = robot(0, 3, 2, EDirection::SOUTH);
    let player1 =
        Player::new_with_move(0, robot1, MoveCard::new_from_moves(0, 1, &[ESimpleMove::Forward]));
    let players = vec![player1];

    let state = State::new_with_random_deck(board, players);

    let engine = RegisterEngine::default();
    let actual_state = engine.execute_registers(state)?;

    let actual_robot1 = actual_state.get_robot_by_player_id_or_fail(0).unwrap();
    assert_eq!(actual_robot1.position, Position { x: 1, y: 3 }, "robot1 position");
    assert_eq!(actual_robot1.direction, EDirection::SOUTH, "robot1 direction");

    Ok(())
}

#[test]
fn test_conveyor_moves_turn() -> Result<(), RegisterEngineError> {
    let board = conveyor_board();

    let robot1 = robot(0, 0, 2, EDirection::SOUTH);
    let player1 =
        Player::new_with_move(0, robot1, MoveCard::new_from_moves(0, 1, &[ESimpleMove::Forward]));
    let players = vec![player1];

    let state = State::new_with_random_deck(board, players);

    let engine = RegisterEngine::default();
    let actual_state = engine.execute_registers(state)?;

    let actual_robot1 = actual_state.get_robot_by_player_id_or_fail(0).unwrap();
    assert_eq!(actual_robot1.position, Position { x: 1, y: 4 }, "robot1 position");
    assert_eq!(actual_robot1.direction, EDirection::EAST, "robot1 direction");

    Ok(())
}

#[test]
fn test_conveyor_moves_wall_blocks() -> Result<(), RegisterEngineError> {
    let board = conveyor_board();

    let robot1 = robot(0, 1, 0, EDirection::WEST);
    let player1 =
        Player::new_with_move(0, robot1, MoveCard::new_from_moves(0, 1, &[ESimpleMove::Forward]));

    let robot2 = robot(1, 1, 1, EDirection::WEST);
    let player2 =
        Player::new_with_move(1, robot2, MoveCard::new_from_moves(1, 2, &[ESimpleMove::Forward]));
    let players = vec![player1, player2];

    let state = State::new_with_random_deck(board, players);

    let engine = RegisterEngine::default();
    let actual_state = engine.execute_registers(state)?;

    let actual_robot1 = actual_state.get_robot_by_player_id_or_fail(0).unwrap();
    let actual_robot2 = actual_state.get_robot_by_player_id_or_fail(1).unwrap();
    assert_eq!(actual_robot1.position, Position { x: 0, y: 0 }, "robot1 position");
    assert_eq!(actual_robot1.direction, EDirection::WEST, "robot1 direction");
    assert_eq!(actual_robot2.direction, EDirection::WEST, "robot2 direction");
    assert_eq!(actual_robot2.position, Position { x: 0, y: 1 }, "robot2 position");

    Ok(())
}

#[test]
fn test_conveyor_moves_no_ghosting() -> Result<(), RegisterEngineError> {
    let board = conveyor_board();

    let robot1 = robot(0, 2, 1, EDirection::SOUTH);
    let player1 = Player::new_with_move(0, robot1, MoveCard::new_from_moves(0, 1, &[]));

    let robot2 = robot(1, 3, 1, EDirection::NORTH);
    let player2 = Player::new_with_move(1, robot2, MoveCard::new_from_moves(1, 2, &[]));
    let players = vec![player1, player2];

    let state = State::new_with_random_deck(board, players);

    let engine = RegisterEngine::default();
    let actual_state = engine.execute_registers(state)?;

    let actual_robot1 = actual_state.get_robot_by_player_id_or_fail(0).unwrap();
    let actual_robot2 = actual_state.get_robot_by_player_id_or_fail(1).unwrap();
    assert_eq!(actual_robot1.position, Position { x: 2, y: 1 }, "robot1 position");
    assert_eq!(actual_robot1.direction, EDirection::SOUTH, "robot1 direction");
    assert_eq!(actual_robot2.direction, EDirection::NORTH, "robot2 direction");
    assert_eq!(actual_robot2.position, Position { x: 3, y: 1 }, "robot2 position");

    Ok(())
}

#[test]
fn test_conveyor_moves_not_into_static_robot() -> Result<(), RegisterEngineError> {
    let board = conveyor_board();

    let robot1 = robot(0, 2, 0, EDirection::SOUTH);
    let player1 = Player::new_with_move(0, robot1, MoveCard::new_from_moves(0, 1, &[]));

    let robot2 = robot(1, 3, 0, EDirection::NORTH);
    let player2 = Player::new_with_move(1, robot2, MoveCard::new_from_moves(1, 2, &[]));
    let players = vec![player1, player2];

    let state = State::new_with_random_deck(board, players);

    let engine = RegisterEngine::default();
    let actual_state = engine.execute_registers(state)?;

    let actual_robot1 = actual_state.get_robot_by_player_id_or_fail(0).unwrap();
    let actual_robot2 = actual_state.get_robot_by_player_id_or_fail(1).unwrap();
    assert_eq!(actual_robot1.position, Position { x: 2, y: 0 }, "robot1 position");
    assert_eq!(actual_robot1.direction, EDirection::SOUTH, "robot1 direction");
    assert_eq!(actual_robot2.direction, EDirection::NORTH, "robot2 direction");
    assert_eq!(actual_robot2.position, Position { x: 3, y: 0 }, "robot2 position");

    Ok(())
}

#[test]
fn test_conveyor_moves_to_death() -> Result<(), RegisterEngineError> {
    let board = deadly_conveyor_board();

    let robot1 = robot(0, 0, 0, EDirection::EAST);
    let player1 =
        Player::new_with_move(0, robot1, MoveCard::new_from_moves(0, 1, &[ESimpleMove::Forward]));

    let robot2 = robot(1, 1, 1, EDirection::EAST);
    let player2 =
        Player::new_with_move(1, robot2, MoveCard::new_from_moves(1, 2, &[ESimpleMove::Forward]));
    let players = vec![player1, player2];

    let state = State::new_with_random_deck(board, players);

    let engine = RegisterEngine::default();
    let actual_state = engine.execute_registers(state)?;

    let actual_robot1 = actual_state.get_robot_by_player_id_or_fail(0).unwrap();
    let actual_robot2 = actual_state.get_robot_by_player_id_or_fail(1).unwrap();

    assert_eq!(actual_robot1.is_destroyed(), true, "robot1 is_destroyed");
    assert_eq!(actual_robot1.direction, EDirection::EAST, "robot1 direction");
    assert_eq!(actual_robot2.direction, EDirection::EAST, "robot2 direction");
    assert_eq!(actual_robot2.is_destroyed(), true, "robot2 is_destroyed");
    assert_eq!(actual_robot1.position, Position { x: 1, y: -1 });
    assert_eq!(actual_robot2.position, Position { x: 3, y: 1 });

    Ok(())
}

#[test]
fn register_engine_test_wall_blocks() -> Result<(), RegisterEngineError> {
    let board = Board {
        tiles: vec![
            Tile {
                position: Position { x: 0, y: 0 },
                ttype: ETileType::Regular,
                walls: vec![EDirection::SOUTH, EDirection::EAST],
                start_position_id: None,
            },
            Tile {
                position: Position { x: 1, y: 0 },
                ttype: ETileType::Regular,
                walls: vec![],
                start_position_id: None,
            },
            Tile {
                position: Position { x: 0, y: 1 },
                ttype: ETileType::Regular,
                walls: vec![],
                start_position_id: None,
            },
            Tile {
                position: Position { x: 1, y: 1 },
                ttype: ETileType::Regular,
                walls: vec![],
                start_position_id: None,
            },
        ],
        size_x: 2,
        size_y: 2,
    };

    let player_id1: u32 = 0;
    let robot1_pos = Position::new(0, 1);
    let robot1 = RobotBuilder::default()
        .id(0)
        .position(robot1_pos.clone())
        .direction(EDirection::NORTH)
        .build()
        .unwrap();
    let player1 = Player::new_with_move(
        player_id1,
        robot1,
        MoveCard::new_from_moves(0, 1, &[ESimpleMove::Forward]),
    );

    let player_id2: u32 = 1;
    let robot2_pos = Position::new(1, 0);
    let robot2 = RobotBuilder::default()
        .id(1)
        .position(robot2_pos)
        .direction(EDirection::WEST)
        .build()
        .unwrap();
    let player2 = Player::new_with_move(
        player_id2,
        robot2,
        MoveCard::new_from_moves(1, 2, &[ESimpleMove::Forward]),
    );
    let players = vec![player1, player2];

    let state = State::new_with_random_deck(board, players);

    let engine = RegisterEngine::default();
    let actual_state = engine.execute_registers(state)?;

    let actual_robot1 = actual_state.get_robot_by_player_id_or_fail(0).unwrap();
    let actual_robot2 = actual_state.get_robot_by_player_id_or_fail(1).unwrap();
    assert_eq!(actual_robot1.direction, EDirection::NORTH, "robot1 direction");
    assert_eq!(actual_robot1.position, robot1_pos, "robot1 position");
    assert_eq!(actual_robot2.direction, EDirection::WEST, "robot2 direction");
    assert_eq!(actual_robot2.position, robot2_pos, "robot2 position");

    Ok(())
}

fn idle_player(id: u32, robot: Robot) -> Player {
    Player::new_with_move(id, robot, MoveCard::new_from_moves(id, id + 1, &[]))
}

fn state_of(board: Board, robots: Vec<Robot>) -> Box<State> {
    let players = robots.into_iter().enumerate().map(|(i, r)| idle_player(i as u32, r)).collect();
    Box::new(State::new(board, players))
}

fn robot_of(state: &State, player_id: u32) -> Robot {
    *state.get_robot_for(player_id).unwrap()
}

#[test]
fn forward_without_obstruction_advances_one_tile() {
    let engine = RegisterEngine::new();
    for (direction, expected) in [
        (EDirection::NORTH, Position { x: 2, y: 1 }),
        (EDirection::EAST, Position { x: 3, y: 2 }),
        (EDirection::SOUTH, Position { x: 2, y: 3 }),
        (EDirection::WEST, Position { x: 1, y: 2 }),
    ] {
        let state = state_of(plain_board(5, 5), vec![robot(0, 2, 2, direction)]);
        let after = engine.perform_simple_move(state, 0, &ESimpleMove::Forward).unwrap();
        let moved = robot_of(&after, 0);
        assert_eq!(moved.position, expected);
        assert_eq!(moved.direction, direction);
        assert_eq!(moved.status, ERobotStatus::Alive);
    }
}

#[test]
fn moving_steps_travel_relative_to_the_facing() {
    let engine = RegisterEngine::new();
    for (smove, expected) in [
        (ESimpleMove::Backward, Position { x: 2, y: 3 }),
        (ESimpleMove::StepLeft, Position { x: 1, y: 2 }),
        (ESimpleMove::StepRight, Position { x: 3, y: 2 }),
    ] {
        let state = state_of(plain_board(5, 5), vec![robot(0, 2, 2, EDirection::NORTH)]);
        let after = engine.perform_simple_move(state, 0, &smove).unwrap();
        let moved = robot_of(&after, 0);
        assert_eq!(moved.position, expected);
        assert_eq!(moved.direction, EDirection::NORTH);
    }
}

#[test]
fn turning_steps_change_the_facing_only() {
    let engine = RegisterEngine::new();
    for (smove, expected) in [
        (ESimpleMove::TurnLeft, EDirection::WEST),
        (ESimpleMove::TurnRight, EDirection::EAST),
        (ESimpleMove::UTurn, EDirection::SOUTH),
    ] {
        let state = state_of(plain_board(5, 5), vec![robot(0, 2, 2, EDirection::NORTH)]);
        let after = engine.perform_simple_move(state, 0, &smove).unwrap();
        let moved = robot_of(&after, 0);
        assert_eq!(moved.position, Position { x: 2, y: 2 });
        assert_eq!(moved.direction, expected);
    }
}

#[test]
fn wall_on_either_side_blocks_every_moving_step() {
    let engine = RegisterEngine::new();
    // The wall is declared on the tile of the robot, then on the neighbour.
    for own_side in [true, false] {
        for (smove, travel) in [
            (ESimpleMove::Forward, EDirection::NORTH),
            (ESimpleMove::Backward, EDirection::SOUTH),
            (ESimpleMove::StepLeft, EDirection::WEST),
            (ESimpleMove::StepRight, EDirection::EAST),
        ] {
            let mut board = plain_board(5, 5);
            if own_side {
                add_wall(&mut board, 2, 2, travel);
            } else {
                let (nx, ny) = match travel {
                    EDirection::NORTH => (2, 1),
                    EDirection::SOUTH => (2, 3),
                    EDirection::WEST => (1, 2),
                    EDirection::EAST => (3, 2),
                };
                add_wall(&mut board, nx, ny, travel.opposite());
            }
            let state = state_of(board, vec![robot(0, 2, 2, EDirection::NORTH)]);
            let after = engine.perform_simple_move(state, 0, &smove).unwrap();
            let moved = robot_of(&after, 0);
            assert_eq!(moved.position, Position { x: 2, y: 2 });
            assert_eq!(moved.direction, EDirection::NORTH);
        }
    }
}

#[test]
fn pushing_shifts_both_robots() {
    let engine = RegisterEngine::new();
    let state = state_of(
        plain_board(5, 5),
        vec![robot(0, 1, 2, EDirection::EAST), robot(1, 2, 2, EDirection::NORTH)],
    );
    let after = engine.try_to_move_robot(state, 0, EDirection::EAST).unwrap();
    assert_eq!(robot_of(&after, 0).position, Position { x: 2, y: 2 });
    assert_eq!(robot_of(&after, 1).position, Position { x: 3, y: 2 });
    assert_eq!(robot_of(&after, 1).direction, EDirection::NORTH);
}

#[test]
fn pushing_against_a_wall_moves_nobody() {
    let engine = RegisterEngine::new();
    let mut board = plain_board(5, 5);
    add_wall(&mut board, 3, 2, EDirection::WEST);
    let state = state_of(
        board,
        vec![robot(0, 1, 2, EDirection::EAST), robot(1, 2, 2, EDirection::NORTH)],
    );
    let after = engine.try_to_move_robot(state, 0, EDirection::EAST).unwrap();
    assert_eq!(robot_of(&after, 0).position, Position { x: 1, y: 2 });
    assert_eq!(robot_of(&after, 1).position, Position { x: 2, y: 2 });
}

#[test]
fn a_chain_of_three_is_pushed_and_its_last_robot_falls() {
    let engine = RegisterEngine::new();
    let state = state_of(
        plain_board(5, 5),
        vec![
            robot(0, 2, 0, EDirection::EAST),
            robot(1, 3, 0, EDirection::SOUTH),
            robot(2, 4, 0, EDirection::WEST),
        ],
    );
    let after = engine.try_to_move_robot(state, 0, EDirection::EAST).unwrap();
    assert_eq!(robot_of(&after, 0).position, Position { x: 3, y: 0 });
    assert_eq!(robot_of(&after, 1).position, Position { x: 4, y: 0 });
    assert_eq!(robot_of(&after, 2).position, Position { x: 5, y: 0 });
    assert_eq!(robot_of(&after, 2).status, ERobotStatus::Destroyed);
    assert_eq!(robot_of(&after, 2).direction, EDirection::WEST);
    assert_eq!(robot_of(&after, 1).status, ERobotStatus::Alive);
}

#[test]
fn robot_driven_off_the_grid_is_destroyed() {
    let engine = RegisterEngine::new();
    let mut hurt = robot(0, 0, 3, EDirection::WEST);
    hurt.damage = 4;
    let state = state_of(plain_board(5, 5), vec![hurt]);
    let after = engine.perform_simple_move(state, 0, &ESimpleMove::Forward).unwrap();
    let fallen = robot_of(&after, 0);
    assert_eq!(fallen.position, Position { x: -1, y: 3 });
    assert_eq!(fallen.direction, EDirection::WEST);
    assert_eq!(fallen.status, ERobotStatus::Destroyed);
    assert_eq!(fallen.damage, 0);
    assert!(fallen.is_destroyed());
    assert!(!fallen.is_active());
}

#[test]
fn robot_stepping_onto_a_missing_tile_is_destroyed() {
    let engine = RegisterEngine::new();
    let mut board = plain_board(3, 3);
    set_type(&mut board, 1, 0, ETileType::NoTile);
    let state = state_of(board, vec![robot(0, 1, 1, EDirection::NORTH)]);
    let after = engine.perform_simple_move(state, 0, &ESimpleMove::Forward).unwrap();
    assert_eq!(robot_of(&after, 0).position, Position { x: 1, y: 0 });
    assert!(robot_of(&after, 0).is_destroyed());
}

#[test]
fn undamaged_robot_is_not_destroyed() {
    let fresh = Robot::default();
    assert_eq!(fresh.damage, 0);
    assert!(!fresh.is_destroyed());
    assert!(fresh.is_active());
    let mut spent = fresh;
    spent.life_tokens = 0;
    assert!(!spent.is_active());
}

#[test]
fn conveyors_with_one_target_move_nobody() {
    let engine = RegisterEngine::new();
    let mut board = plain_board(3, 3);
    set_type(&mut board, 0, 1, conveyor(EDirection::EAST, EDirection::WEST, false));
    set_type(&mut board, 2, 1, conveyor(EDirection::WEST, EDirection::EAST, false));
    let state = state_of(
        board,
        vec![robot(0, 0, 1, EDirection::NORTH), robot(1, 2, 1, EDirection::NORTH)],
    );
    let after = engine.perform_conveyor_move(state, false).unwrap();
    assert_eq!(robot_of(&after, 0).position, Position { x: 0, y: 1 });
    assert_eq!(robot_of(&after, 1).position, Position { x: 2, y: 1 });
}

#[test]
fn three_conveyors_with_one_target_move_nobody() {
    let engine = RegisterEngine::new();
    let mut board = plain_board(3, 3);
    set_type(&mut board, 0, 1, conveyor(EDirection::EAST, EDirection::WEST, false));
    set_type(&mut board, 2, 1, conveyor(EDirection::WEST, EDirection::EAST, false));
    set_type(&mut board, 1, 0, conveyor(EDirection::SOUTH, EDirection::NORTH, false));
    let state = state_of(
        board,
        vec![
            robot(0, 0, 1, EDirection::NORTH),
            robot(1, 2, 1, EDirection::NORTH),
            robot(2, 1, 0, EDirection::NORTH),
        ],
    );
    let after = engine.perform_conveyor_move(state, false).unwrap();
    assert_eq!(robot_of(&after, 0).position, Position { x: 0, y: 1 });
    assert_eq!(robot_of(&after, 1).position, Position { x: 2, y: 1 });
    assert_eq!(robot_of(&after, 2).position, Position { x: 1, y: 0 });
}

#[test]
fn conveyors_that_face_each_other_move_nobody() {
    let engine = RegisterEngine::new();
    let state = state_of(
        conveyor_board(),
        vec![robot(0, 2, 1, EDirection::SOUTH), robot(1, 3, 1, EDirection::NORTH)],
    );
    let after = engine.perform_conveyor_move(state, false).unwrap();
    assert_eq!(robot_of(&after, 0).position, Position { x: 2, y: 1 });
    assert_eq!(robot_of(&after, 1).position, Position { x: 3, y: 1 });
}

#[test]
fn conveyor_does_not_carry_into_a_static_robot() {
    let engine = RegisterEngine::new();
    let state = state_of(
        conveyor_board(),
        vec![robot(0, 2, 0, EDirection::SOUTH), robot(1, 3, 0, EDirection::NORTH)],
    );
    let after = engine.perform_conveyor_move(state, false).unwrap();
    assert_eq!(robot_of(&after, 0).position, Position { x: 2, y: 0 });
    assert_eq!(robot_of(&after, 1).position, Position { x: 3, y: 0 });
}

#[test]
fn conveyor_carries_onto_a_free_tile() {
    let engine = RegisterEngine::new();
    let state = state_of(conveyor_board(), vec![robot(0, 2, 0, EDirection::SOUTH)]);
    let after = engine.perform_conveyor_move(state, false).unwrap();
    assert_eq!(robot_of(&after, 0).position, Position { x: 3, y: 0 });
    assert_eq!(robot_of(&after, 0).direction, EDirection::SOUTH);
}

#[test]
fn express_pass_leaves_plain_conveyors_alone() {
    let engine = RegisterEngine::new();
    let state = state_of(
        conveyor_board(),
        vec![robot(0, 2, 3, EDirection::SOUTH), robot(1, 3, 3, EDirection::SOUTH)],
    );
    let after = engine.perform_conveyor_move(state, true).unwrap();
    // The plain belt at (2, 3) rests; the express belt at (3, 3) carries its
    // robot onto it.
    assert_eq!(robot_of(&after, 0).position, Position { x: 2, y: 3 });
    assert_eq!(robot_of(&after, 1).position, Position { x: 2, y: 3 });
}

#[test]
fn conveyor3_turns_a_robot_that_enters_through_an_input() {
    let engine = RegisterEngine::new();
    let mut board = plain_board(3, 3);
    set_type(&mut board, 0, 1, conveyor(EDirection::EAST, EDirection::WEST, false));
    set_type(
        &mut board,
        1,
        1,
        ETileType::Conveyor3 {
            out: EDirection::SOUTH,
            inputs: [EDirection::NORTH, EDirection::WEST],
            express: false,
        },
    );
    let state = state_of(board, vec![robot(0, 0, 1, EDirection::NORTH)]);
    let after = engine.perform_conveyor_move(state, false).unwrap();
    // Carried east onto a belt that leads south: a quarter turn to the right.
    assert_eq!(robot_of(&after, 0).position, Position { x: 1, y: 1 });
    assert_eq!(robot_of(&after, 0).direction, EDirection::EAST);
}

#[test]
fn conveyor_does_not_turn_a_robot_that_enters_from_the_side() {
    let engine = RegisterEngine::new();
    let mut board = plain_board(3, 3);
    set_type(&mut board, 0, 1, conveyor(EDirection::EAST, EDirection::WEST, false));
    set_type(&mut board, 1, 1, conveyor(EDirection::SOUTH, EDirection::NORTH, false));
    let state = state_of(board, vec![robot(0, 0, 1, EDirection::NORTH)]);
    let after = engine.perform_conveyor_move(state, false).unwrap();
    assert_eq!(robot_of(&after, 0).position, Position { x: 1, y: 1 });
    assert_eq!(robot_of(&after, 0).direction, EDirection::NORTH);
}

#[test]
fn rotator_turns_without_moving() {
    let engine = RegisterEngine::new();
    let mut board = rotator_board();
    set_type(&mut board, 0, 0, ETileType::Rotator { dir: ERotationDirection::Left });
    let state = state_of(
        board,
        vec![
            robot(0, 2, 1, EDirection::NORTH),
            robot(1, 0, 0, EDirection::NORTH),
            robot(2, 4, 4, EDirection::NORTH),
        ],
    );
    let after = engine.perform_rotations(state).unwrap();
    assert_eq!(robot_of(&after, 0).position, Position { x: 2, y: 1 });
    assert_eq!(robot_of(&after, 0).direction, EDirection::EAST);
    assert_eq!(robot_of(&after, 1).position, Position { x: 0, y: 0 });
    assert_eq!(robot_of(&after, 1).direction, EDirection::WEST);
    assert_eq!(robot_of(&after, 2).direction, EDirection::NORTH);
}

#[test]
fn destroyed_robot_is_left_alone_by_board_elements() {
    let engine = RegisterEngine::new();
    let dead = robot(0, 2, 1, EDirection::NORTH).die();
    let state = state_of(rotator_board(), vec![dead]);
    let after = engine.perform_rotations(state).unwrap();
    assert_eq!(robot_of(&after, 0).direction, EDirection::NORTH);
}

#[test]
fn active_robot_off_the_board_fails_board_elements() {
    let engine = RegisterEngine::new();
    let state = state_of(plain_board(2, 2), vec![robot(0, 5, 5, EDirection::NORTH)]);
    let result = engine.perform_conveyor_move(state, false);
    assert_eq!(
        result.err(),
        Some(RegisterEngineError::StateError {
            err: StateError::PositionOffBoard { position: Position { x: 5, y: 5 } }
        })
    );
    let state = state_of(plain_board(2, 2), vec![robot(0, 5, 5, EDirection::NORTH)]);
    let result = engine.try_to_move_robot(state, 0, EDirection::NORTH);
    assert_eq!(
        result.err(),
        Some(RegisterEngineError::StateError {
            err: StateError::PositionOffBoard { position: Position { x: 5, y: 5 } }
        })
    );
}

#[test]
fn unknown_robot_and_player_are_reported() {
    let engine = RegisterEngine::new();
    let state = state_of(plain_board(2, 2), vec![robot(0, 0, 0, EDirection::NORTH)]);
    assert_eq!(
        engine.try_to_move_robot(state, 9, EDirection::NORTH).err(),
        Some(RegisterEngineError::StateError { err: StateError::RobotNotFoundID { robot_id: 9 } })
    );
    let state = state_of(plain_board(2, 2), vec![robot(0, 0, 0, EDirection::NORTH)]);
    assert_eq!(
        engine.perform_simple_move(state, 9, &ESimpleMove::Forward).err(),
        Some(RegisterEngineError::StateError {
            err: StateError::RobotNotFoundPlayerID { player_id: 9 }
        })
    );
}

#[test]
fn empty_register_fails_the_phase() {
    let engine = RegisterEngine::new();
    let mut players = vec![
        idle_player(0, robot(0, 0, 0, EDirection::NORTH)),
        idle_player(1, robot(1, 1, 1, EDirection::NORTH)),
    ];
    players[1].registers = vec![Register::empty()];
    let state = Box::new(State::new(plain_board(2, 2), players));
    assert_eq!(
        engine.run_register_phase(state, 0).err(),
        Some(RegisterEngineError::StateError {
            err: StateError::EmptyProgramRegister { player_id: 1 }
        })
    );
}

#[test]
fn register_cards_come_sorted_by_priority() {
    let players = vec![
        Player::new_with_move(
            0,
            robot(0, 0, 0, EDirection::NORTH),
            MoveCard::new_from_moves(10, 500, &[ESimpleMove::Forward]),
        ),
        Player::new_with_move(
            1,
            robot(1, 1, 0, EDirection::NORTH),
            MoveCard::new_from_moves(11, 20, &[ESimpleMove::UTurn]),
        ),
        Player::new_with_move(
            2,
            robot(2, 2, 0, EDirection::NORTH),
            MoveCard::new_from_moves(12, 300, &[ESimpleMove::TurnLeft]),
        ),
    ];
    let state = State::new(plain_board(3, 3), players);
    let cards = state.get_register_cards_sorted_by_priority(0).unwrap();
    let order: Vec<(u32, u32, u32)> =
        cards.iter().map(|(p, c)| (*p, c.id, c.priority)).collect();
    assert_eq!(order, vec![(1, 11, 20), (2, 12, 300), (0, 10, 500)]);
    assert_eq!(state.register_count(), 1);
}

#[test]
fn all_registers_are_executed_in_order() {
    let mut player = Player::new(0, robot(0, 0, 0, EDirection::EAST));
    let moves: [&[ESimpleMove]; 5] = [
        &[ESimpleMove::Forward],
        &[ESimpleMove::TurnRight],
        &[ESimpleMove::Forward, ESimpleMove::Forward],
        &[ESimpleMove::TurnLeft],
        &[ESimpleMove::Backward],
    ];
    for (i, m) in moves.iter().enumerate() {
        player.registers[i].move_card = Some(MoveCard::new_from_moves(i as u32, i as u32 + 1, m));
    }
    let state = Box::new(State::new(plain_board(5, 5), vec![player]));
    let after = RegisterEngine::new().execute_registers(state).unwrap();
    assert_eq!(robot_of(&after, 0).position, Position { x: 0, y: 2 });
    assert_eq!(robot_of(&after, 0).direction, EDirection::EAST);
}

#[test]
fn state_errors_become_register_errors() {
    let err = StateError::PlayerNotFound { player_id: 3 };
    assert_eq!(RegisterEngineError::from(err), RegisterEngineError::StateError { err });
    assert_eq!(
        RegisterEngine::map_move_to_direction_change(&ESimpleMove::StepLeft, EDirection::SOUTH),
        EDirection::EAST
    );
}

#[test]
fn inactive_robot_performs_no_step() {
    let engine = RegisterEngine::new();
    let mut spent = robot(0, 2, 2, EDirection::NORTH);
    spent.life_tokens = 0;
    let state = state_of(plain_board(5, 5), vec![spent]);
    let chain = roborally::state::SimpleMove::new(&[ESimpleMove::Forward, ESimpleMove::TurnLeft]);
    let after = engine.perform_move(state, 0, &chain).unwrap();
    assert_eq!(robot_of(&after, 0), spent);
    // A card without steps asks for nobody.
    let state = state_of(plain_board(5, 5), vec![spent]);
    let nothing = roborally::state::SimpleMove::new(&[]);
    assert!(engine.perform_move(state, 77, &nothing).is_ok());
    let state = state_of(plain_board(5, 5), vec![spent]);
    assert_eq!(
        engine.perform_move(state, 77, &chain).err(),
        Some(RegisterEngineError::StateError { err: StateError::PlayerNotFound { player_id: 77 } })
    );
}
