use roborally::engine::game_engine::{assert_game_phase, GameEngine};
use roborally::engine::player_input::ProgramInput;
use roborally::engine::round_engine::{
    all_players_provided_input, assert_round_phase, EngineError, RoundEngine,
};
use roborally::state::{
    Board, EDirection, EGamePhase, EGameResult, EPoweredDown, ERoundPhase, ESimpleMove,
    GameConfig, GameState, MoveCard, Player, Position, ProgramCardDeck, Robot, RobotBuilder,
    Round, State, StateError,
};

fn robot(id: u32, x: i32, y: i32, direction: EDirection) -> Robot {
    RobotBuilder::default()
        .id(id)
        .position(Position::new(x, y))
        .direction(direction)
        .build()
        .unwrap()
}

fn deck(count: u32) -> ProgramCardDeck {
    ProgramCardDeck {
        cards: (0..count)
            .map(|i| MoveCard::new_from_moves(i, i + 1, &[ESimpleMove::TurnLeft]))
            .collect(),
    }
}

fn round_in(phase: ERoundPhase, players: Vec<Player>, cards: u32) -> Round {
    let mut state = State::new(Board::new_empty_board(6, 6), players);
    state.deck = deck(cards);
    let round = Round::new(3, Box::new(State::new(Board::new_empty_board(1, 1), vec![])));
    round.advance(Box::new(state), phase)
}

fn ids(cards: &[MoveCard]) -> Vec<u32> {
    let mut ids: Vec<u32> = cards.iter().map(|c| c.id).collect();
    ids.sort();
    ids
}

#[test]
fn phases_are_checked() {
    let round = round_in(ERoundPhase::CLEANUP, vec![], 0);
    assert_eq!(assert_round_phase(&round, ERoundPhase::CLEANUP), Ok(()));
    assert_eq!(
        assert_round_phase(&round, ERoundPhase::DONE),
        Err(EngineError::InvalidRoundPhase {
            expected: ERoundPhase::DONE,
            actual: ERoundPhase::CLEANUP
        })
    );
    let game = GameState::default();
    assert_eq!(assert_game_phase(&game, EGamePhase::INITIAL), Ok(()));
    assert_eq!(
        assert_game_phase(&game, EGamePhase::RUNNING),
        Err(EngineError::InvalidGamePhase {
            expected: EGamePhase::RUNNING,
            actual: EGamePhase::INITIAL
        })
    );

    let engine = RoundEngine::new();
    let wrong = |expected| {
        Some(EngineError::InvalidRoundPhase { expected, actual: ERoundPhase::CLEANUP })
    };
    assert_eq!(
        engine.run_round_initialization(&round).err(),
        wrong(ERoundPhase::INITIALIZATION)
    );
    let input = ProgramInput { player_id: 0, register_cards_choices: vec![] };
    assert_eq!(
        engine.set_player_program_input(&round, &input).err(),
        wrong(ERoundPhase::PROGRAMMING)
    );
    assert_eq!(
        engine.run_execute(round_in(ERoundPhase::CLEANUP, vec![], 0)).err(),
        wrong(ERoundPhase::EXECUTION)
    );
    assert_eq!(
        engine.run_cleanup(round_in(ERoundPhase::DONE, vec![], 0)).err(),
        Some(EngineError::InvalidRoundPhase {
            expected: ERoundPhase::CLEANUP,
            actual: ERoundPhase::DONE
        })
    );
}

#[test]
fn initialization_repairs_and_deals() {
    let mut resting = robot(0, 0, 0, EDirection::NORTH);
    resting.damage = 4;
    resting.powered_down = EPoweredDown::Yes;
    let mut tired = robot(1, 1, 0, EDirection::NORTH);
    tired.damage = 6;
    tired.powered_down = EPoweredDown::NextRound;
    let mut hurt = robot(2, 2, 0, EDirection::NORTH);
    hurt.damage = 7;
    let mut out = robot(3, 3, 0, EDirection::NORTH);
    out.damage = 2;
    out.powered_down = EPoweredDown::NextRound;
    out.life_tokens = 0;
    let players = vec![
        Player::new(0, resting),
        Player::new(1, tired),
        Player::new(2, hurt),
        Player::new(3, out),
    ];
    let round = round_in(ERoundPhase::INITIALIZATION, players, 30);

    let next = RoundEngine::new().run_round_initialization(&round).unwrap();
    assert_eq!(next.id, 3);
    assert_eq!(next.phase, ERoundPhase::PROGRAMMING);
    let players = next.state.all_players();

    assert_eq!(players[0].robot.damage, 0);
    assert_eq!(players[0].robot.powered_down, EPoweredDown::Yes);
    assert_eq!(players[1].robot.damage, 0);
    assert_eq!(players[1].robot.powered_down, EPoweredDown::Yes);
    assert_eq!(players[2].robot.damage, 7);
    assert_eq!(players[2].robot.powered_down, EPoweredDown::No);
    // A player who is out of the game is neither repaired nor dealt cards.
    assert_eq!(players[3].robot.damage, 2);
    assert_eq!(players[3].robot.powered_down, EPoweredDown::NextRound);

    assert_eq!(players[0].program_card_deck.len(), 9);
    assert_eq!(players[1].program_card_deck.len(), 9);
    assert_eq!(players[2].program_card_deck.len(), 2);
    assert_eq!(players[3].program_card_deck.len(), 0);
    assert_eq!(next.state.deck.cards.len(), 10);

    let mut all = ids(&next.state.deck.cards);
    for p in players {
        all.extend(ids(&p.program_card_deck));
    }
    all.sort();
    assert_eq!(all, (0..30).collect::<Vec<u32>>());
    // The round that was handed in is left as it was.
    assert_eq!(round.phase, ERoundPhase::INITIALIZATION);
    assert_eq!(round.state.deck.cards.len(), 30);
}

#[test]
fn dealing_stops_when_the_deck_runs_out() {
    let players = vec![
        Player::new(0, robot(0, 0, 0, EDirection::NORTH)),
        Player::new(1, robot(1, 1, 0, EDirection::NORTH)),
    ];
    let round = round_in(ERoundPhase::INITIALIZATION, players, 12);
    let next = RoundEngine::new().run_round_initialization(&round).unwrap();
    assert_eq!(next.state.all_players()[0].program_card_deck.len(), 9);
    assert_eq!(next.state.all_players()[1].program_card_deck.len(), 3);
    assert!(next.state.deck.cards.is_empty());
}

fn programming_round() -> Round {
    let hand = |from: u32| -> Vec<MoveCard> {
        (from..from + 9)
            .map(|i| MoveCard::new_from_moves(i, i + 1, &[ESimpleMove::Forward]))
            .collect()
    };
    let mut hurt = robot(1, 3, 3, EDirection::NORTH);
    hurt.damage = 5;
    let mut second = Player::new(1, hurt).lock_registers_according_to_damage();
    second.registers[4].move_card = Some(MoveCard::new_from_moves(90, 500, &[ESimpleMove::UTurn]));
    let players = vec![
        Player::new(0, robot(0, 0, 4, EDirection::NORTH)).set_program_card_deck(hand(0)),
        second.set_program_card_deck(hand(20)),
    ];
    round_in(ERoundPhase::PROGRAMMING, players, 0)
}

#[test]
fn programs_are_taken_until_all_players_are_done() {
    let engine = RoundEngine::new();
    let round = programming_round();
    assert!(!all_players_provided_input(&round.state));

    let first = ProgramInput { player_id: 0, register_cards_choices: vec![4, 0, 8, 1, 2] };
    let round = engine.set_player_program_input(&round, &first).unwrap();
    assert_eq!(round.phase, ERoundPhase::PROGRAMMING);
    let player = round.state.get_player_or_fail(0).unwrap();
    let chosen: Vec<u32> =
        player.registers.iter().map(|r| r.move_card.as_ref().unwrap().id).collect();
    assert_eq!(chosen, vec![4, 0, 8, 1, 2]);
    assert_eq!(ids(&player.program_card_deck), vec![3, 5, 6, 7]);

    // The second player has one locked register and programs the other four.
    let second = ProgramInput { player_id: 1, register_cards_choices: vec![20, 21, 22, 23] };
    let round = engine.set_player_program_input(&round, &second).unwrap();
    assert_eq!(round.phase, ERoundPhase::EXECUTION);
    assert!(all_players_provided_input(&round.state));
    let player = round.state.get_player_or_fail(1).unwrap();
    assert_eq!(player.registers[4].move_card.as_ref().unwrap().id, 90);
}

#[test]
fn bad_programs_are_rejected() {
    let engine = RoundEngine::new();
    let round = programming_round();
    let input = |player_id, choices: Vec<u32>| ProgramInput {
        player_id,
        register_cards_choices: choices,
    };
    assert_eq!(
        engine.set_player_program_input(&round, &input(5, vec![])).err(),
        Some(EngineError::GenericAlgorithmError {
            err: StateError::PlayerNotFound { player_id: 5 }
        })
    );
    assert_eq!(
        engine.set_player_program_input(&round, &input(0, vec![1, 2, 3])).err(),
        Some(EngineError::InvalidPlayerInput { player_id: 0, expected: 5, actual: 3 })
    );
    assert_eq!(
        engine.set_player_program_input(&round, &input(1, vec![20, 21, 22, 23, 24])).err(),
        Some(EngineError::InvalidPlayerInput { player_id: 1, expected: 4, actual: 5 })
    );
    assert_eq!(
        engine.set_player_program_input(&round, &input(0, vec![1, 2, 30, 4, 5])).err(),
        Some(EngineError::GenericAlgorithmError {
            err: StateError::InvalidProgramCardChoice { player_id: 0, move_card_id: 30 }
        })
    );
    assert_eq!(
        engine.set_player_program_input(&round, &input(0, vec![1, 2, 1, 4, 5])).err(),
        Some(EngineError::GenericAlgorithmError {
            err: StateError::InvalidProgramCardChoice { player_id: 0, move_card_id: 1 }
        })
    );
    let done = engine.set_player_program_input(&round, &input(0, vec![0, 1, 2, 3, 4])).unwrap();
    assert_eq!(
        engine.set_player_program_input(&done, &input(0, vec![5, 6, 7, 8, 0])).err(),
        Some(EngineError::GenericAlgorithmError {
            err: StateError::DoublePlayerInput { player_id: 0 }
        })
    );
}

fn programmed(robots: Vec<Robot>, moves: &[ESimpleMove]) -> Round {
    let players = robots
        .into_iter()
        .enumerate()
        .map(|(p, r)| {
            let mut player = Player::new(p as u32, r);
            for i in 0..5 {
                let id = (p * 5 + i) as u32;
                player.registers[i].move_card =
                    Some(MoveCard::new_from_moves(id, id + 1, moves));
            }
            player
        })
        .collect();
    round_in(ERoundPhase::EXECUTION, players, 4)
}

#[test]
fn execution_is_followed_by_cleanup() {
    let mut hurt = robot(1, 4, 4, EDirection::NORTH);
    hurt.damage = 8;
    let round = programmed(
        vec![robot(0, 0, 4, EDirection::NORTH), hurt],
        &[ESimpleMove::TurnRight],
    );
    let (round, result) = RoundEngine::new().run_execute(round).unwrap();
    assert_eq!(result, EGameResult::Undecided);
    assert_eq!(round.phase, ERoundPhase::DONE);
    let players = round.state.all_players();
    // Five quarter turns to the right.
    assert_eq!(players[0].robot.direction, EDirection::EAST);
    assert!(players[0].registers.iter().all(|r| r.move_card.is_none() && !r.locked));
    // Eight damage tokens lock all registers but the first.
    let locks: Vec<bool> = players[1].registers.iter().map(|r| r.locked).collect();
    assert_eq!(locks, vec![false, true, true, true, true]);
    let kept: Vec<Option<u32>> =
        players[1].registers.iter().map(|r| r.move_card.as_ref().map(|c| c.id)).collect();
    assert_eq!(kept, vec![None, Some(6), Some(7), Some(8), Some(9)]);
    // The deck gets the cards back in the order of the players and registers.
    let deck: Vec<u32> = round.state.deck.cards.iter().map(|c| c.id).collect();
    assert_eq!(deck, vec![0, 1, 2, 3, 0, 1, 2, 3, 4, 5]);
}

#[test]
fn last_robot_standing_wins() {
    let round = programmed(
        vec![robot(0, 0, 0, EDirection::NORTH), robot(1, 4, 5, EDirection::NORTH)],
        &[ESimpleMove::Forward],
    );
    let (round, result) = RoundEngine::new().run_execute(round).unwrap();
    assert_eq!(result, EGameResult::Win { player_id: 1 });
    assert_eq!(round.phase, ERoundPhase::EXECUTION);
    assert!(round.state.all_players()[0].robot.is_destroyed());
    assert_eq!(round.state.all_players()[0].robot.position, Position { x: 0, y: -1 });
    assert_eq!(round.state.all_players()[1].robot.position, Position { x: 4, y: 0 });
    // Nothing is cleaned up once the game has ended.
    assert!(round.state.all_players()[1].registers.iter().all(|r| r.move_card.is_some()));
}

#[test]
fn no_robot_left_is_a_draw() {
    let round = programmed(
        vec![robot(0, 0, 0, EDirection::NORTH), robot(1, 4, 0, EDirection::NORTH)],
        &[ESimpleMove::Forward],
    );
    let (_, result) = RoundEngine::new().run_execute(round).unwrap();
    assert_eq!(result, EGameResult::Draw { player_ids: vec![0, 1] });
}

#[test]
fn execution_fails_on_an_empty_register() {
    let mut round = programmed(vec![robot(0, 0, 4, EDirection::NORTH)], &[]);
    round.state.players[0].registers[2].move_card = None;
    assert_eq!(
        RoundEngine::new().run_execute(round).err(),
        Some(EngineError::GenericAlgorithmError {
            err: StateError::EmptyProgramRegister { player_id: 0 }
        })
    );
}

fn choices(game: &GameState, player_id: u32) -> ProgramInput {
    let round = game.current_round().unwrap();
    let player = round.state.get_player_or_fail(player_id).unwrap();
    let unlocked = player.count_unlocked_registers();
    ProgramInput {
        player_id,
        register_cards_choices: player
            .program_card_deck
            .iter()
            .take(unlocked)
            .map(|c| c.id)
            .collect(),
    }
}

#[test]
fn a_game_runs_round_by_round() {
    let engine = GameEngine::new();
    let mut game = GameState::create_from(&GameConfig::default(), Board::new_empty_board(40, 40));
    // Turn the robots so that nobody leaves the board.
    game.initial_state.players[0].robot.position = Position::new(20, 20);
    game.initial_state.players[1].robot.position = Position::new(10, 10);

    let input = ProgramInput { player_id: 0, register_cards_choices: vec![] };
    assert_eq!(
        engine.set_player_program_input(&mut game, &input).err(),
        Some(EngineError::InvalidGamePhase {
            expected: EGamePhase::RUNNING,
            actual: EGamePhase::INITIAL
        })
    );

    engine.initialize(&mut game).unwrap();
    assert_eq!(game.phase, EGamePhase::RUNNING);
    assert_eq!(game.all_rounds().len(), 1);
    assert_eq!(game.current_round().unwrap().phase, ERoundPhase::PROGRAMMING);
    assert_eq!(game.current_round().unwrap().state.deck.cards.len(), 84 - 18);
    assert_eq!(
        engine.initialize(&mut game).err(),
        Some(EngineError::InvalidGamePhase {
            expected: EGamePhase::INITIAL,
            actual: EGamePhase::RUNNING
        })
    );

    let first = choices(&game, 0);
    engine.set_player_program_input(&mut game, &first).unwrap();
    assert_eq!(game.all_rounds().len(), 1);
    assert_eq!(game.current_round().unwrap().phase, ERoundPhase::PROGRAMMING);

    // A failed call leaves the game as it was.
    assert!(engine.set_player_program_input(&mut game, &first).is_err());
    assert_eq!(game.all_rounds().len(), 1);
    assert_eq!(game.current_round().unwrap().phase, ERoundPhase::PROGRAMMING);

    let second = choices(&game, 1);
    engine.set_player_program_input(&mut game, &second).unwrap();
    assert_eq!(game.phase, EGamePhase::RUNNING);
    assert_eq!(game.game_result, EGameResult::Undecided);
    assert_eq!(game.all_rounds().len(), 2);
    assert_eq!(game.all_rounds()[0].phase, ERoundPhase::DONE);
    assert_eq!(game.all_rounds()[1].id, 1);
    assert_eq!(game.all_rounds()[1].phase, ERoundPhase::PROGRAMMING);
    // The ten programmed cards went back to the deck before the next deal.
    assert_eq!(game.all_rounds()[0].state.deck.cards.len(), 84 - 18 + 10);
    assert_eq!(game.all_rounds()[1].state.deck.cards.len(), 84 - 18 + 10 - 18);
}

#[test]
fn a_game_ends_with_the_last_robot() {
    let engine = GameEngine::new();
    let mut game = GameState::default();
    game.phase = EGamePhase::RUNNING;
    game.rounds.push(programmed(
        vec![robot(0, 0, 0, EDirection::NORTH), robot(1, 4, 5, EDirection::NORTH)],
        &[ESimpleMove::Forward],
    ));
    // The second player has not programmed yet.
    game.rounds[0].phase = ERoundPhase::PROGRAMMING;
    let hand: Vec<MoveCard> = game.rounds[0].state.players[1]
        .registers
        .iter_mut()
        .map(|r| r.move_card.take().unwrap())
        .collect();
    game.rounds[0].state.players[1].program_card_deck = hand;

    let short = ProgramInput { player_id: 1, register_cards_choices: vec![5] };
    assert_eq!(
        engine.set_player_program_input(&mut game, &short).err(),
        Some(EngineError::InvalidPlayerInput { player_id: 1, expected: 5, actual: 1 })
    );
    let input = ProgramInput { player_id: 1, register_cards_choices: vec![5, 6, 7, 8, 9] };
    engine.set_player_program_input(&mut game, &input).unwrap();
    assert_eq!(game.phase, EGamePhase::ENDED);
    assert_eq!(game.game_result, EGameResult::Win { player_id: 1 });
    assert_eq!(game.all_rounds().len(), 1);
    assert_eq!(game.all_rounds()[0].phase, ERoundPhase::EXECUTION);
    assert!(game.all_rounds()[0].state.players[0].robot.is_destroyed());
    assert_eq!(game.all_rounds()[0].state.players[1].robot.position, Position { x: 4, y: 0 });
}

#[test]
fn a_running_game_needs_a_round() {
    let mut game = GameState::default();
    game.phase = EGamePhase::RUNNING;
    let input = ProgramInput { player_id: 0, register_cards_choices: vec![] };
    assert_eq!(
        GameEngine::new().set_player_program_input(&mut game, &input).err(),
        Some(EngineError::GenericAlgorithmError {
            err: StateError::GameStateMissingRound { round_id: None }
        })
    );
}
