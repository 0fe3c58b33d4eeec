//! The data model: board geometry, cards, players, robots and game phases.

use vstd::prelude::*;

pub mod board;
pub mod board_parser;
pub mod cards;
pub mod game_state;
pub mod player;
pub mod state;

pub use board::{
    lemma_index_in_range, lemma_turns_add, plain_tile, Board, BoardConfig, BoardView,
    EConnection, EDirection, ERotationDirection, ETileType, Position, StartPositionID, Tile,
    TileView,
};
pub use cards::{
    ascending, clone_cards, deck_of, distinct_places, drawn, insert_by_priority, insert_card,
    left_cards, lemma_drawn_counts, lemma_insert_by_priority, lemma_sort_by_priority,
    priorities_valid, sort_by_priority, taken_cards, ESimpleMove, MoveCard, MoveCardView,
    PlayerCard, ProgramCardDeck, ProgramCardDeckConfig, ProgramCardDeckGenerator, SimpleMove,
    TMove, MAX_PRIORITY, MIN_PRIORITY,
};
pub use game_state::{
    active_ids, EGamePhase, EGameResult, EGameResultView, ERoundPhase, GameConfig, GameState,
    GameStateView, Round, RoundView,
};
pub use player::{
    cleared, clone_registers, empty_registers, first_card_with_id, initial_player,
    lock_by_damage, unlocked_cards, EPoweredDown, ERobotStatus, Player, PlayerConfig,
    PlayerIter, PlayerIterator, PlayerView, Register, RegisterView, Robot, RobotBuilder,
    DEFAULT_LIFE_TOKENS, MAX_DAMAGE_TOKENS, REGISTER_COUNT,
};
pub use state::{register_card, robot_at, State, StateView};

verus! {

pub type PlayerID = u32;

pub type RobotID = u32;

pub type MoveCardID = u32;

pub type RoundID = u32;

/// What a query or an update of the game state can fail with.
#[allow(inconsistent_fields)]
#[derive(Debug, Copy, Clone, PartialEq, Eq, Structural)]
pub enum StateError {
    RobotNotFoundID { robot_id: RobotID },
    RobotNotFoundPlayerID { player_id: PlayerID },
    PlayerNotFound { player_id: PlayerID },
    EmptyProgramRegister { player_id: PlayerID },
    GameStateMissingRound { round_id: Option<RoundID> },
    RoundNotFound { round_id: RoundID },
    DoublePlayerInput { player_id: PlayerID },
    InvalidProgramCardChoice { player_id: PlayerID, move_card_id: MoveCardID },
    PositionOffBoard { position: Position },
    StartPositionNotFoundID { start_position_id: StartPositionID },
}

} // verus!
