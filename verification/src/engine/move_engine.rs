//! The movement engine: performs cards that are handed to it directly, in
//! order of priority, without the board elements.

use vstd::prelude::*;

use crate::engine::move_inputs::{all_cards, MoveInputs};
use crate::engine::register_engine::{card_moves, RegisterEngine, RegisterEngineError};
use crate::state::board::Position;
use crate::state::cards::{sort_by_priority, MoveCard};
use crate::state::state::{State, StateView};
use crate::state::{PlayerID, StateError};

verus! {

/// What performing cards can fail with.
#[derive(Debug, Copy, Clone, PartialEq, Eq, Structural)]
pub enum MoveEngineError {
    RobotNotFound { player_id: PlayerID },
    PositionNotOnBoard { pos: Position },
    GenericAlgorithmError { err: StateError },
}

impl MoveEngineError {
    /// The movement error that stands for an error of the state.
    pub open spec fn of(err: StateError) -> MoveEngineError {
        match err {
            StateError::PlayerNotFound { player_id } => MoveEngineError::RobotNotFound {
                player_id,
            },
            StateError::PositionOffBoard { position } => MoveEngineError::PositionNotOnBoard {
                pos: position,
            },
            _ => MoveEngineError::GenericAlgorithmError { err },
        }
    }

/// The movement error that stands for an error of the state.
    pub fn from_state_error(err: StateError) -> (e: MoveEngineError)
        ensures
            e == MoveEngineError::of(err),
    {
        match err {
            StateError::PlayerNotFound { player_id } => MoveEngineError::RobotNotFound {
                player_id,
            },
            StateError::PositionOffBoard { position } => MoveEngineError::PositionNotOnBoard {
                pos: position,
            },
            _ => MoveEngineError::GenericAlgorithmError { err },
        }
    }
}

#[derive(Debug, Default)]
pub struct Engine {}

impl Engine {
    pub fn new() -> Engine {
        Engine {  }
    }

    /// Performs all cards of `inputs`, cards of lower priority first.
    pub fn run_register_phase(&self, state: Box<State>, inputs: &MoveInputs) -> (r: Result<
        Box<State>,
        MoveEngineError,
    >)
        requires
            state.wf(),
        ensures
            match r {
                Ok(s) => card_moves(state@, sort_by_priority(all_cards(inputs@))) == Ok::<
                    StateView,
                    StateError,
                >(s@),
                Err(e) => card_moves(state@, sort_by_priority(all_cards(inputs@)))
                    matches Err(err) && e == MoveEngineError::of(err),
            },
    {
        let ghost start = state@;
        let engine: RegisterEngine = RegisterEngine::new();
        let mut current: Box<State> = state;
        let player_move_cards: Vec<(PlayerID, MoveCard)> =
            inputs.get_player_cards_sorted_by_priority();
        let ghost cards = player_move_cards.deep_view();
        let mut i: usize = 0;
        assert(cards.skip(0) =~= cards);
        while i < player_move_cards.len()
            invariant
                i <= player_move_cards@.len(),
                cards == player_move_cards.deep_view(),
                cards == sort_by_priority(all_cards(inputs@)),
                start == state@,
                current.wf(),
                card_moves(start, cards) == card_moves(current@, cards.skip(i as int)),
            decreases player_move_cards@.len() - i,
        {
            let ghost rest = cards.skip(i as int);
            proof {
                assert(rest.drop_first() =~= cards.skip(i + 1));
            }
            let player_card: &(PlayerID, MoveCard) = &player_move_cards[i];
            current = match engine.perform_move(current, player_card.0, &player_card.1.tmove) {
                Ok(next) => next,
                Err(RegisterEngineError::StateError { err }) => {
                    return Err(MoveEngineError::from_state_error(err));
                },
            };
            i += 1;
        }
        Ok(current)
    }
}

} // verus!
