//! What a player sends to the game.

use vstd::prelude::*;
use vstd::slice::slice_to_vec;

use crate::protocol::ProtocolError;
use crate::state::{MoveCardID, PlayerID, StartPositionID};

verus! {

/// The program of a player for a round: the ids of the chosen cards, one for
/// each unlocked register, in the order of the registers.
#[derive(Debug)]
pub struct ProgramInput {
    pub player_id: PlayerID,
    pub register_cards_choices: Vec<MoveCardID>,
}

pub ghost struct ProgramInputView {
    pub player_id: PlayerID,
    pub register_cards_choices: Seq<MoveCardID>,
}

impl View for ProgramInput {
    type V = ProgramInputView;

    open spec fn view(&self) -> ProgramInputView {
        ProgramInputView {
            player_id: self.player_id,
            register_cards_choices: self.register_cards_choices@,
        }
    }
}

impl Clone for ProgramInput {
    fn clone(&self) -> (r: ProgramInput)
        ensures
            r@ == self@,
    {
        ProgramInput {
            player_id: self.player_id,
            register_cards_choices: slice_to_vec(self.register_cards_choices.as_slice()),
        }
    }
}

impl ProgramInput {
    /// The program that a message carries. Fails where the message has none.
    pub fn parse_from(player_input: Option<ProgramInput>) -> (r: Result<
        ProgramInput,
        ProtocolError,
    >)
        ensures
            match player_input {
                Some(input) => r == Ok::<ProgramInput, ProtocolError>(input),
                None => r == Err::<ProgramInput, ProtocolError>(ProtocolError::MissingPlayerInput),
            },
    {
        match player_input {
            Some(input) => Ok(input),
            None => Err(ProtocolError::MissingPlayerInput),
        }
    }
}

/// The start position that a player chooses.
#[derive(Debug, Clone, Copy, PartialEq, Eq, Structural)]
pub struct StartPositionInput {
    pub player_id: PlayerID,
    pub start_position_id: StartPositionID,
}

impl StartPositionInput {
    /// The choice that a message carries. Fails where the message has none.
    pub fn parse_from(player_input: Option<StartPositionInput>) -> (r: Result<
        StartPositionInput,
        ProtocolError,
    >)
        ensures
            match player_input {
                Some(input) => r == Ok::<StartPositionInput, ProtocolError>(input),
                None => r == Err::<StartPositionInput, ProtocolError>(
                    ProtocolError::MissingPlayerInput,
                ),
            },
    {
        match player_input {
            Some(input) => Ok(input),
            None => Err(ProtocolError::MissingPlayerInput),
        }
    }
}

} // verus!
