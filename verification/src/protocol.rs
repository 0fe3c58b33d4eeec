//! What passes between the game and the players: errors of incoming messages
//! and the outcome of a game as it is reported.

use vstd::prelude::*;

use crate::state::game_state::EGameResult;

verus! {

/// What reading a message of a player can fail with.
#[derive(Debug, Copy, Clone, PartialEq, Eq, Structural)]
pub enum ProtocolError {
    MissingPlayerInput,
}

/// The result of a game as it is reported: nothing while the game is
/// undecided.
pub fn from_game_result(result: &EGameResult) -> (r: Option<EGameResult>)
    ensures
        match r {
            Some(reported) => !(result@ is Undecided) && reported@ == result@,
            None => result@ is Undecided,
        },
{
    match result {
        EGameResult::Undecided => None,
        _ => Some(result.clone()),
    }
}

} // verus!
