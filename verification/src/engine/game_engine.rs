//! The game engine: drives a game from its first round to its end.

use vstd::prelude::*;

use crate::engine::player_input::{ProgramInput, ProgramInputView};
use crate::engine::round_engine::{
    executed, initialized_from, program_input, EngineError, RoundEngine,
};
use crate::state::game_state::{
    EGamePhase, EGameResult, EGameResultView, ERoundPhase, GameState, GameStateView, Round,
    RoundView,
};
use crate::state::StateError;

verus! {

/// Checks that the game is in the phase `expected`.
pub fn assert_game_phase(game_state: &GameState, expected: EGamePhase) -> (r: Result<
    (),
    EngineError,
>)
    ensures
        match r {
            Ok(_) => game_state.phase == expected,
            Err(e) => game_state.phase != expected && e == (EngineError::InvalidGamePhase {
                expected,
                actual: game_state.phase,
            }),
        },
{
    if game_state.phase != expected {
        return Err(EngineError::InvalidGamePhase { expected, actual: game_state.phase });
    }
    Ok(())
}

/// Whether `next` is the game `g` with one more round, initialized from the
/// state that `g` has reached.
pub open spec fn round_begun(g: GameStateView, next: GameStateView) -> bool {
    &&& next.rounds.len() == g.rounds.len() + 1
    &&& next == (GameStateView { rounds: g.rounds.push(next.rounds.last()), ..g })
    &&& initialized_from(g.latest_state(), g.rounds.len() as u32, next.rounds.last())
    &&& next.rounds.last().state.board == g.latest_state().board
}

/// The current round after a player handed in a program, and how the game
/// stands then. The registers are resolved as soon as the last program is in.
///
/// Fails where the game is not running or has no round, and where the round
/// cannot take the program or cannot be executed.
pub open spec fn input_outcome(g: GameStateView, input: ProgramInputView) -> Result<
    (RoundView, EGameResultView),
    EngineError,
> {
    if g.phase != EGamePhase::RUNNING {
        Err(EngineError::InvalidGamePhase { expected: EGamePhase::RUNNING, actual: g.phase })
    } else if g.rounds.len() == 0 {
        Err(
            EngineError::GenericAlgorithmError {
                err: StateError::GameStateMissingRound { round_id: None },
            },
        )
    } else {
        match program_input(g.rounds.last(), input) {
            Err(e) => Err(e),
            Ok(round) => if round.phase == ERoundPhase::EXECUTION {
                executed(round)
            } else {
                Ok((round, EGameResultView::Undecided))
            },
        }
    }
}

/// The game `g` once its current round has become `round` with the result
/// `result`: a result other than undecided is recorded and ends the game.
pub open spec fn with_outcome(
    g: GameStateView,
    round: RoundView,
    result: EGameResultView,
) -> GameStateView {
    GameStateView {
        rounds: g.rounds.update(g.rounds.len() - 1, round),
        game_result: if result is Undecided {
            g.game_result
        } else {
            result
        },
        phase: if result is Undecided {
            g.phase
        } else {
            EGamePhase::ENDED
        },
        ..g
    }
}

pub struct GameEngine {
    pub game_engine: RoundEngine,
}

impl GameEngine {
    pub fn new() -> Self {
        GameEngine { game_engine: RoundEngine::new() }
    }

    /// Adds a round to the game and initializes it.
    fn begin_round(&self, game_state: &mut GameState)
        requires
            old(game_state).rounds@.len() < u32::MAX,
        ensures
            round_begun(old(game_state)@, final(game_state)@),
            old(game_state)@.wf() ==> final(game_state)@.wf(),
    {
        let ghost before = game_state@;
        let count: usize = game_state.rounds.len();
        game_state.add_round();
        let ghost added = game_state@;
        assert(added.rounds.len() == count + 1);
        assert(added.rounds[count as int] == game_state.rounds@[count as int]@);
        let round: Round = match self.game_engine.run_round_initialization(
            &game_state.rounds[count],
        ) {
            Ok(round) => round,
            Err(_) => {
                return ;
            },
        };
        let ghost replacement = round@;
        let ghost mid = game_state.rounds@;
        game_state.rounds[count] = round;
        proof {
            assert forall|k: int| 0 <= k < count implies game_state@.rounds[k]
                == before.rounds[k] by {
                assert(added.rounds[k] == mid[k]@);
            }
            assert(game_state@.rounds =~= before.rounds.push(replacement));
        }
    }

    /// Starts the game: begins its first round and sets the game running.
    pub fn initialize(&self, game_state: &mut GameState) -> (r: Result<(), EngineError>)
        requires
            old(game_state).rounds@.len() < u32::MAX,
        ensures
            match r {
                Ok(_) => old(game_state)@.phase == EGamePhase::INITIAL && round_begun(
                    old(game_state)@,
                    (GameStateView { phase: old(game_state)@.phase, ..final(game_state)@ }),
                ) && final(game_state)@.phase == EGamePhase::RUNNING,
                Err(e) => old(game_state)@.phase != EGamePhase::INITIAL && e
                    == (EngineError::InvalidGamePhase {
                    expected: EGamePhase::INITIAL,
                    actual: old(game_state)@.phase,
                }) && final(game_state)@ == old(game_state)@,
            },
            old(game_state)@.wf() ==> final(game_state)@.wf(),
    {
        match assert_game_phase(game_state, EGamePhase::INITIAL) {
            Ok(_) => {},
            Err(e) => {
                return Err(e);
            },
        }
        self.begin_round(game_state);
        game_state.phase = EGamePhase::RUNNING;
        Ok(())
    }

    /// Takes the program of a player for the current round.
    ///
    /// As soon as all active players have programmed their registers, the
    /// registers are resolved. A draw or a win then ends the game; else the
    /// round is cleaned up and the next round begins. Where the call fails the
    /// game is left as it was.
    pub fn set_player_program_input(&self, game_state: &mut GameState, input: &ProgramInput) -> (r:
        Result<(), EngineError>)
        requires
            old(game_state)@.wf(),
            old(game_state).rounds@.len() < u32::MAX,
        ensures
            match r {
                Ok(_) => input_outcome(old(game_state)@, input@) matches Ok((round, result)) && {
                    let taken = with_outcome(old(game_state)@, round, result);
                    if round.phase == ERoundPhase::DONE {
                        round_begun(taken, final(game_state)@)
                    } else {
                        final(game_state)@ == taken
                    }
                },
                Err(e) => input_outcome(old(game_state)@, input@) == Err::<
                    (RoundView, EGameResultView),
                    EngineError,
                >(e) && final(game_state)@ == old(game_state)@,
            },
            final(game_state)@.wf(),
    {
        match assert_game_phase(game_state, EGamePhase::RUNNING) {
            Ok(_) => {},
            Err(e) => {
                return Err(e);
            },
        }
        let ghost before = game_state@;
        let count: usize = game_state.rounds.len();
        if count == 0 {
            return Err(
                EngineError::GenericAlgorithmError {
                    err: StateError::GameStateMissingRound { round_id: None },
                },
            );
        }
        let programmed: Round = match self.game_engine.set_player_program_input(
            &game_state.rounds[count - 1],
            input,
        ) {
            Ok(round) => round,
            Err(e) => {
                return Err(e);
            },
        };
        let (round, game_result) = if programmed.phase == ERoundPhase::EXECUTION {
            match self.game_engine.run_execute(programmed) {
                Ok(outcome) => outcome,
                Err(e) => {
                    return Err(e);
                },
            }
        } else {
            (programmed, EGameResult::Undecided)
        };
        let current_phase: ERoundPhase = round.phase;
        let ghost replacement = round@;
        game_state.rounds[count - 1] = round;
        if game_result.is_some() {
            game_state.game_result = game_result;
            game_state.phase = EGamePhase::ENDED;
        }
        proof {
            assert(game_state@.rounds =~= before.rounds.update(count - 1, replacement));
        }
        if current_phase == ERoundPhase::DONE {
            self.begin_round(game_state);
        }
        Ok(())
    }
}

} // verus!
