//! The register engine: resolves the registers of a round, one after the
//! other.
//!
//! For one register the robots first move by the cards that their players put
//! there, cards of lower priority first. Then the express conveyors move, then
//! all conveyors, and at last the rotators turn.

use vstd::prelude::*;

use crate::engine::conveyor::{conveyor_move, rotations};
use crate::engine::moves::{perform_moves, simple_move, try_move};
use crate::state::board::EDirection;
use crate::state::cards::{ESimpleMove, MoveCard, PlayerCard, SimpleMove};
use crate::state::player::Robot;
use crate::state::state::{State, StateView};
use crate::state::{PlayerID, RobotID, StateError};

verus! {

/// What the resolution of a register can fail with.
#[derive(Debug, Copy, Clone, PartialEq, Eq, Structural)]
pub enum RegisterEngineError {
    StateError { err: StateError },
}

impl From<StateError> for RegisterEngineError {
    fn from(err: StateError) -> (e: RegisterEngineError) {
        RegisterEngineError::StateError { err }
    }
}

impl vstd::std_specs::convert::FromSpecImpl<StateError> for RegisterEngineError {
    open spec fn obeys_from_spec() -> bool {
        true
    }

    open spec fn from_spec(err: StateError) -> RegisterEngineError {
        RegisterEngineError::StateError { err }
    }
}

/// The state in which the robots are replaced by the outcome of a move, where
/// the move succeeded.
pub open spec fn with_moved(s: StateView, moved: Result<Seq<Robot>, StateError>) -> Result<
    StateView,
    StateError,
> {
    match moved {
        Ok(robots) => Ok(s.with_robots(robots)),
        Err(e) => Err(e),
    }
}

/// The state after the first robot with the id `robot_id` tried to step in
/// `direction`.
pub open spec fn robot_move(s: StateView, robot_id: RobotID, direction: EDirection) -> Result<
    StateView,
    StateError,
> {
    match s.robot_index(robot_id) {
        None => Err(StateError::RobotNotFoundID { robot_id }),
        Some(i) => with_moved(s, try_move(s.board, s.robots(), i, direction)),
    }
}

/// The state after the robot of the first player with the id `player_id`
/// performed one step of a card.
pub open spec fn step_move(s: StateView, player_id: PlayerID, smove: ESimpleMove) -> Result<
    StateView,
    StateError,
> {
    match s.player_index(player_id) {
        None => Err(StateError::RobotNotFoundPlayerID { player_id }),
        Some(i) => with_moved(s, simple_move(s.board, s.robots(), i, smove)),
    }
}

/// The state after the robot of the first player with the id `player_id`
/// performed the steps of a card.
pub open spec fn card_move(s: StateView, player_id: PlayerID, moves: Seq<ESimpleMove>) -> Result<
    StateView,
    StateError,
> {
    if moves.len() == 0 {
        Ok(s)
    } else {
        match s.player_index(player_id) {
            None => Err(StateError::PlayerNotFound { player_id }),
            Some(i) => with_moved(s, perform_moves(s.board, s.robots(), i, moves)),
        }
    }
}

/// The state after the cards were performed in the given order.
pub open spec fn card_moves(s: StateView, cards: Seq<PlayerCard>) -> Result<StateView, StateError>
    decreases cards.len(),
{
    if cards.len() == 0 {
        Ok(s)
    } else {
        match card_move(s, cards[0].0, cards[0].1.moves) {
            Ok(next) => card_moves(next, cards.drop_first()),
            Err(e) => Err(e),
        }
    }
}

/// The state after the conveyors moved once.
pub open spec fn conveyors(s: StateView, express_only: bool) -> Result<StateView, StateError> {
    with_moved(s, conveyor_move(s.board, s.robots(), express_only))
}

/// The state after the rotators turned.
pub open spec fn rotators(s: StateView) -> Result<StateView, StateError> {
    with_moved(s, rotations(s.board, s.robots()))
}

/// The state after the board elements acted: express conveyors, then all
/// conveyors, then rotators.
pub open spec fn board_elements(s: StateView) -> Result<StateView, StateError> {
    match conveyors(s, true) {
        Err(e) => Err(e),
        Ok(a) => match conveyors(a, false) {
            Err(e) => Err(e),
            Ok(b) => rotators(b),
        },
    }
}

/// The state after the register `register_index` was resolved.
pub open spec fn register_phase(s: StateView, register_index: int) -> Result<
    StateView,
    StateError,
> {
    match s.register_cards_sorted(register_index) {
        Err(e) => Err(e),
        Ok(cards) => match card_moves(s, cards) {
            Err(e) => Err(e),
            Ok(moved) => board_elements(moved),
        },
    }
}

/// The state after the registers from `register_index` up to `count` were
/// resolved in order.
pub open spec fn registers_from(s: StateView, register_index: nat, count: nat) -> Result<
    StateView,
    StateError,
>
    decreases count - register_index,
{
    if register_index >= count {
        Ok(s)
    } else {
        match register_phase(s, register_index as int) {
            Ok(next) => registers_from(next, register_index + 1, count),
            Err(e) => Err(e),
        }
    }
}

/// Whether the outcome of a transition is the one that the rules give.
pub open spec fn agrees(
    r: Result<Box<State>, RegisterEngineError>,
    rule: Result<StateView, StateError>,
) -> bool {
    match r {
        Ok(s) => rule == Ok::<StateView, StateError>(s@),
        Err(e) => rule == Err::<StateView, StateError>(e->err),
    }
}

#[derive(Debug, Default)]
pub struct RegisterEngine {}

impl RegisterEngine {
    pub fn new() -> Self {
        RegisterEngine {  }
    }

    /// Lets the first robot with the id `moving_robot_id` try to step in
    /// `direction`, pushing the robots in its way.
    pub fn try_to_move_robot(
        &self,
        state: Box<State>,
        moving_robot_id: RobotID,
        direction: EDirection,
    ) -> (r: Result<Box<State>, RegisterEngineError>)
        requires
            state.wf(),
        ensures
            agrees(r, robot_move(state@, moving_robot_id, direction)),
    {
        let state: State = *state;
        let mover: usize = match state.find_robot(moving_robot_id) {
            Some(i) => i,
            None => {
                return Err(
                    RegisterEngineError::StateError {
                        err: StateError::RobotNotFoundID { robot_id: moving_robot_id },
                    },
                );
            },
        };
        let mut robots: Vec<Robot> = state.robots();
        match crate::engine::moves::try_to_move(&state.board, &mut robots, mover, direction) {
            Ok(_) => Ok(Box::new(state.with_robots(&robots))),
            Err(err) => Err(RegisterEngineError::StateError { err }),
        }
    }

/// The facing after a turning step, or the direction of travel of a moving
/// step, for a robot that faces `dir`.
    pub fn map_move_to_direction_change(smove: &ESimpleMove, dir: EDirection) -> (d: EDirection)
        ensures
            d == crate::engine::moves::direction_after(*smove, dir),
    {
        crate::engine::moves::map_move_to_direction_change(smove, dir)
    }

    /// Lets the robot of a player perform one step of a card: a turning step
    /// changes the facing, any other step moves the robot one tile, forward,
    /// backward or sideways.
    pub fn perform_simple_move(
        &self,
        state: Box<State>,
        player_id: PlayerID,
        smove: &ESimpleMove,
    ) -> (r: Result<Box<State>, RegisterEngineError>)
        requires
            state.wf(),
        ensures
            agrees(r, step_move(state@, player_id, *smove)),
    {
        let state: State = *state;
        let mover: usize = match state.find_player(player_id) {
            Some(i) => i,
            None => {
                return Err(
                    RegisterEngineError::StateError {
                        err: StateError::RobotNotFoundPlayerID { player_id },
                    },
                );
            },
        };
        let mut robots: Vec<Robot> = state.robots();
        match crate::engine::moves::perform_simple_move(&state.board, &mut robots, mover, smove) {
            Ok(_) => Ok(Box::new(state.with_robots(&robots))),
            Err(err) => Err(RegisterEngineError::StateError { err }),
        }
    }

    /// Lets the robot of a player perform the steps of a card. A robot that is
    /// destroyed on the way does not go on.
    pub fn perform_move(
        &self,
        state: Box<State>,
        player_id: PlayerID,
        tmove: &SimpleMove,
    ) -> (r: Result<Box<State>, RegisterEngineError>)
        requires
            state.wf(),
        ensures
            agrees(r, card_move(state@, player_id, tmove@)),
    {
        if tmove.chain.len() == 0 {
            return Ok(state);
        }
        let state: State = *state;
        let mover: usize = match state.find_player(player_id) {
            Some(i) => i,
            None => {
                return Err(
                    RegisterEngineError::StateError {
                        err: StateError::PlayerNotFound { player_id },
                    },
                );
            },
        };
        let mut robots: Vec<Robot> = state.robots();
        match crate::engine::moves::perform_move(&state.board, &mut robots, mover, &tmove.chain) {
            Ok(_) => Ok(Box::new(state.with_robots(&robots))),
            Err(err) => Err(RegisterEngineError::StateError { err }),
        }
    }

    /// Moves the conveyors once: all of them, or only the express conveyors.
    pub fn perform_conveyor_move(&self, state: Box<State>, express_only: bool) -> (r: Result<
        Box<State>,
        RegisterEngineError,
    >)
        requires
            state.wf(),
        ensures
            agrees(r, conveyors(state@, express_only)),
    {
        let state: State = *state;
        let robots: Vec<Robot> = state.robots();
        match crate::engine::conveyor::perform_conveyor_move(&state.board, &robots, express_only) {
            Ok(moved) => Ok(Box::new(state.with_robots(&moved))),
            Err(err) => Err(RegisterEngineError::StateError { err }),
        }
    }

    /// Turns the rotators.
    pub fn perform_rotations(&self, state: Box<State>) -> (r: Result<
        Box<State>,
        RegisterEngineError,
    >)
        requires
            state.wf(),
        ensures
            agrees(r, rotators(state@)),
    {
        let state: State = *state;
        let robots: Vec<Robot> = state.robots();
        match crate::engine::conveyor::perform_rotations(&state.board, &robots) {
            Ok(turned) => Ok(Box::new(state.with_robots(&turned))),
            Err(err) => Err(RegisterEngineError::StateError { err }),
        }
    }

    /// Resolves one register: the cards in it in order of priority, then the
    /// express conveyors, all conveyors and the rotators.
    pub fn run_register_phase(&self, state: Box<State>, register_index: usize) -> (r: Result<
        Box<State>,
        RegisterEngineError,
    >)
        requires
            state.wf(),
        ensures
            agrees(r, register_phase(state@, register_index as int)),
            r matches Ok(s) ==> s.wf(),
    {
        let ghost start = state@;
        let mut current: Box<State> = state;
        let player_move_cards: Vec<(PlayerID, MoveCard)> =
            match current.get_register_cards_sorted_by_priority(register_index) {
            Ok(cards) => cards,
            Err(err) => {
                return Err(RegisterEngineError::StateError { err });
            },
        };
        let ghost cards = player_move_cards.deep_view();
        let mut i: usize = 0;
        assert(cards.skip(0) =~= cards);
        while i < player_move_cards.len()
            invariant
                i <= player_move_cards@.len(),
                cards == player_move_cards.deep_view(),
                start == state@,
                start.register_cards_sorted(register_index as int) == Ok::<
                    Seq<PlayerCard>,
                    StateError,
                >(cards),
                current.wf(),
                card_moves(start, cards) == card_moves(current@, cards.skip(i as int)),
            decreases player_move_cards@.len() - i,
        {
            let ghost rest = cards.skip(i as int);
            proof {
                assert(rest.drop_first() =~= cards.skip(i + 1));
            }
            let player_card: &(PlayerID, MoveCard) = &player_move_cards[i];
            current = match self.perform_move(current, player_card.0, &player_card.1.tmove) {
                Ok(next) => next,
                Err(e) => {
                    return Err(e);
                },
            };
            i += 1;
        }
        current = match self.perform_conveyor_move(current, true) {
            Ok(next) => next,
            Err(e) => {
                return Err(e);
            },
        };
        current = match self.perform_conveyor_move(current, false) {
            Ok(next) => next,
            Err(e) => {
                return Err(e);
            },
        };
        self.perform_rotations(current)
    }

    /// Resolves all registers of the round, the first one first.
    pub fn execute_registers(&self, state: Box<State>) -> (r: Result<
        Box<State>,
        RegisterEngineError,
    >)
        requires
            state.wf(),
        ensures
            agrees(r, registers_from(state@, 0, state@.register_count())),
            r matches Ok(s) ==> s.wf(),
    {
        let ghost start = state@;
        let count: usize = state.register_count();
        let mut current: Box<State> = state;
        let mut register_index: usize = 0;
        while register_index < count
            invariant
                register_index <= count,
                start == state@,
                count == start.register_count(),
                current.wf(),
                registers_from(start, 0, count as nat) == registers_from(
                    current@,
                    register_index as nat,
                    count as nat,
                ),
            decreases count - register_index,
        {
            current = match self.run_register_phase(current, register_index) {
                Ok(next) => next,
                Err(e) => {
                    return Err(e);
                },
            };
            register_index += 1;
        }
        Ok(current)
    }
}

} // verus!
