//! Movement by program cards: turning, stepping and pushing.
//!
//! A robot that steps into an occupied tile pushes the robot standing there,
//! which may push a further one. A wall anywhere along such a chain stops the
//! whole chain; a robot pushed off the platform is destroyed.

use vstd::prelude::*;

use crate::search::{lemma_first_index_found, lemma_first_index_none};
use crate::state::board::{Board, BoardView, EConnection, EDirection, Position};
use crate::state::cards::ESimpleMove;
use crate::state::player::Robot;
use crate::state::state::robot_at;
use crate::state::StateError;

verus! {

/// The facing after a turning step, or the direction of travel of a moving
/// step, for a robot that faces `dir`.
pub open spec fn direction_after(smove: ESimpleMove, dir: EDirection) -> EDirection {
    match smove {
        ESimpleMove::TurnLeft => dir.turned(-1),
        ESimpleMove::TurnRight => dir.turned(1),
        ESimpleMove::UTurn => dir.turned(2),
        ESimpleMove::Backward => dir.turned(2),
        ESimpleMove::StepLeft => dir.turned(-1),
        ESimpleMove::StepRight => dir.turned(1),
        ESimpleMove::Forward => dir,
    }
}

/// For an on-board position, the number of steps in `direction` that lead off
/// the grid.
pub open spec fn steps_to_edge(board: BoardView, pos: Position, direction: EDirection) -> int {
    match direction {
        EDirection::NORTH => pos.y + 1,
        EDirection::SOUTH => board.size_y - pos.y,
        EDirection::WEST => pos.x + 1,
        EDirection::EAST => board.size_x - pos.x,
    }
}

/// The positions of a push chain that starts at `pos`: `pos` itself, then each
/// next tile in `direction` as long as the way there is free and a robot
/// stands on it.
pub open spec fn push_chain(
    board: BoardView,
    robots: Seq<Robot>,
    pos: Position,
    direction: EDirection,
) -> Seq<Position>
    decreases steps_to_edge(board, pos, direction),
{
    if !board.wf() || board.is_off_board(pos) {
        seq![pos]
    } else {
        match board.neighbor(pos, direction) {
            EConnection::Free(to) => if robot_at(robots, to) is Some {
                seq![pos] + push_chain(board, robots, to, direction)
            } else {
                seq![pos]
            },
            _ => seq![pos],
        }
    }
}

/// Whether a wall stops the chain that the robot at `pos` would push.
pub open spec fn chain_blocked(
    board: BoardView,
    robots: Seq<Robot>,
    pos: Position,
    direction: EDirection,
) -> bool {
    board.neighbor(push_chain(board, robots, pos, direction).last(), direction)
        is Walled
}

/// The robot after one step in `direction`: on the next tile where the way is
/// free, destroyed on the coordinate beyond the platform where it leads off,
/// and unmoved at a wall.
pub open spec fn stepped(board: BoardView, robot: Robot, direction: EDirection) -> Robot {
    match board.neighbor(robot.position, direction) {
        EConnection::Free(to) => robot.with_position(to),
        EConnection::OffPlatform(to) => robot.with_position(to).killed(),
        EConnection::Walled => robot,
    }
}

/// Whether robot `i` belongs to the chain that robot `mover` pushes: it is the
/// mover, or the first robot on one of the further tiles of the chain.
pub open spec fn in_chain(
    board: BoardView,
    robots: Seq<Robot>,
    mover: int,
    direction: EDirection,
    i: int,
) -> bool {
    let chain = push_chain(board, robots, robots[mover].position, direction);
    i == mover || (chain.subrange(1, chain.len() as int).contains(robots[i].position)
        && robot_at(robots, robots[i].position) == Some(i))
}

/// The robots after robot `mover` tried to step in `direction`.
///
/// Fails where the mover stands off the board. Where a wall stops the chain
/// nothing moves; else every robot of the chain takes one step.
pub open spec fn try_move(
    board: BoardView,
    robots: Seq<Robot>,
    mover: int,
    direction: EDirection,
) -> Result<Seq<Robot>, StateError> {
    let from = robots[mover].position;
    if board.is_off_board(from) {
        Err(StateError::PositionOffBoard { position: from })
    } else if chain_blocked(board, robots, from, direction) {
        Ok(robots)
    } else {
        Ok(
            Seq::new(
                robots.len(),
                |i: int|
                    if in_chain(board, robots, mover, direction, i) {
                        stepped(board, robots[i], direction)
                    } else {
                        robots[i]
                    },
            ),
        )
    }
}

/// The robots after robot `mover` performed one step of a card.
pub open spec fn simple_move(
    board: BoardView,
    robots: Seq<Robot>,
    mover: int,
    smove: ESimpleMove,
) -> Result<Seq<Robot>, StateError> {
    let direction = direction_after(smove, robots[mover].direction);
    if smove.turns() {
        Ok(robots.update(mover, robots[mover].with_direction(direction)))
    } else {
        try_move(board, robots, mover, direction)
    }
}

/// The robots after robot `mover` performed the steps of a card in order. The
/// remaining steps are dropped as soon as the robot is no longer active.
pub open spec fn perform_moves(
    board: BoardView,
    robots: Seq<Robot>,
    mover: int,
    moves: Seq<ESimpleMove>,
) -> Result<Seq<Robot>, StateError>
    decreases moves.len(),
{
    if moves.len() == 0 || !robots[mover].active() {
        Ok(robots)
    } else {
        match simple_move(board, robots, mover, moves[0]) {
            Ok(next) => perform_moves(board, next, mover, moves.drop_first()),
            Err(e) => Err(e),
        }
    }
}

/// The facing after a turning step, or the direction of travel of a moving
/// step, for a robot that faces `dir`.
pub fn map_move_to_direction_change(smove: &ESimpleMove, dir: EDirection) -> (d: EDirection)
    ensures
        d == direction_after(*smove, dir),
{
    match smove {
        ESimpleMove::TurnLeft => dir.turn_left(),
        ESimpleMove::TurnRight => dir.turn_right(),
        ESimpleMove::UTurn => dir.turn_around(),
        ESimpleMove::Backward => dir.turn_around(),
        ESimpleMove::StepLeft => dir.turn_left(),
        ESimpleMove::StepRight => dir.turn_right(),
        ESimpleMove::Forward => dir,
    }
}

/// Place of the first robot that stands at `pos`.
pub fn find_robot_at(robots: &Vec<Robot>, pos: &Position) -> (r: Option<usize>)
    ensures
        match r {
            Some(i) => robot_at(robots@, *pos) == Some(i as int) && i < robots@.len()
                && robots@[i as int].position == *pos,
            None => robot_at(robots@, *pos) is None,
        },
{
    let ghost p = |r: Robot| r.position == *pos;
    let mut i: usize = 0;
    while i < robots.len()
        invariant
            i <= robots@.len(),
            p == (|r: Robot| r.position == *pos),
            forall|k: int| 0 <= k < i ==> !p(#[trigger] robots@[k]),
        decreases robots@.len() - i,
    {
        if robots[i].position == *pos {
            proof {
                lemma_first_index_found(robots@, p, i as int);
            }
            return Some(i);
        }
        i += 1;
    }
    proof {
        lemma_first_index_none(robots@, p);
    }
    None
}

/// Whether `i` occurs in `stack` at place `from` or later.
spec fn listed_from(stack: Seq<usize>, from: int, i: int) -> bool {
    exists|k: int| from <= k < stack.len() && #[trigger] stack[k] == i
}

/// One step in `direction` from a tile of a well-formed board brings the edge
/// one step closer, where the way is free.
proof fn lemma_free_step(board: BoardView, pos: Position, direction: EDirection)
    requires
        board.wf(),
        !board.is_off_board(pos),
        board.neighbor(pos, direction) is Free,
    ensures
        !board.is_off_board(board.neighbor(pos, direction)->Free_0),
        steps_to_edge(board, board.neighbor(pos, direction)->Free_0, direction) == steps_to_edge(
            board,
            pos,
            direction,
        ) - 1,
{
}

/// Lets robot `mover` try to step in `direction`, pushing the robots in its
/// way.
pub fn try_to_move(
    board: &Board,
    robots: &mut Vec<Robot>,
    mover: usize,
    direction: EDirection,
) -> (r: Result<(), StateError>)
    requires
        board.wf(),
        mover < old(robots)@.len(),
    ensures
        match r {
            Ok(_) => try_move(board@, old(robots)@, mover as int, direction) == Ok::<
                Seq<Robot>,
                StateError,
            >(final(robots)@),
            Err(e) => try_move(board@, old(robots)@, mover as int, direction) == Err::<
                Seq<Robot>,
                StateError,
            >(e) && final(robots)@ == old(robots)@,
        },
{
    let ghost robots0 = robots@;
    let ghost start = robots@[mover as int].position;
    let mut push_stack: Vec<usize> = Vec::new();
    push_stack.push(mover);
    let ghost mut positions: Seq<Position> = seq![start];

    // Gather the chain of robots that would be pushed.
    loop
        invariant
            board.wf(),
            robots@ == robots0,
            mover < robots0.len(),
            start == robots0[mover as int].position,
            push_stack@.len() >= 1,
            push_stack@.len() == positions.len(),
            push_stack@[0] == mover,
            forall|k: int|
                0 <= k < push_stack@.len() ==> (#[trigger] push_stack@[k]) < robots0.len()
                    && robots0[push_stack@[k] as int].position == positions[k],
            forall|k: int|
                1 <= k < push_stack@.len() ==> robot_at(robots0, #[trigger] positions[k])
                    == Some(push_stack@[k] as int) && !board@.is_off_board(positions[k]),
            forall|k: int|
                0 <= k < push_stack@.len() ==> steps_to_edge(
                    board@,
                    #[trigger] positions[k],
                    direction,
                ) == steps_to_edge(board@, start, direction) - k,
            push_chain(board@, robots0, start, direction) == positions.drop_last() + push_chain(
                board@,
                robots0,
                positions.last(),
                direction,
            ),
        ensures
            robots@ == robots0,
            push_stack@.len() >= 1,
            push_stack@.len() == positions.len(),
            push_stack@[0] == mover,
            forall|k: int|
                0 <= k < push_stack@.len() ==> (#[trigger] push_stack@[k]) < robots0.len()
                    && robots0[push_stack@[k] as int].position == positions[k],
            forall|k: int|
                1 <= k < push_stack@.len() ==> robot_at(robots0, #[trigger] positions[k])
                    == Some(push_stack@[k] as int),
            forall|k: int|
                0 <= k < push_stack@.len() ==> !board@.is_off_board(#[trigger] positions[k]),
            forall|k: int|
                0 <= k < push_stack@.len() ==> steps_to_edge(
                    board@,
                    #[trigger] positions[k],
                    direction,
                ) == steps_to_edge(board@, start, direction) - k,
            push_chain(board@, robots0, start, direction) == positions,
            !(board@.neighbor(positions.last(), direction) is Walled),
        decreases steps_to_edge(board@, positions.last(), direction),
    {
        let top: usize = push_stack[push_stack.len() - 1];
        let from: Position = robots[top].position;
        assert(from == positions.last());
        let to: Position = match board.get_neighbor_in(&from, direction) {
            Err(e) => {
                assert(push_stack@.len() == 1);
                return Err(e);
            },
            Ok(EConnection::Walled) => {
                return Ok(());
            },
            Ok(EConnection::OffPlatform(_)) => {
                break ;
            },
            Ok(EConnection::Free(to)) => to,
        };
        match find_robot_at(robots, &to) {
            None => {
                break ;
            },
            Some(next) => {
                proof {
                    lemma_free_step(board@, from, direction);
                    positions = positions.push(to);
                }
                push_stack.push(next);
            },
        }
    }

    let ghost stack0 = push_stack@;

    // Move the robots of the chain, the farthest first.
    while push_stack.len() > 0
        invariant
            board.wf(),
            robots@.len() == robots0.len(),
            push_stack@.len() <= stack0.len(),
            push_stack@ == stack0.take(push_stack@.len() as int),
            stack0.len() == positions.len(),
            forall|k: int|
                0 <= k < stack0.len() ==> (#[trigger] stack0[k]) < robots0.len()
                    && robots0[stack0[k] as int].position == positions[k],
            forall|k: int| 0 <= k < stack0.len() ==> !board@.is_off_board(#[trigger] positions[k]),
            forall|k: int|
                0 <= k < stack0.len() ==> steps_to_edge(board@, #[trigger] positions[k], direction)
                    == steps_to_edge(board@, start, direction) - k,
            forall|i: int|
                0 <= i < robots0.len() ==> #[trigger] robots@[i] == if listed_from(
                    stack0,
                    push_stack@.len() as int,
                    i,
                ) {
                    stepped(board@, robots0[i], direction)
                } else {
                    robots0[i]
                },
        decreases push_stack@.len(),
    {
        let index: usize = push_stack[push_stack.len() - 1];
        let robot: Robot = robots[index];
        let new_robot: Robot = match board.get_neighbor_in(&robot.position, direction) {
            Ok(EConnection::Free(to)) => robot.set_position(to),
            Ok(EConnection::OffPlatform(to)) => robot.set_position(to).die(),
            Ok(EConnection::Walled) => robot,
            Err(_) => robot,
        };
        robots[index] = new_robot;
        push_stack.pop();
    }

    proof {
        let chain = push_chain(board@, robots0, start, direction);
        let moved = try_move(board@, robots0, mover as int, direction)->Ok_0;
        assert forall|i: int| 0 <= i < robots0.len() implies robots@[i] == moved[i] by {
            let tail = chain.subrange(1, chain.len() as int);
            if listed_from(stack0, 0, i) {
                let k = choose|k: int| 0 <= k < stack0.len() && stack0[k] == i;
                if k >= 1 {
                    assert(tail[k - 1] == positions[k]);
                }
            }
        }
        assert(robots@ =~= moved);
    }
    Ok(())
}

/// Lets robot `mover` perform one step of a card.
pub fn perform_simple_move(
    board: &Board,
    robots: &mut Vec<Robot>,
    mover: usize,
    smove: &ESimpleMove,
) -> (r: Result<(), StateError>)
    requires
        board.wf(),
        mover < old(robots)@.len(),
    ensures
        final(robots)@.len() == old(robots)@.len(),
        match r {
            Ok(_) => simple_move(board@, old(robots)@, mover as int, *smove) == Ok::<
                Seq<Robot>,
                StateError,
            >(final(robots)@),
            Err(e) => simple_move(board@, old(robots)@, mover as int, *smove) == Err::<
                Seq<Robot>,
                StateError,
            >(e),
        },
{
    let robot: Robot = robots[mover];
    let direction: EDirection = map_move_to_direction_change(smove, robot.direction);
    if smove.is_turn() {
        robots[mover] = robot.set_direction(direction);
        Ok(())
    } else {
        try_to_move(board, robots, mover, direction)
    }
}

/// Lets robot `mover` perform the steps of a card, one after the other, until
/// the steps are done or the robot is no longer active.
pub fn perform_move(
    board: &Board,
    robots: &mut Vec<Robot>,
    mover: usize,
    moves: &Vec<ESimpleMove>,
) -> (r: Result<(), StateError>)
    requires
        board.wf(),
        mover < old(robots)@.len(),
    ensures
        final(robots)@.len() == old(robots)@.len(),
        match r {
            Ok(_) => perform_moves(board@, old(robots)@, mover as int, moves@) == Ok::<
                Seq<Robot>,
                StateError,
            >(final(robots)@),
            Err(e) => perform_moves(board@, old(robots)@, mover as int, moves@) == Err::<
                Seq<Robot>,
                StateError,
            >(e),
        },
{
    let ghost robots0 = robots@;
    let mut i: usize = 0;
    assert(moves@.skip(0) =~= moves@);
    while i < moves.len()
        invariant
            board.wf(),
            i <= moves@.len(),
            robots0 == old(robots)@,
            robots@.len() == robots0.len(),
            mover < robots0.len(),
            perform_moves(board@, robots0, mover as int, moves@) == perform_moves(
                board@,
                robots@,
                mover as int,
                moves@.skip(i as int),
            ),
        decreases moves@.len() - i,
    {
        if !robots[mover].is_active() {
            return Ok(());
        }
        let ghost rest = moves@.skip(i as int);
        assert(rest.drop_first() =~= moves@.skip(i + 1));
        match perform_simple_move(board, robots, mover, &moves[i]) {
            Ok(_) => {},
            Err(e) => {
                return Err(e);
            },
        }
        i += 1;
    }
    Ok(())
}

} // verus!
