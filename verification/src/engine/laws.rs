//! What follows from the rules of movement and of the board elements.

use vstd::prelude::*;

use crate::engine::conveyor::{
    conveyor_move, duplicate_target, ghosting, planned_moves, reverse_of, rotations, same_target,
};
use crate::engine::moves::{
    chain_blocked, direction_after, push_chain, simple_move, stepped, try_move,
};
use crate::search::lemma_first_index;
use crate::state::board::{BoardView, EConnection, EDirection, Position};
use crate::state::cards::ESimpleMove;
use crate::state::player::{ERobotStatus, Robot};
use crate::state::state::robot_at;
use crate::state::StateError;

verus! {

/// A step forward on a free way to an empty tile takes the robot exactly one
/// tile in the direction it faces. Its facing stays, and no other robot is
/// touched.
pub proof fn lemma_forward_unobstructed(board: BoardView, robots: Seq<Robot>, mover: int)
    requires
        board.wf(),
        0 <= mover < robots.len(),
        !board.is_off_board(robots[mover].position),
        board.neighbor(robots[mover].position, robots[mover].direction) is Free,
        robot_at(
            robots,
            board.neighbor(robots[mover].position, robots[mover].direction)->Free_0,
        ) is None,
    ensures
        ({
            let robot = robots[mover];
            let (x, y) = robot.position.step(robot.direction);
            let to = Position { x: x as i32, y: y as i32 };
            &&& to.x == x && to.y == y
            &&& simple_move(board, robots, mover, ESimpleMove::Forward) == Ok::<
                Seq<Robot>,
                StateError,
            >(robots.update(mover, robot.with_position(to)))
        }),
{
    let robot = robots[mover];
    let to = board.neighbor(robot.position, robot.direction)->Free_0;
    // Nobody stands on the next tile, so the robot is the whole chain.
    assert(push_chain(board, robots, robot.position, robot.direction) =~= seq![robot.position]);
    let moved = try_move(board, robots, mover, robot.direction)->Ok_0;
    assert(moved =~= robots.update(mover, robot.with_position(to)));
}

/// A wall between the tile of a robot and the next tile in its direction of
/// travel, declared on either of the two tiles, leaves every robot where it
/// is and as it is, whichever moving step is tried.
pub proof fn lemma_wall_blocks(board: BoardView, robots: Seq<Robot>, mover: int, smove: ESimpleMove)
    requires
        board.wf(),
        0 <= mover < robots.len(),
        !board.is_off_board(robots[mover].position),
        !smove.turns(),
        ({
            let from = robots[mover].position;
            let direction = direction_after(smove, robots[mover].direction);
            let (x, y) = from.step(direction);
            ||| board.tile_at(from).walls.contains(direction)
            ||| (!board.off_board(x, y) && board.tile(x, y).walls.contains(direction.turned(2)))
        }),
    ensures
        simple_move(board, robots, mover, smove) == Ok::<Seq<Robot>, StateError>(robots),
{
    let from = robots[mover].position;
    let direction = direction_after(smove, robots[mover].direction);
    assert(board.neighbor(from, direction) is Walled);
    assert(chain_blocked(board, robots, from, direction));
}

/// A robot that steps into a tile held by another robot pushes it: where no
/// wall stands beyond the other robot and no third robot stands there, both
/// shift one tile in the direction of travel and nobody else moves.
pub proof fn lemma_push_shifts_both(
    board: BoardView,
    robots: Seq<Robot>,
    mover: int,
    pushed: int,
    direction: EDirection,
)
    requires
        board.wf(),
        0 <= mover < robots.len(),
        !board.is_off_board(robots[mover].position),
        board.neighbor(robots[mover].position, direction) is Free,
        robot_at(robots, board.neighbor(robots[mover].position, direction)->Free_0) == Some(
            pushed,
        ),
        !(board.neighbor(robots[pushed].position, direction) is Walled),
        board.neighbor(robots[pushed].position, direction) matches EConnection::Free(beyond)
            ==> robot_at(robots, beyond) is None,
    ensures
        mover != pushed,
        try_move(board, robots, mover, direction) == Ok::<Seq<Robot>, StateError>(
            robots.update(mover, robots[mover].with_position(robots[pushed].position)).update(
                pushed,
                stepped(board, robots[pushed], direction),
            ),
        ),
        ({
            let (x, y) = robots[pushed].position.step(direction);
            let shifted = stepped(board, robots[pushed], direction);
            shifted.position.x == x && shifted.position.y == y && shifted.direction
                == robots[pushed].direction
        }),
{
    let from = robots[mover].position;
    let to = board.neighbor(from, direction)->Free_0;
    lemma_first_index(robots, |r: Robot| r.position == to);
    // The chain is the mover and the robot in its way.
    let chain = push_chain(board, robots, from, direction);
    assert(push_chain(board, robots, to, direction) =~= seq![to]);
    assert(chain =~= seq![from, to]);
    assert(chain.subrange(1, 2) =~= seq![to]);
    let expected = robots.update(mover, robots[mover].with_position(to)).update(
        pushed,
        stepped(board, robots[pushed], direction),
    );
    let moved = try_move(board, robots, mover, direction)->Ok_0;
    assert(moved =~= expected);
}

/// A robot that steps into a tile held by another robot does not move, and
/// neither does the other, where a wall stands beyond the other robot.
pub proof fn lemma_push_against_wall(
    board: BoardView,
    robots: Seq<Robot>,
    mover: int,
    pushed: int,
    direction: EDirection,
)
    requires
        board.wf(),
        0 <= mover < robots.len(),
        !board.is_off_board(robots[mover].position),
        board.neighbor(robots[mover].position, direction) is Free,
        robot_at(robots, board.neighbor(robots[mover].position, direction)->Free_0) == Some(
            pushed,
        ),
        board.neighbor(robots[pushed].position, direction) is Walled,
    ensures
        try_move(board, robots, mover, direction) == Ok::<Seq<Robot>, StateError>(robots),
{
    let from = robots[mover].position;
    let to = board.neighbor(from, direction)->Free_0;
    lemma_first_index(robots, |r: Robot| r.position == to);
    // The chain ends with the robot in the way, which stands at the wall.
    assert(push_chain(board, robots, to, direction) =~= seq![to]);
    assert(push_chain(board, robots, from, direction) =~= seq![from, to]);
}

/// A robot that steps over the edge of the grid, with no wall in its way, is
/// destroyed. It lies at the coordinate one step beyond the edge and keeps its
/// facing.
pub proof fn lemma_driven_off_the_grid(
    board: BoardView,
    robots: Seq<Robot>,
    mover: int,
    smove: ESimpleMove,
)
    requires
        board.wf(),
        0 <= mover < robots.len(),
        !board.is_off_board(robots[mover].position),
        !smove.turns(),
        ({
            let from = robots[mover].position;
            let direction = direction_after(smove, robots[mover].direction);
            let (x, y) = from.step(direction);
            board.off_board(x, y) && !board.tile_at(from).walls.contains(direction)
        }),
    ensures
        ({
            let robot = robots[mover];
            let (x, y) = robot.position.step(direction_after(smove, robot.direction));
            let fallen = Robot {
                position: Position { x: x as i32, y: y as i32 },
                damage: 0,
                status: ERobotStatus::Destroyed,
                ..robot
            };
            &&& fallen.position.x == x && fallen.position.y == y
            &&& fallen.direction == robot.direction
            &&& simple_move(board, robots, mover, smove) == Ok::<Seq<Robot>, StateError>(
                robots.update(mover, fallen),
            )
        }),
{
    let robot = robots[mover];
    let direction = direction_after(smove, robot.direction);
    let (x, y) = robot.position.step(direction);
    let to = Position { x: x as i32, y: y as i32 };
    assert(board.neighbor(robot.position, direction) == EConnection::OffPlatform(to));
    assert(push_chain(board, robots, robot.position, direction) =~= seq![robot.position]);
    let moved = try_move(board, robots, mover, direction)->Ok_0;
    assert(moved =~= robots.update(mover, robot.with_position(to).killed()));
}

/// Two robots whose conveyors lead to one and the same tile both stay where
/// they are in that pass.
pub proof fn lemma_duplicate_target_stops_both(
    board: BoardView,
    robots: Seq<Robot>,
    express_only: bool,
    a: int,
    b: int,
)
    requires
        0 <= a < robots.len(),
        0 <= b < robots.len(),
        a != b,
        planned_moves(board, robots, express_only)[a] is Some,
        planned_moves(board, robots, express_only)[b] is Some,
        planned_moves(board, robots, express_only)[a]->Some_0.target_position == planned_moves(
            board,
            robots,
            express_only,
        )[b]->Some_0.target_position,
    ensures
        conveyor_move(board, robots, express_only) matches Ok(moved) ==> moved[a] == robots[a]
            && moved[b] == robots[b],
{
    let plans = planned_moves(board, robots, express_only);
    assert(duplicate_target(plans, a)) by {
        assert(same_target(plans[b], plans[a]->Some_0));
    }
    assert(duplicate_target(plans, b)) by {
        assert(same_target(plans[a], plans[b]->Some_0));
    }
}

/// Two robots whose conveyors lead each to the tile of the other both stay
/// where they are in that pass. This is stated of two robots that either both
/// have, or both have not, their target in common with a further robot.
pub proof fn lemma_ghosting_stops_both(
    board: BoardView,
    robots: Seq<Robot>,
    express_only: bool,
    a: int,
    b: int,
)
    requires
        0 <= a < robots.len(),
        0 <= b < robots.len(),
        planned_moves(board, robots, express_only)[a] is Some,
        planned_moves(board, robots, express_only)[b] is Some,
        ({
            let plans = planned_moves(board, robots, express_only);
            let m = plans[a]->Some_0;
            let n = plans[b]->Some_0;
            &&& m.target_position == n.origin_position
            &&& n.target_position == m.origin_position
            &&& duplicate_target(plans, a) == duplicate_target(plans, b)
        }),
    ensures
        conveyor_move(board, robots, express_only) matches Ok(moved) ==> moved[a] == robots[a]
            && moved[b] == robots[b],
{
    let plans = planned_moves(board, robots, express_only);
    if !duplicate_target(plans, a) {
        assert(ghosting(plans, a)) by {
            assert(reverse_of(plans[b], plans[a]->Some_0));
        }
        assert(ghosting(plans, b)) by {
            assert(reverse_of(plans[a], plans[b]->Some_0));
        }
    }
}

/// A conveyor does not carry its robot onto a tile that is no conveyor and on
/// which a robot stands.
pub proof fn lemma_conveyor_stops_before_static_robot(
    board: BoardView,
    robots: Seq<Robot>,
    express_only: bool,
    a: int,
)
    requires
        0 <= a < robots.len(),
        planned_moves(board, robots, express_only)[a] matches Some(m) && m.connection
            matches EConnection::Free(to) && robot_at(robots, to) is Some && !board.tile_at(
            to,
        ).ttype.is_conveyor(),
    ensures
        conveyor_move(board, robots, express_only) matches Ok(moved) ==> moved[a] == robots[a],
{
}

/// A rotator turns the active robot that rests on it by the quarter turn of
/// the rotator and leaves it where it is.
pub proof fn lemma_rotator_turns(board: BoardView, robots: Seq<Robot>, a: int)
    requires
        0 <= a < robots.len(),
        robots[a].active(),
        board.tile_at(robots[a].position).ttype is Rotator,
    ensures
        rotations(board, robots) matches Ok(turned) ==> turned[a] == (Robot {
            direction: robots[a].direction.rotated(
                board.tile_at(robots[a].position).ttype->Rotator_dir,
            ),
            ..robots[a]
        }),
{
}

} // verus!
