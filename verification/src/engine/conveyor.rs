//! Board elements: conveyor belts that carry the robots resting on them, and
//! rotators that turn them.
//!
//! All conveyors move at once. Where that would be ambiguous nothing moves:
//! robots that are carried to one and the same tile stay, and so do two robots
//! that would swap their tiles.

use vstd::prelude::*;

use crate::engine::moves::find_robot_at;
use crate::search::{first_index, lemma_first_index_found, lemma_first_index_none};
use crate::state::board::{
    Board, BoardView, EConnection, EDirection, ERotationDirection, ETileType, Position,
};
use crate::state::player::Robot;
use crate::state::state::robot_at;
use crate::state::StateError;

verus! {

/// What a conveyor is about to do with the robot that rests on it.
#[derive(Debug, Clone, Copy, PartialEq, Eq, Structural)]
pub struct ConveyorMove {
    pub origin_position: Position,
    pub target_position: Position,
    pub outbound_direction: EDirection,
    pub connection: EConnection,
}

/// The tile that a connection leads to; a walled one leads nowhere, so the
/// robot stays on `origin`.
pub open spec fn connection_target(origin: Position, connection: EConnection) -> Position {
    match connection {
        EConnection::Walled => origin,
        EConnection::OffPlatform(to) => to,
        EConnection::Free(to) => to,
    }
}

/// The move that the board plans for a robot: one for each active robot that
/// rests on a conveyor, on an express conveyor where only those run.
pub open spec fn planned_move(board: BoardView, robot: Robot, express_only: bool) -> Option<
    ConveyorMove,
> {
    let tile = board.tile_at(robot.position).ttype;
    if robot.active() && !board.is_off_board(robot.position) && tile.is_conveyor() && (express_only
        ==> tile.conveyor_express()) {
        let connection = board.neighbor(robot.position, tile.conveyor_out());
        Some(
            ConveyorMove {
                origin_position: robot.position,
                target_position: connection_target(robot.position, connection),
                outbound_direction: tile.conveyor_out(),
                connection,
            },
        )
    } else {
        None
    }
}

/// The planned moves of all robots, robot by robot.
pub open spec fn planned_moves(board: BoardView, robots: Seq<Robot>, express_only: bool) -> Seq<
    Option<ConveyorMove>,
> {
    Seq::new(robots.len(), |i: int| planned_move(board, robots[i], express_only))
}

/// Whether the move planned for robot `i` has its target in common with the
/// move planned for another robot.
pub open spec fn duplicate_target(plans: Seq<Option<ConveyorMove>>, i: int) -> bool {
    plans[i] matches Some(m) && exists|j: int|
        0 <= j < plans.len() && j != i && same_target(#[trigger] plans[j], m)
}

/// Whether the plan leads to the target of `m`.
pub open spec fn same_target(plan: Option<ConveyorMove>, m: ConveyorMove) -> bool {
    plan matches Some(other) && other.target_position == m.target_position
}

/// Whether the plan leads from the target of `m` to its origin.
pub open spec fn reverse_of(plan: Option<ConveyorMove>, m: ConveyorMove) -> bool {
    plan matches Some(other) && other.target_position == m.origin_position
        && other.origin_position == m.target_position
}

/// Whether robot `i` and another robot, both with a target of their own, would
/// pass through each other.
pub open spec fn ghosting(plans: Seq<Option<ConveyorMove>>, i: int) -> bool {
    plans[i] matches Some(m) && !duplicate_target(plans, i) && exists|j: int|
        0 <= j < plans.len() && !duplicate_target(plans, j) && reverse_of(#[trigger] plans[j], m)
}

/// Whether the conveyor under robot `i` gets to move it.
pub open spec fn carried(plans: Seq<Option<ConveyorMove>>, i: int) -> bool {
    plans[i] is Some && !duplicate_target(plans, i) && !ghosting(plans, i)
}

/// The quarter turn that a robot makes when a conveyor carries it in direction
/// `outbound` onto a tile of type `target`: the turn towards the way out of
/// that tile, where the tile is a conveyor that is entered through one of its
/// inputs.
pub open spec fn conveyor_rotation(target: ETileType, outbound: EDirection) -> Option<
    ERotationDirection,
> {
    if target.accepts_input(outbound.turned(2)) {
        outbound.rotation_towards(target.conveyor_out())
    } else {
        None
    }
}

/// The robot after the conveyor under it has carried out the move `m`.
///
/// It stays at a wall, and before a tile that is no conveyor and on which a
/// robot stands. It is destroyed where the conveyor leads off the platform.
pub open spec fn conveyed(
    board: BoardView,
    robots: Seq<Robot>,
    robot: Robot,
    m: ConveyorMove,
) -> Robot {
    match m.connection {
        EConnection::Walled => robot,
        EConnection::OffPlatform(to) => robot.with_position(to).killed(),
        EConnection::Free(to) => {
            let target = board.tile_at(to).ttype;
            if robot_at(robots, to) is Some && !target.is_conveyor() {
                robot
            } else {
                match conveyor_rotation(target, m.outbound_direction) {
                    Some(rotation) => robot.with_position(to).with_direction(
                        robot.direction.rotated(rotation),
                    ),
                    None => robot.with_position(to),
                }
            }
        },
    }
}

/// Whether a robot that takes part in the register stands off the board.
pub open spec fn lost(board: BoardView, robot: Robot) -> bool {
    robot.active() && board.is_off_board(robot.position)
}

/// Place of the first active robot that stands off the board.
pub open spec fn first_lost(board: BoardView, robots: Seq<Robot>) -> Option<int> {
    first_index(robots, |r: Robot| lost(board, r))
}

/// The robots after the conveyors have moved once: all of them, or only the
/// express conveyors. Fails where an active robot stands off the board.
pub open spec fn conveyor_move(board: BoardView, robots: Seq<Robot>, express_only: bool) -> Result<
    Seq<Robot>,
    StateError,
> {
    match first_lost(board, robots) {
        Some(k) => Err(StateError::PositionOffBoard { position: robots[k].position }),
        None => {
            let plans = planned_moves(board, robots, express_only);
            Ok(
                Seq::new(
                    robots.len(),
                    |i: int|
                        if carried(plans, i) {
                            conveyed(board, robots, robots[i], plans[i].unwrap())
                        } else {
                            robots[i]
                        },
                ),
            )
        },
    }
}

/// The robot after the board element under it has turned: an active robot on a
/// rotator turns with it.
pub open spec fn rotated_by_tile(board: BoardView, robot: Robot) -> Robot {
    if robot.active() {
        match board.tile_at(robot.position).ttype {
            ETileType::Rotator { dir } => robot.with_direction(robot.direction.rotated(dir)),
            _ => robot,
        }
    } else {
        robot
    }
}

/// The robots after the rotators have turned. Fails where an active robot
/// stands off the board.
pub open spec fn rotations(board: BoardView, robots: Seq<Robot>) -> Result<Seq<Robot>, StateError> {
    match first_lost(board, robots) {
        Some(k) => Err(StateError::PositionOffBoard { position: robots[k].position }),
        None => Ok(Seq::new(robots.len(), |i: int| rotated_by_tile(board, robots[i]))),
    }
}

/// Plans the conveyor move of one robot.
fn plan_move(board: &Board, robot: &Robot, express_only: bool) -> (r: Result<
    Option<ConveyorMove>,
    StateError,
>)
    requires
        board.wf(),
    ensures
        match r {
            Ok(plan) => !lost(board@, *robot) && plan == planned_move(
                board@,
                *robot,
                express_only,
            ),
            Err(e) => lost(board@, *robot) && e == (StateError::PositionOffBoard {
                position: robot.position,
            }),
        },
{
    if !robot.is_active() {
        return Ok(None);
    }
    let tile_type: ETileType = match board.get_tile_type_at(&robot.position) {
        Ok(t) => t,
        Err(e) => {
            return Err(e);
        },
    };
    let outbound_direction: EDirection = match tile_type {
        ETileType::Conveyor2 { out, express, .. } => {
            if express_only && !express {
                return Ok(None);
            }
            out
        },
        ETileType::Conveyor3 { out, express, .. } => {
            if express_only && !express {
                return Ok(None);
            }
            out
        },
        _ => {
            return Ok(None);
        },
    };
    match board.get_neighbor_in(&robot.position, outbound_direction) {
        Ok(connection) => {
            let target_position: Position = match connection {
                EConnection::Walled => robot.position,
                EConnection::OffPlatform(to) => to,
                EConnection::Free(to) => to,
            };
            Ok(
                Some(
                    ConveyorMove {
                        origin_position: robot.position,
                        target_position,
                        outbound_direction,
                        connection,
                    },
                ),
            )
        },
        Err(e) => Err(e),
    }
}

/// Plans the conveyor moves of all robots.
fn plan_moves(board: &Board, robots: &Vec<Robot>, express_only: bool) -> (r: Result<
    Vec<Option<ConveyorMove>>,
    StateError,
>)
    requires
        board.wf(),
    ensures
        match r {
            Ok(plans) => first_lost(board@, robots@) is None && plans@ == planned_moves(
                board@,
                robots@,
                express_only,
            ),
            Err(e) => first_lost(board@, robots@) matches Some(k) && e
                == (StateError::PositionOffBoard { position: robots@[k].position }),
        },
{
    let ghost p = |r: Robot| lost(board@, r);
    let mut plans: Vec<Option<ConveyorMove>> = Vec::new();
    let mut i: usize = 0;
    while i < robots.len()
        invariant
            board.wf(),
            i <= robots@.len(),
            plans@.len() == i,
            p == (|r: Robot| lost(board@, r)),
            forall|k: int| 0 <= k < i ==> !p(#[trigger] robots@[k]),
            forall|k: int|
                0 <= k < i ==> plans@[k] == planned_move(board@, robots@[k], express_only),
        decreases robots@.len() - i,
    {
        match plan_move(board, &robots[i], express_only) {
            Ok(plan) => {
                plans.push(plan);
            },
            Err(e) => {
                proof {
                    lemma_first_index_found(robots@, p, i as int);
                }
                return Err(e);
            },
        }
        i += 1;
    }
    proof {
        lemma_first_index_none(robots@, p);
    }
    Ok(plans)
}

/// Whether another robot is to be carried to the target of robot `i`.
fn has_duplicate_target(plans: &Vec<Option<ConveyorMove>>, i: usize) -> (b: bool)
    requires
        i < plans@.len(),
    ensures
        b == duplicate_target(plans@, i as int),
{
    let m: ConveyorMove = match plans[i] {
        Some(m) => m,
        None => {
            return false;
        },
    };
    let mut j: usize = 0;
    while j < plans.len()
        invariant
            j <= plans@.len(),
            i < plans@.len(),
            plans@[i as int] == Some(m),
            forall|k: int| 0 <= k < j && k != i ==> !same_target(#[trigger] plans@[k], m),
        decreases plans@.len() - j,
    {
        if j != i {
            match plans[j] {
                Some(other) => {
                    if other.target_position == m.target_position {
                        return true;
                    }
                },
                None => {},
            }
        }
        j += 1;
    }
    false
}

/// Whether robot `i` would swap tiles with another robot.
fn is_ghosting(plans: &Vec<Option<ConveyorMove>>, duplicates: &Vec<bool>, i: usize) -> (b: bool)
    requires
        i < plans@.len(),
        duplicates@.len() == plans@.len(),
        forall|k: int|
            0 <= k < plans@.len() ==> #[trigger] duplicates@[k] == duplicate_target(plans@, k),
    ensures
        b == ghosting(plans@, i as int),
{
    let m: ConveyorMove = match plans[i] {
        Some(m) => m,
        None => {
            return false;
        },
    };
    if duplicates[i] {
        return false;
    }
    let mut j: usize = 0;
    while j < plans.len()
        invariant
            j <= plans@.len(),
            i < plans@.len(),
            duplicates@.len() == plans@.len(),
            plans@[i as int] == Some(m),
            !duplicate_target(plans@, i as int),
            forall|k: int|
                0 <= k < plans@.len() ==> #[trigger] duplicates@[k] == duplicate_target(
                    plans@,
                    k,
                ),
            forall|k: int|
                0 <= k < j ==> !(!duplicate_target(plans@, k) && reverse_of(
                    #[trigger] plans@[k],
                    m,
                )),
        decreases plans@.len() - j,
    {
        if !duplicates[j] {
            match plans[j] {
                Some(other) => {
                    if other.target_position == m.origin_position && other.origin_position
                        == m.target_position {
                        return true;
                    }
                },
                None => {},
            }
        }
        j += 1;
    }
    false
}

/// The quarter turn of a robot that is carried in direction `outbound` onto a
/// tile of type `target`.
fn rotation_on_entry(target: &ETileType, outbound: EDirection) -> (r: Option<ERotationDirection>)
    ensures
        r == conveyor_rotation(*target, outbound),
{
    let inbound: EDirection = outbound.turn_around();
    match target {
        ETileType::Conveyor2 { out, input, .. } => {
            if *input == inbound {
                outbound.try_rotate_towards(out)
            } else {
                None
            }
        },
        ETileType::Conveyor3 { out, inputs, .. } => {
            if inputs[0] == inbound || inputs[1] == inbound {
                outbound.try_rotate_towards(out)
            } else {
                None
            }
        },
        _ => None,
    }
}

/// Carries out the conveyor move `m` of `robot`.
fn convey(board: &Board, robots: &Vec<Robot>, robot: &Robot, m: &ConveyorMove) -> (r: Robot)
    requires
        board.wf(),
        !board@.is_off_board(robot.position),
        m.connection == board@.neighbor(robot.position, m.outbound_direction),
    ensures
        r == conveyed(board@, robots@, *robot, *m),
{
    match m.connection {
        EConnection::Walled => *robot,
        EConnection::OffPlatform(to) => robot.set_position(to).die(),
        EConnection::Free(to) => {
            let target: ETileType = match board.get_tile_type_at(&to) {
                Ok(t) => t,
                Err(_) => {
                    return *robot;
                },
            };
            let is_static: bool = match target {
                ETileType::Conveyor2 { .. } => false,
                ETileType::Conveyor3 { .. } => false,
                _ => true,
            };
            if is_static && find_robot_at(robots, &to).is_some() {
                return *robot;
            }
            let new_robot: Robot = robot.set_position(to);
            match rotation_on_entry(&target, m.outbound_direction) {
                Some(rotation) => new_robot.set_direction(robot.direction.rotate(&rotation)),
                None => new_robot,
            }
        },
    }
}

/// Moves the conveyors once: all of them, or only the express conveyors.
///
/// Every active robot that rests on a running conveyor is carried one tile in
/// the direction of the conveyor, unless another robot is carried to the same
/// tile, two robots would swap tiles, a wall is in the way, or a robot stands
/// on the next tile and that tile is no conveyor. A robot that enters a
/// conveyor through one of its inputs turns towards the way out.
pub fn perform_conveyor_move(board: &Board, robots: &Vec<Robot>, express_only: bool) -> (r: Result<
    Vec<Robot>,
    StateError,
>)
    requires
        board.wf(),
    ensures
        match r {
            Ok(moved) => conveyor_move(board@, robots@, express_only) == Ok::<
                Seq<Robot>,
                StateError,
            >(moved@),
            Err(e) => conveyor_move(board@, robots@, express_only) == Err::<
                Seq<Robot>,
                StateError,
            >(e),
        },
{
    // Gather the moves, robot by robot.
    let plans: Vec<Option<ConveyorMove>> = match plan_moves(board, robots, express_only) {
        Ok(plans) => plans,
        Err(e) => {
            return Err(e);
        },
    };

    // Robots with the same target do not move.
    let mut duplicates: Vec<bool> = Vec::new();
    let mut i: usize = 0;
    while i < plans.len()
        invariant
            i <= plans@.len(),
            duplicates@.len() == i,
            forall|k: int| 0 <= k < i ==> #[trigger] duplicates@[k] == duplicate_target(plans@, k),
        decreases plans@.len() - i,
    {
        duplicates.push(has_duplicate_target(&plans, i));
        i += 1;
    }

    // Robots that would swap tiles do not move; all others move at once.
    let mut moved: Vec<Robot> = Vec::new();
    let mut i: usize = 0;
    while i < robots.len()
        invariant
            board.wf(),
            i <= robots@.len(),
            moved@.len() == i,
            plans@ == planned_moves(board@, robots@, express_only),
            duplicates@.len() == plans@.len(),
            forall|k: int|
                0 <= k < plans@.len() ==> #[trigger] duplicates@[k] == duplicate_target(
                    plans@,
                    k,
                ),
            forall|k: int|
                0 <= k < i ==> moved@[k] == if carried(plans@, k) {
                    conveyed(board@, robots@, robots@[k], plans@[k].unwrap())
                } else {
                    robots@[k]
                },
        decreases robots@.len() - i,
    {
        let robot: Robot = robots[i];
        let new_robot: Robot = match plans[i] {
            Some(m) => {
                if duplicates[i] || is_ghosting(&plans, &duplicates, i) {
                    robot
                } else {
                    convey(board, robots, &robot, &m)
                }
            },
            None => robot,
        };
        moved.push(new_robot);
        i += 1;
    }
    proof {
        assert(moved@ =~= conveyor_move(board@, robots@, express_only)->Ok_0);
    }
    Ok(moved)
}

/// Turns the rotators: every active robot that rests on one turns with it.
pub fn perform_rotations(board: &Board, robots: &Vec<Robot>) -> (r: Result<Vec<Robot>, StateError>)
    requires
        board.wf(),
    ensures
        match r {
            Ok(turned) => rotations(board@, robots@) == Ok::<Seq<Robot>, StateError>(turned@),
            Err(e) => rotations(board@, robots@) == Err::<Seq<Robot>, StateError>(e),
        },
{
    let ghost p = |r: Robot| lost(board@, r);
    let mut turned: Vec<Robot> = Vec::new();
    let mut i: usize = 0;
    while i < robots.len()
        invariant
            board.wf(),
            i <= robots@.len(),
            turned@.len() == i,
            p == (|r: Robot| lost(board@, r)),
            forall|k: int| 0 <= k < i ==> !p(#[trigger] robots@[k]),
            forall|k: int| 0 <= k < i ==> turned@[k] == rotated_by_tile(board@, robots@[k]),
        decreases robots@.len() - i,
    {
        let robot: Robot = robots[i];
        if robot.is_active() {
            let tile_type: ETileType = match board.get_tile_type_at(&robot.position) {
                Ok(t) => t,
                Err(e) => {
                    proof {
                        lemma_first_index_found(robots@, p, i as int);
                    }
                    return Err(e);
                },
            };
            match tile_type {
                ETileType::Rotator { dir } => {
                    turned.push(robot.set_direction(robot.direction.rotate(&dir)));
                },
                _ => {
                    turned.push(robot);
                },
            }
        } else {
            turned.push(robot);
        }
        i += 1;
    }
    proof {
        lemma_first_index_none(robots@, p);
        assert(turned@ =~= rotations(board@, robots@)->Ok_0);
    }
    Ok(turned)
}

} // verus!
