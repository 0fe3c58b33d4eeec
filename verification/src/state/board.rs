//! Board geometry: positions, directions, tiles, walls and the connectivity
//! between neighbouring tiles.

use vstd::prelude::*;

use crate::search::{first_index, lemma_first_index_found, lemma_first_index_none};
use crate::state::StateError;

verus! {

pub type StartPositionID = u32;

/// A grid coordinate. `(0, 0)` is the north-west corner, `x` grows to the east
/// and `y` grows to the south.
#[derive(Debug, Default, Copy, Clone, PartialEq, Eq, PartialOrd, Ord, Structural)]
pub struct Position {
    pub x: i32,
    pub y: i32,
}

impl Position {
    pub fn new(x: i32, y: i32) -> (p: Position)
        ensures
            p == (Position { x, y }),
    {
        Position { x, y }
    }

    pub fn set_x(&self, x: i32) -> (p: Position)
        ensures
            p == (Position { x, y: self.y }),
    {
        Position { x, y: self.y }
    }

    pub fn set_y(&self, y: i32) -> (p: Position)
        ensures
            p == (Position { x: self.x, y }),
    {
        Position { x: self.x, y }
    }

    /// The coordinate one tile away in `direction`, as a pair of unbounded
    /// integers.
    pub open spec fn step(self, direction: EDirection) -> (int, int) {
        match direction {
            EDirection::NORTH => (self.x as int, self.y - 1),
            EDirection::SOUTH => (self.x as int, self.y + 1),
            EDirection::WEST => (self.x - 1, self.y as int),
            EDirection::EAST => (self.x + 1, self.y as int),
        }
    }
}

/// The four directions, in clockwise order starting at north.
#[derive(Debug, Copy, Clone, PartialEq, Eq, Structural)]
pub enum EDirection {
    NORTH,
    EAST,
    SOUTH,
    WEST,
}

#[derive(Debug, Copy, Clone, PartialEq, Eq, Structural)]
pub enum ERotationDirection {
    Left,
    Right,
}

impl EDirection {
    /// The directions in clockwise order, north first.
    pub const DIRECTIONS: [EDirection; 4] = [
        EDirection::NORTH,
        EDirection::EAST,
        EDirection::SOUTH,
        EDirection::WEST,
    ];

    /// Place of the direction in the clockwise cycle north, east, south, west.
    pub open spec fn index(self) -> int {
        match self {
            EDirection::NORTH => 0,
            EDirection::EAST => 1,
            EDirection::SOUTH => 2,
            EDirection::WEST => 3,
        }
    }

    /// The direction at place `i` of the cycle, taken modulo four.
    pub open spec fn from_index(i: int) -> EDirection {
        let r = i % 4;
        if r == 0 {
            EDirection::NORTH
        } else if r == 1 {
            EDirection::EAST
        } else if r == 2 {
            EDirection::SOUTH
        } else {
            EDirection::WEST
        }
    }

    /// The direction `offset` quarter turns clockwise from `self`.
    pub open spec fn turned(self, offset: int) -> EDirection {
        EDirection::from_index(self.index() + offset)
    }

    pub fn turn_left(self) -> (d: EDirection)
        ensures
            d == self.turned(-1),
    {
        self.turn(-1)
    }

    pub fn turn_right(self) -> (d: EDirection)
        ensures
            d == self.turned(1),
    {
        self.turn(1)
    }

    pub fn turn_around(self) -> (d: EDirection)
        ensures
            d == self.turned(2),
    {
        self.turn(2)
    }

    pub fn opposite(self) -> (d: EDirection)
        ensures
            d == self.turned(2),
    {
        self.turn_around()
    }

    /// Turns by `offset` quarter turns, clockwise for a positive offset.
    pub fn turn(self, offset: i8) -> (d: EDirection)
        requires
            -4 <= offset <= 4,
        ensures
            d == self.turned(offset as int),
    {
        let index: i8 = match self {
            EDirection::NORTH => 0,
            EDirection::EAST => 1,
            EDirection::SOUTH => 2,
            EDirection::WEST => 3,
        };
        let max: i8 = 4;
        let new_index: i8 = (index + offset + max) % max;
        if new_index == 0 {
            EDirection::NORTH
        } else if new_index == 1 {
            EDirection::EAST
        } else if new_index == 2 {
            EDirection::SOUTH
        } else {
            EDirection::WEST
        }
    }

/// The direction a quarter turn to the left or to the right of `self`.
    pub open spec fn rotated(self, rotation_dir: ERotationDirection) -> EDirection {
        match rotation_dir {
            ERotationDirection::Left => self.turned(-1),
            ERotationDirection::Right => self.turned(1),
        }
    }

    pub fn rotate(&self, rotation_dir: &ERotationDirection) -> (d: EDirection)
        ensures
            d == self.rotated(*rotation_dir),
    {
        match rotation_dir {
            ERotationDirection::Left => self.turn_left(),
            ERotationDirection::Right => self.turn_right(),
        }
    }

    /// The quarter turn that leads from `self` to `target`: none where the two
    /// are equal or opposite.
    pub open spec fn rotation_towards(self, target: EDirection) -> Option<ERotationDirection> {
        if self.turned(2) == target || self == target {
            None
        } else if self.turned(-1) == target {
            Some(ERotationDirection::Left)
        } else {
            Some(ERotationDirection::Right)
        }
    }

    pub fn try_rotate_towards(&self, target: &EDirection) -> (r: Option<ERotationDirection>)
        ensures
            r == self.rotation_towards(*target),
            r matches Some(rot) ==> self.rotated(rot) == *target,
    {
        if self.turn_around() == *target || *self == *target {
            return None;
        }
        if self.turn_left() == *target {
            return Some(ERotationDirection::Left);
        }
        Some(ERotationDirection::Right)
    }
}

/// Turning by `a` and then by `b` quarter turns is turning by `a + b`, and
/// four quarter turns lead back.
pub proof fn lemma_turns_add(direction: EDirection, a: int, b: int)
    ensures
        direction.turned(a).turned(b) == direction.turned(a + b),
        direction.turned(4) == direction,
        direction.turned(0) == direction,
        direction.turned(-1) == direction.turned(3),
{
}

impl Default for EDirection {
    fn default() -> (d: EDirection)
        ensures
            d == EDirection::NORTH,
    {
        EDirection::NORTH
    }
}

/// What a tile is. A conveyor carries a resting robot one tile towards `out`;
/// `express` conveyors do so twice per register.
#[derive(Debug, Copy, Clone, PartialEq, Eq)]
pub enum ETileType {
    Regular,
    NoTile,
    Conveyor2 { out: EDirection, input: EDirection, express: bool },
    Conveyor3 { out: EDirection, inputs: [EDirection; 2], express: bool },
    Rotator { dir: ERotationDirection },
}

impl ETileType {
/// Whether the tile carries its load along.
    pub open spec fn is_conveyor(self) -> bool {
        self is Conveyor2 || self is Conveyor3
    }

    /// Direction in which a conveyor carries its load.
    pub open spec fn conveyor_out(self) -> EDirection
        recommends
            self.is_conveyor(),
    {
        match self {
            ETileType::Conveyor2 { out, .. } => out,
            ETileType::Conveyor3 { out, .. } => out,
            _ => EDirection::NORTH,
        }
    }

/// Whether a conveyor is an express conveyor.
    pub open spec fn conveyor_express(self) -> bool
        recommends
            self.is_conveyor(),
    {
        match self {
            ETileType::Conveyor2 { express, .. } => express,
            ETileType::Conveyor3 { express, .. } => express,
            _ => false,
        }
    }

    /// Whether the tile is a conveyor that declares `inbound` as an input.
    pub open spec fn accepts_input(self, inbound: EDirection) -> bool {
        match self {
            ETileType::Conveyor2 { input, .. } => input == inbound,
            ETileType::Conveyor3 { inputs, .. } => inputs[0] == inbound || inputs[1] == inbound,
            _ => false,
        }
    }
}

/// How a tile is connected to its neighbour in one direction.
#[derive(Debug, Copy, Clone, PartialEq, Eq, Structural)]
pub enum EConnection {
    Free(Position),
    Walled,
    OffPlatform(Position),
}

#[derive(Debug)]
pub struct Tile {
    pub position: Position,
    pub ttype: ETileType,
    pub walls: Vec<EDirection>,
    pub start_position_id: Option<StartPositionID>,
}

pub ghost struct TileView {
    pub position: Position,
    pub ttype: ETileType,
    pub walls: Seq<EDirection>,
    pub start_position_id: Option<StartPositionID>,
}

impl View for Tile {
    type V = TileView;

    open spec fn view(&self) -> TileView {
        TileView {
            position: self.position,
            ttype: self.ttype,
            walls: self.walls@,
            start_position_id: self.start_position_id,
        }
    }
}

impl DeepView for Tile {
    type V = TileView;

    open spec fn deep_view(&self) -> TileView {
        self@
    }
}

impl Tile {
/// Whether the tile declares a wall on its edge in `direction`.
    pub fn has_wall(&self, direction: EDirection) -> (b: bool)
        ensures
            b == self@.walls.contains(direction),
    {
        let mut i: usize = 0;
        while i < self.walls.len()
            invariant
                i <= self.walls@.len(),
                forall|k: int| 0 <= k < i ==> self.walls@[k] != direction,
            decreases self.walls@.len() - i,
        {
            if self.walls[i] == direction {
                return true;
            }
            i += 1;
        }
        false
    }
}

/// Which board a game is played on.
#[derive(Debug)]
pub struct BoardConfig {
    pub factory_floor: String,
}

impl Default for BoardConfig {
    fn default() -> (c: BoardConfig)
        ensures
            c.factory_floor@ == "test-full-1"@,
    {
        BoardConfig { factory_floor: "test-full-1".to_owned() }
    }
}

/// A rectangular board of `size_x` by `size_y` tiles, stored row by row.
#[derive(Debug, Default)]
pub struct Board {
    pub tiles: Vec<Tile>,
    pub size_x: i32,
    pub size_y: i32,
}

pub ghost struct BoardView {
    pub tiles: Seq<TileView>,
    pub size_x: int,
    pub size_y: int,
}

impl View for Board {
    type V = BoardView;

    open spec fn view(&self) -> BoardView {
        BoardView {
            tiles: self.tiles.deep_view(),
            size_x: self.size_x as int,
            size_y: self.size_y as int,
        }
    }
}

impl DeepView for Board {
    type V = BoardView;

    open spec fn deep_view(&self) -> BoardView {
        self@
    }
}

impl BoardView {
    /// The tile array covers the rectangle exactly.
    pub open spec fn wf(self) -> bool {
        &&& 0 <= self.size_x <= i32::MAX
        &&& 0 <= self.size_y <= i32::MAX
        &&& self.tiles.len() == self.size_x * self.size_y
    }

/// Whether the coordinate lies outside the grid.
    pub open spec fn off_board(self, x: int, y: int) -> bool {
        x < 0 || x >= self.size_x || y < 0 || y >= self.size_y
    }

    pub open spec fn is_off_board(self, pos: Position) -> bool {
        self.off_board(pos.x as int, pos.y as int)
    }

/// Place of a coordinate in the tile array.
    pub open spec fn index(self, x: int, y: int) -> int {
        x + y * self.size_x
    }

    pub open spec fn tile(self, x: int, y: int) -> TileView {
        self.tiles[self.index(x, y)]
    }

    pub open spec fn tile_at(self, pos: Position) -> TileView {
        self.tile(pos.x as int, pos.y as int)
    }

    /// Whether a wall separates the on-board tile `pos` from its neighbour in
    /// `direction`: declared on this tile, or on the neighbour's facing edge.
    pub open spec fn walled(self, pos: Position, direction: EDirection) -> bool {
        let (nx, ny) = pos.step(direction);
        ||| self.tile_at(pos).walls.contains(direction)
        ||| (!self.off_board(nx, ny) && self.tile(nx, ny).walls.contains(direction.turned(2)))
    }

    /// The connection from the on-board tile `pos` to its neighbour in
    /// `direction`.
    pub open spec fn neighbor(self, pos: Position, direction: EDirection) -> EConnection {
        let (nx, ny) = pos.step(direction);
        let to = Position { x: nx as i32, y: ny as i32 };
        if self.walled(pos, direction) {
            EConnection::Walled
        } else if self.off_board(nx, ny) || self.tile(nx, ny).ttype == ETileType::NoTile {
            EConnection::OffPlatform(to)
        } else {
            EConnection::Free(to)
        }
    }

    /// Place of the first tile, in row order, that carries the start position
    /// id.
    pub open spec fn start_tile(self, id: StartPositionID) -> Option<int> {
        first_index(self.tiles, |t: TileView| t.start_position_id == Some(id))
    }
}

/// An on-board coordinate has a place in the tile array of a well-formed
/// board.
pub proof fn lemma_index_in_range(b: BoardView, x: int, y: int)
    requires
        b.wf(),
        !b.off_board(x, y),
    ensures
        0 <= b.index(x, y) < b.tiles.len(),
{
    assert(0 <= y * b.size_x) by (nonlinear_arith)
        requires
            0 <= y,
            0 <= b.size_x,
    ;
    assert(x + y * b.size_x < b.size_x * b.size_y) by (nonlinear_arith)
        requires
            0 <= x < b.size_x,
            0 <= y < b.size_y,
    ;
}

/// A tile without walls and without a start position.
pub open spec fn plain_tile(x: int, y: int, ttype: ETileType) -> TileView {
    TileView {
        position: Position { x: x as i32, y: y as i32 },
        ttype,
        walls: Seq::empty(),
        start_position_id: None,
    }
}

impl BoardView {
    /// Whether every tile is a plain tile of type `ttype` that knows its
    /// position.
    pub open spec fn uniform(self, ttype: ETileType) -> bool {
        forall|x: int, y: int|
            !self.off_board(x, y) ==> #[trigger] self.tile(x, y) == plain_tile(x, y, ttype)
    }
}

impl Board {
/// Whether the tile array covers the rectangle exactly.
    pub open spec fn wf(&self) -> bool {
        self@.wf()
    }

    /// A board of plain regular tiles.
    pub fn new_empty_board(size_x: i32, size_y: i32) -> (board: Board)
        requires
            0 <= size_x,
            0 <= size_y,
            size_x * size_y <= usize::MAX,
        ensures
            board.wf(),
            board.size_x == size_x,
            board.size_y == size_y,
            board@.uniform(ETileType::Regular),
    {
        let mut board = Board { tiles: Vec::new(), size_x, size_y };
        board.fill_with_tiles(ETileType::Regular);
        board
    }

    /// Covers the board with plain tiles of type `ttype`, replacing the tiles
    /// it had.
    pub fn fill_with_tiles(&mut self, ttype: ETileType)
        requires
            0 <= old(self).size_x,
            0 <= old(self).size_y,
            old(self).size_x * old(self).size_y <= usize::MAX,
        ensures
            final(self).wf(),
            final(self).size_x == old(self).size_x,
            final(self).size_y == old(self).size_y,
            final(self)@.uniform(ttype),
    {
        let size_x: i32 = self.size_x;
        let size_y: i32 = self.size_y;
        let mut tiles: Vec<Tile> = Vec::new();
        let mut y: i32 = 0;
        while y < size_y
            invariant
                0 <= y <= size_y,
                0 <= size_x,
                tiles@.len() == y * size_x,
                forall|tx: int, ty: int|
                    0 <= tx < size_x && 0 <= ty < y ==> (#[trigger] tiles@[tx + ty * size_x])@
                        == plain_tile(tx, ty, ttype),
            decreases size_y - y,
        {
            let mut x: i32 = 0;
            while x < size_x
                invariant
                    0 <= y < size_y,
                    0 <= x <= size_x,
                    tiles@.len() == y * size_x + x,
                    forall|tx: int, ty: int|
                        0 <= tx < size_x && 0 <= ty < y ==> (#[trigger] tiles@[tx + ty
                            * size_x])@ == plain_tile(tx, ty, ttype),
                    forall|tx: int|
                        0 <= tx < x ==> (#[trigger] tiles@[tx + y * size_x])@ == plain_tile(
                            tx,
                            y as int,
                            ttype,
                        ),
                decreases size_x - x,
            {
                let tile = Tile {
                    position: Position::new(x, y),
                    ttype,
                    walls: Vec::new(),
                    start_position_id: None,
                };
                tiles.push(tile);
                proof {
                    assert forall|tx: int, ty: int| 0 <= tx < size_x && 0 <= ty < y implies (
                    #[trigger] tiles@[tx + ty * size_x])@ == plain_tile(tx, ty, ttype) by {
                        assert(tx + ty * size_x < y * size_x) by (nonlinear_arith)
                            requires
                                0 <= tx < size_x,
                                0 <= ty < y,
                        ;
                        assert(0 <= tx + ty * size_x) by (nonlinear_arith)
                            requires
                                0 <= tx,
                                0 <= ty,
                                0 <= size_x,
                        ;
                    }
                    assert(0 <= y * size_x) by (nonlinear_arith)
                        requires
                            0 <= y,
                            0 <= size_x,
                    ;
                }
                x += 1;
            }
            proof {
                assert((y + 1) * size_x == y * size_x + size_x) by (nonlinear_arith);
            }
            y += 1;
        }
        self.tiles = tiles;
        proof {
            assert(self@.tiles.len() == size_x * size_y) by (nonlinear_arith)
                requires
                    self@.tiles.len() == y * size_x,
                    y == size_y,
            ;
            assert forall|x: int, y: int| !self@.off_board(x, y) implies #[trigger] self@.tile(
                x,
                y,
            ) == plain_tile(x, y, ttype) by {
                lemma_index_in_range(self@, x, y);
            }
        }
    }

    /// The position of the first tile, in row order, that carries the start
    /// position id.
    pub fn get_start_position_or_fail(&self, start_position_id: StartPositionID) -> (r: Result<
        Position,
        StateError,
    >)
        ensures
            match r {
                Ok(position) => self@.start_tile(start_position_id) matches Some(i) && position
                    == self@.tiles[i].position,
                Err(e) => self@.start_tile(start_position_id) is None && e
                    == (StateError::StartPositionNotFoundID { start_position_id }),
            },
    {
        let ghost p = |t: TileView| t.start_position_id == Some(start_position_id);
        let mut i: usize = 0;
        while i < self.tiles.len()
            invariant
                i <= self.tiles@.len(),
                p == (|t: TileView| t.start_position_id == Some(start_position_id)),
                forall|k: int| 0 <= k < i ==> !p(#[trigger] self@.tiles[k]),
            decreases self.tiles@.len() - i,
        {
            match self.tiles[i].start_position_id {
                Some(id) => {
                    if id == start_position_id {
                        proof {
                            lemma_first_index_found(self@.tiles, p, i as int);
                        }
                        return Ok(self.tiles[i].position);
                    }
                },
                None => {},
            }
            i += 1;
        }
        proof {
            lemma_first_index_none(self@.tiles, p);
        }
        Err(StateError::StartPositionNotFoundID { start_position_id })
    }

    pub fn is_off_board(&self, position: &Position) -> (b: bool)
        ensures
            b == self@.is_off_board(*position),
    {
        position.x < 0 || position.x >= self.size_x || position.y < 0 || position.y
            >= self.size_y
    }

    /// Place of an on-board position in the tile array.
    pub fn tile_index(&self, pos: &Position) -> (i: usize)
        requires
            self.wf(),
            !self@.is_off_board(*pos),
        ensures
            i == self@.index(pos.x as int, pos.y as int),
            i < self.tiles@.len(),
    {
        let count: usize = self.tiles.len();
        let x: usize = pos.x as usize;
        let y: usize = pos.y as usize;
        let width: usize = self.size_x as usize;
        proof {
            lemma_index_in_range(self@, pos.x as int, pos.y as int);
            assert(0 <= y * width <= x + y * width < count) by (nonlinear_arith)
                requires
                    0 <= x,
                    0 <= y,
                    0 <= width,
                    x + y * width < count,
            ;
        }
        x + y * width
    }

    /// The connection between `pos` and the adjacent tile in `direction`.
    ///
    /// Fails where `pos` itself is off the board. Otherwise the way is walled
    /// where either side declares the wall, leads off the platform where the
    /// neighbour is outside the grid or no tile, and is free else.
    pub fn get_neighbor_in(&self, pos: &Position, direction: EDirection) -> (r: Result<
        EConnection,
        StateError,
    >)
        requires
            self.wf(),
        ensures
            self@.is_off_board(*pos) ==> r == Err::<EConnection, StateError>(
                StateError::PositionOffBoard { position: *pos },
            ),
            !self@.is_off_board(*pos) ==> r == Ok::<EConnection, StateError>(
                self@.neighbor(*pos, direction),
            ),
    {
        if self.is_off_board(pos) {
            return Err(StateError::PositionOffBoard { position: *pos });
        }
        let new_pos: Position = match direction {
            EDirection::NORTH => pos.set_y(pos.y - 1),
            EDirection::SOUTH => pos.set_y(pos.y + 1),
            EDirection::WEST => pos.set_x(pos.x - 1),
            EDirection::EAST => pos.set_x(pos.x + 1),
        };
        let old_index: usize = self.tile_index(pos);
        let old_tile: &Tile = &self.tiles[old_index];
        if old_tile.has_wall(direction) {
            return Ok(EConnection::Walled);
        }
        if self.is_off_board(&new_pos) {
            return Ok(EConnection::OffPlatform(new_pos));
        }
        let new_index: usize = self.tile_index(&new_pos);
        let new_tile: &Tile = &self.tiles[new_index];
        if new_tile.has_wall(direction.opposite()) {
            Ok(EConnection::Walled)
        } else {
            match new_tile.ttype {
                ETileType::NoTile => Ok(EConnection::OffPlatform(new_pos)),
                _ => Ok(EConnection::Free(new_pos)),
            }
        }
    }

/// The type of the tile at `pos`. Fails where `pos` is off the board.
    pub fn get_tile_type_at(&self, pos: &Position) -> (r: Result<ETileType, StateError>)
        requires
            self.wf(),
        ensures
            self@.is_off_board(*pos) ==> r == Err::<ETileType, StateError>(
                StateError::PositionOffBoard { position: *pos },
            ),
            !self@.is_off_board(*pos) ==> r == Ok::<ETileType, StateError>(
                self@.tile_at(*pos).ttype,
            ),
    {
        if self.is_off_board(pos) {
            return Err(StateError::PositionOffBoard { position: *pos });
        }
        let index: usize = self.tile_index(pos);
        Ok(self.tiles[index].ttype)
    }
}

} // verus!
