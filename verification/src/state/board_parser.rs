//! Reads a board from its text.
//!
//! The text is a grid of rows that alternate between rows of horizontal walls
//! and rows of tiles; empty rows are skipped. A wall row has two characters
//! for each tile, the second of which is `-` for a wall and a space for none.
//! A tile row has, for each tile, a `|` or a space for the wall to its west
//! and a character for its kind: `o` for a regular tile, a space for no tile
//! and a digit for a regular tile that is the start position of that number.
//! One more `|` or space closes the row and stands for the wall to the east of
//! its last tile. A wall row above a tile row sets the walls to the north of
//! its tiles; a wall row after the last tile row sets the walls to the south
//! of the last tiles.

use vstd::prelude::*;
use vstd::slice::slice_to_vec;

use crate::state::board::{Board, BoardView, EDirection, ETileType, Position, Tile, TileView};
use crate::state::StartPositionID;

verus! {

pub const NEWLINE: u8 = 10;

pub const SPACE: u8 = 32;

pub const DASH: u8 = 45;

pub const BAR: u8 = 124;

pub const LETTER_O: u8 = 111;

pub const DIGIT_ZERO: u8 = 48;

pub const DIGIT_NINE: u8 = 57;

/// Why a text is not a board.
#[derive(Debug, Copy, Clone, PartialEq, Eq, Structural)]
pub enum ParserError {
    /// A tile row has this character where a `|` or a space must stand.
    WallNotFound { found: u8 },
    /// A tile row has this character where the kind of a tile must stand.
    UnknownTileType { found: u8 },
    /// A wall row has something else than `-` or a space for the tile at this
    /// position, or a tile row has no tile at all.
    EndOfRow { position: Position },
    /// A tile row ends with a tile and lacks the closing wall character.
    TileEndOfRow,
    /// A row has `after` tiles where the rows before it have `before`.
    UnexpectedRowLength { before: usize, after: usize },
    /// A wall is given for this position, and no tile is there.
    MissingTileForHWall { position: Position },
    /// The tile at this position has a start position id that an earlier tile
    /// has too.
    DuplicateStartPositionId { id: u32, position: Position },
}

/// The rows that are complete, and the row that is still open, after the
/// bytes were read.
pub open spec fn split_rows(bytes: Seq<u8>) -> (Seq<Seq<u8>>, Seq<u8>)
    decreases bytes.len(),
{
    if bytes.len() == 0 {
        (Seq::empty(), Seq::empty())
    } else {
        let (rows, open) = split_rows(bytes.drop_last());
        if bytes.last() == NEWLINE {
            if open.len() > 0 {
                (rows.push(open), Seq::empty())
            } else {
                (rows, Seq::empty())
            }
        } else {
            (rows, open.push(bytes.last()))
        }
    }
}

/// The rows of the text that are not empty.
pub open spec fn rows_of(bytes: Seq<u8>) -> Seq<Seq<u8>> {
    let (rows, open) = split_rows(bytes);
    if open.len() > 0 {
        rows.push(open)
    } else {
        rows
    }
}

/// The walls that the first `n` cells of a wall row give, for the row `y`.
pub open spec fn hwalls_upto(row: Seq<u8>, y: int, n: int) -> Result<Seq<bool>, ParserError>
    decreases n,
{
    if n <= 0 {
        Ok(Seq::empty())
    } else {
        match hwalls_upto(row, y, n - 1) {
            Err(e) => Err(e),
            Ok(walls) => {
                let c = row[2 * (n - 1) + 1];
                if c == DASH {
                    Ok(walls.push(true))
                } else if c == SPACE {
                    Ok(walls.push(false))
                } else {
                    Err(
                        ParserError::EndOfRow {
                            position: Position { x: (n - 1) as i32, y: y as i32 },
                        },
                    )
                }
            },
        }
    }
}

/// The walls that a wall row gives: one for every two characters.
pub open spec fn hwall_row(row: Seq<u8>, y: int) -> Result<Seq<bool>, ParserError> {
    hwalls_upto(row, y, row.len() as int / 2)
}

/// Whether the character can stand where a vertical wall may be.
pub open spec fn is_wall_mark(c: u8) -> bool {
    c == BAR || c == SPACE
}

/// The tile that the cell `k` of a tile row gives.
pub open spec fn tile_cell(row: Seq<u8>, y: int, k: int) -> Result<TileView, ParserError> {
    let mark = row[2 * k];
    let kind = row[2 * k + 1];
    let walls = if mark == BAR {
        seq![EDirection::WEST]
    } else {
        Seq::empty()
    };
    let position = Position { x: k as i32, y: y as i32 };
    if !is_wall_mark(mark) {
        Err(ParserError::WallNotFound { found: mark })
    } else if kind == LETTER_O {
        Ok(TileView { position, ttype: ETileType::Regular, walls, start_position_id: None })
    } else if kind == SPACE {
        Ok(TileView { position, ttype: ETileType::NoTile, walls, start_position_id: None })
    } else if DIGIT_ZERO <= kind <= DIGIT_NINE {
        Ok(
            TileView {
                position,
                ttype: ETileType::Regular,
                walls,
                start_position_id: Some((kind - DIGIT_ZERO) as u32),
            },
        )
    } else {
        Err(ParserError::UnknownTileType { found: kind })
    }
}

/// The tiles that the first `n` cells of a tile row give.
pub open spec fn tiles_upto(row: Seq<u8>, y: int, n: int) -> Result<Seq<TileView>, ParserError>
    decreases n,
{
    if n <= 0 {
        Ok(Seq::empty())
    } else {
        match tiles_upto(row, y, n - 1) {
            Err(e) => Err(e),
            Ok(tiles) => match tile_cell(row, y, n - 1) {
                Err(e) => Err(e),
                Ok(tile) => Ok(tiles.push(tile)),
            },
        }
    }
}

/// The tile with one more wall.
pub open spec fn with_wall(tile: TileView, direction: EDirection) -> TileView {
    TileView { walls: tile.walls.push(direction), ..tile }
}

/// The tiles that a tile row gives.
pub open spec fn tile_row(row: Seq<u8>, y: int) -> Result<Seq<TileView>, ParserError> {
    match tiles_upto(row, y, row.len() as int / 2) {
        Err(e) => Err(e),
        Ok(tiles) => if row.len() % 2 == 0 {
            Err(ParserError::TileEndOfRow)
        } else if !is_wall_mark(row.last()) {
            Err(ParserError::WallNotFound { found: row.last() })
        } else if tiles.len() == 0 {
            Err(ParserError::EndOfRow { position: Position { x: 0, y: y as i32 } })
        } else if row.last() == BAR {
            Ok(tiles.drop_last().push(with_wall(tiles.last(), EDirection::EAST)))
        } else {
            Ok(tiles)
        },
    }
}

/// What the rows read so far amount to: the tiles, row by row, the wall rows,
/// and the number of tiles in a row, which is zero until a row has set it.
pub ghost struct Grid {
    pub tiles: Seq<TileView>,
    pub hwalls: Seq<Seq<bool>>,
    pub width: nat,
}

/// What the first `n` rows amount to. Rows at even places are wall rows, rows
/// at odd places are tile rows, and all rows have the same number of tiles.
pub open spec fn scan_rows(rows: Seq<Seq<u8>>, n: int) -> Result<Grid, ParserError>
    decreases n,
{
    if n <= 0 {
        Ok(Grid { tiles: Seq::empty(), hwalls: Seq::empty(), width: 0 })
    } else {
        match scan_rows(rows, n - 1) {
            Err(e) => Err(e),
            Ok(g) => {
                let y = (n - 1) / 2;
                if (n - 1) % 2 == 0 {
                    match hwall_row(rows[n - 1], y) {
                        Err(e) => Err(e),
                        Ok(walls) => if g.width == 0 {
                            Ok(Grid { hwalls: g.hwalls.push(walls), width: walls.len(), ..g })
                        } else if g.width != walls.len() {
                            Err(
                                ParserError::UnexpectedRowLength {
                                    before: g.width as usize,
                                    after: walls.len() as usize,
                                },
                            )
                        } else {
                            Ok(Grid { hwalls: g.hwalls.push(walls), ..g })
                        },
                    }
                } else {
                    match tile_row(rows[n - 1], y) {
                        Err(e) => Err(e),
                        Ok(tiles) => if g.width != tiles.len() {
                            Err(
                                ParserError::UnexpectedRowLength {
                                    before: g.width as usize,
                                    after: tiles.len() as usize,
                                },
                            )
                        } else {
                            Ok(Grid { tiles: g.tiles + tiles, ..g })
                        },
                    }
                }
            },
        }
    }
}

/// Whether the wall row `j` has a wall for the column `x`.
pub open spec fn hwall_at(hwalls: Seq<Seq<bool>>, j: int, x: int) -> bool {
    0 <= j < hwalls.len() && 0 <= x < hwalls[j].len() && hwalls[j][x]
}

/// A tile of a grid with `height` tile rows, with the walls to its north and
/// to its south.
pub open spec fn walled_tile(g: Grid, height: int, tile: TileView) -> TileView {
    let x = tile.position.x as int;
    let y = tile.position.y as int;
    let north = if hwall_at(g.hwalls, y, x) {
        tile.walls.push(EDirection::NORTH)
    } else {
        tile.walls
    };
    let south = if y == height - 1 && hwall_at(g.hwalls, height, x) {
        north.push(EDirection::SOUTH)
    } else {
        north
    };
    TileView { walls: south, ..tile }
}

/// Whether the tile at place `i` has a start position id that an earlier tile
/// has too.
pub open spec fn repeats_start(tiles: Seq<TileView>, i: int) -> bool {
    tiles[i].start_position_id is Some && exists|j: int|
        0 <= j < i && (#[trigger] tiles[j]).start_position_id == tiles[i].start_position_id
}

/// The least place of a tile that repeats a start position id.
pub open spec fn first_repeat(tiles: Seq<TileView>, n: int) -> Option<int>
    decreases n,
{
    if n <= 0 {
        None
    } else {
        match first_repeat(tiles, n - 1) {
            Some(i) => Some(i),
            None => if repeats_start(tiles, n - 1) {
                Some(n - 1)
            } else {
                None
            },
        }
    }
}

/// The board that a grid of `rows` rows makes.
///
/// Fails where a wall is given and the grid has no tile row, and where two
/// tiles have the same start position id.
pub open spec fn assemble(g: Grid, rows: int) -> Result<BoardView, ParserError> {
    let height = rows / 2;
    if height == 0 && g.hwalls.len() > 0 && first_wall_in(g.hwalls[0], g.hwalls[0].len() as int)
        is Some {
        Err(
            ParserError::MissingTileForHWall {
                position: Position {
                    x: first_wall_in(g.hwalls[0], g.hwalls[0].len() as int)->Some_0 as i32,
                    y: -1i32,
                },
            },
        )
    } else {
        match first_repeat(g.tiles, g.tiles.len() as int) {
            Some(i) => Err(
                ParserError::DuplicateStartPositionId {
                    id: g.tiles[i].start_position_id->Some_0,
                    position: g.tiles[i].position,
                },
            ),
            None => Ok(
                BoardView {
                    tiles: Seq::new(g.tiles.len(), |i: int| walled_tile(g, height, g.tiles[i])),
                    size_x: g.width as int,
                    size_y: height,
                },
            ),
        }
    }
}

/// The least `x` below `n` for which the wall row has a wall.
pub open spec fn first_wall_in(walls: Seq<bool>, n: int) -> Option<int>
    decreases n,
{
    if n <= 0 {
        None
    } else {
        match first_wall_in(walls, n - 1) {
            Some(x) => Some(x),
            None => if walls[n - 1] {
                Some(n - 1)
            } else {
                None
            },
        }
    }
}

/// The board that a text stands for.
pub open spec fn board_of(bytes: Seq<u8>) -> Result<BoardView, ParserError> {
    let rows = rows_of(bytes);
    match scan_rows(rows, rows.len() as int) {
        Err(e) => Err(e),
        Ok(g) => assemble(g, rows.len() as int),
    }
}

/// Splits a text into its rows and drops the empty ones.
pub fn split_into_rows(bytes: &[u8]) -> (rows: Vec<Vec<u8>>)
    ensures
        rows.deep_view() == rows_of(bytes@),
        rows@.len() <= bytes@.len(),
        forall|r: int| 0 <= r < rows@.len() ==> (#[trigger] rows@[r])@.len() <= bytes@.len(),
{
    let mut rows: Vec<Vec<u8>> = Vec::new();
    let mut open: Vec<u8> = Vec::new();
    let mut i: usize = 0;
    while i < bytes.len()
        invariant
            i <= bytes@.len(),
            (rows.deep_view(), open@) == split_rows(bytes@.take(i as int)),
            rows@.len() + open@.len() <= i,
            forall|r: int| 0 <= r < rows@.len() ==> (#[trigger] rows@[r])@.len() <= i,
        decreases bytes@.len() - i,
    {
        proof {
            assert(bytes@.take(i + 1).drop_last() =~= bytes@.take(i as int));
        }
        if bytes[i] == NEWLINE {
            if open.len() > 0 {
                assert(open.deep_view() =~= open@);
                rows.push(open);
                open = Vec::new();
            }
        } else {
            open.push(bytes[i]);
        }
        i += 1;
    }
    assert(bytes@.take(i as int) =~= bytes@);
    if open.len() > 0 {
        let ghost closed = open@;
        assert(open.deep_view() =~= closed);
        rows.push(open);
    }
    rows
}

/// Reads a row of horizontal walls.
pub fn parse_horizontal_wall_row(row: &Vec<u8>, y: i32) -> (r: Result<Vec<bool>, ParserError>)
    requires
        row@.len() <= i32::MAX,
    ensures
        match r {
            Ok(walls) => hwall_row(row@, y as int) == Ok::<Seq<bool>, ParserError>(walls@)
                && walls@.len() == row@.len() as int / 2,
            Err(e) => hwall_row(row@, y as int) == Err::<Seq<bool>, ParserError>(e),
        },
{
    let cells: usize = row.len() / 2;
    let mut walls: Vec<bool> = Vec::new();
    let mut x: usize = 0;
    while x < cells
        invariant
            x <= cells,
            walls@.len() == x,
            cells == row@.len() as int / 2,
            row@.len() <= i32::MAX,
            hwalls_upto(row@, y as int, x as int) == Ok::<Seq<bool>, ParserError>(walls@),
        decreases cells - x,
    {
        let c: u8 = row[2 * x + 1];
        if c == DASH {
            walls.push(true);
        } else if c == SPACE {
            walls.push(false);
        } else {
            proof {
                lemma_hwalls_fail(row@, y as int, x + 1, cells as int);
            }
            return Err(ParserError::EndOfRow { position: Position { x: x as i32, y } });
        }
        x += 1;
    }
    Ok(walls)
}

/// Once a cell of a wall row fails, the row fails the same way.
proof fn lemma_hwalls_fail(row: Seq<u8>, y: int, k: int, n: int)
    requires
        0 < k <= n,
        hwalls_upto(row, y, k) is Err,
    ensures
        hwalls_upto(row, y, n) == hwalls_upto(row, y, k),
    decreases n - k,
{
    if k < n {
        lemma_hwalls_fail(row, y, k, n - 1);
    }
}

/// Once a cell of a tile row fails, the cells read after it fail the same
/// way.
proof fn lemma_tiles_fail(row: Seq<u8>, y: int, k: int, n: int)
    requires
        0 < k <= n,
        tiles_upto(row, y, k) is Err,
    ensures
        tiles_upto(row, y, n) == tiles_upto(row, y, k),
    decreases n - k,
{
    if k < n {
        lemma_tiles_fail(row, y, k, n - 1);
    }
}

/// Whether the character, where one is left, stands for a wall to the west.
pub fn match_vertical_wall(c: Option<u8>) -> (r: Result<bool, ParserError>)
    ensures
        r == match c {
            Some(mark) => if mark == BAR {
                Ok::<bool, ParserError>(true)
            } else if mark == SPACE {
                Ok::<bool, ParserError>(false)
            } else {
                Err::<bool, ParserError>(ParserError::WallNotFound { found: mark })
            },
            None => Err::<bool, ParserError>(ParserError::TileEndOfRow),
        },
{
    match c {
        Some(mark) => {
            if mark == BAR {
                Ok(true)
            } else if mark == SPACE {
                Ok(false)
            } else {
                Err(ParserError::WallNotFound { found: mark })
            }
        },
        None => Err(ParserError::TileEndOfRow),
    }
}

/// The kind of tile that the character, where one is left, stands for, and
/// its start position id.
pub fn match_tile_type(c: Option<u8>) -> (r: Result<(ETileType, Option<u32>), ParserError>)
    ensures
        match c {
            Some(kind) => if kind == LETTER_O {
                r == Ok::<(ETileType, Option<u32>), ParserError>((ETileType::Regular, None))
            } else if kind == SPACE {
                r == Ok::<(ETileType, Option<u32>), ParserError>((ETileType::NoTile, None))
            } else if DIGIT_ZERO <= kind <= DIGIT_NINE {
                r == Ok::<(ETileType, Option<u32>), ParserError>(
                    (ETileType::Regular, Some((kind - DIGIT_ZERO) as u32)),
                )
            } else {
                r == Err::<(ETileType, Option<u32>), ParserError>(
                    ParserError::UnknownTileType { found: kind },
                )
            },
            None => r == Err::<(ETileType, Option<u32>), ParserError>(ParserError::TileEndOfRow),
        },
{
    match c {
        Some(kind) => {
            if kind == LETTER_O {
                Ok((ETileType::Regular, None))
            } else if kind == SPACE {
                Ok((ETileType::NoTile, None))
            } else if DIGIT_ZERO <= kind && kind <= DIGIT_NINE {
                Ok((ETileType::Regular, Some((kind - DIGIT_ZERO) as u32)))
            } else {
                Err(ParserError::UnknownTileType { found: kind })
            }
        },
        None => Err(ParserError::TileEndOfRow),
    }
}

/// Reads a row of tiles.
pub fn parse_tile_row(row: &Vec<u8>, y: i32) -> (r: Result<Vec<Tile>, ParserError>)
    requires
        row@.len() <= i32::MAX,
    ensures
        match r {
            Ok(tiles) => tile_row(row@, y as int) == Ok::<Seq<TileView>, ParserError>(
                tiles.deep_view(),
            ) && tiles@.len() == row@.len() as int / 2 && tiles@.len() >= 1,
            Err(e) => tile_row(row@, y as int) == Err::<Seq<TileView>, ParserError>(e),
        },
{
    let cells: usize = row.len() / 2;
    let mut tiles: Vec<Tile> = Vec::new();
    let mut x: usize = 0;
    assert(tiles.deep_view() =~= Seq::empty());
    while x < cells
        invariant
            x <= cells,
            cells == row@.len() as int / 2,
            row@.len() <= i32::MAX,
            tiles@.len() == x,
            tiles_upto(row@, y as int, x as int) == Ok::<Seq<TileView>, ParserError>(
                tiles.deep_view(),
            ),
        decreases cells - x,
    {
        let wall: bool = match match_vertical_wall(Some(row[2 * x])) {
            Ok(wall) => wall,
            Err(e) => {
                proof {
                    lemma_tiles_fail(row@, y as int, x + 1, cells as int);
                }
                return Err(e);
            },
        };
        let (tile_type, start_position_id) = match match_tile_type(Some(row[2 * x + 1])) {
            Ok(t) => t,
            Err(e) => {
                proof {
                    lemma_tiles_fail(row@, y as int, x + 1, cells as int);
                }
                return Err(e);
            },
        };
        let mut walls: Vec<EDirection> = Vec::new();
        if wall {
            walls.push(EDirection::WEST);
        }
        let tile = Tile {
            position: Position { x: x as i32, y },
            ttype: tile_type,
            walls,
            start_position_id,
        };
        let ghost before = tiles.deep_view();
        let ghost added = tile@;
        tiles.push(tile);
        assert(tiles.deep_view() =~= before.push(added));
        x += 1;
    }
    if row.len() % 2 == 0 {
        return Err(ParserError::TileEndOfRow);
    }
    let closing: u8 = row[row.len() - 1];
    let wall: bool = match match_vertical_wall(Some(closing)) {
        Ok(wall) => wall,
        Err(e) => {
            return Err(e);
        },
    };
    if tiles.len() == 0 {
        return Err(ParserError::EndOfRow { position: Position { x: 0, y } });
    }
    if wall {
        let ghost before = tiles.deep_view();
        let mut last: Tile = tiles.pop().unwrap();
        last.walls.push(EDirection::EAST);
        let ghost replaced = last@;
        tiles.push(last);
        proof {
            assert(tiles.deep_view() =~= before.drop_last().push(replaced));
        }
    }
    Ok(tiles)
}

fn has_hwall(hwalls: &Vec<Vec<bool>>, j: i32, x: i32) -> (b: bool)
    ensures
        b == hwall_at(hwalls.deep_view(), j as int, x as int),
{
    if j < 0 || x < 0 {
        return false;
    }
    let j: usize = j as usize;
    let x: usize = x as usize;
    if j >= hwalls.len() {
        return false;
    }
    if x >= hwalls[j].len() {
        return false;
    }
    hwalls[j][x]
}

fn find_first_wall(walls: &Vec<bool>) -> (r: Option<usize>)
    ensures
        match r {
            Some(x) => first_wall_in(walls@, walls@.len() as int) == Some(x as int) && x
                < walls@.len(),
            None => first_wall_in(walls@, walls@.len() as int) is None,
        },
{
    let mut x: usize = 0;
    while x < walls.len()
        invariant
            x <= walls@.len(),
            first_wall_in(walls@, x as int) is None,
        decreases walls@.len() - x,
    {
        if walls[x] {
            proof {
                lemma_first_wall_stays(walls@, x + 1, walls@.len() as int);
            }
            return Some(x);
        }
        x += 1;
    }
    None
}

proof fn lemma_first_wall_stays(walls: Seq<bool>, k: int, n: int)
    requires
        0 < k <= n,
        first_wall_in(walls, k) is Some,
    ensures
        first_wall_in(walls, n) == first_wall_in(walls, k),
    decreases n - k,
{
    if k < n {
        lemma_first_wall_stays(walls, k, n - 1);
    }
}

proof fn lemma_first_repeat_stays(tiles: Seq<TileView>, k: int, n: int)
    requires
        0 < k <= n,
        first_repeat(tiles, k) is Some,
    ensures
        first_repeat(tiles, n) == first_repeat(tiles, k),
    decreases n - k,
{
    if k < n {
        lemma_first_repeat_stays(tiles, k, n - 1);
    }
}

fn repeats_start_id(tiles: &Vec<Tile>, i: usize) -> (b: bool)
    requires
        i < tiles@.len(),
    ensures
        b == repeats_start(tiles.deep_view(), i as int),
{
    let id: StartPositionID = match tiles[i].start_position_id {
        Some(id) => id,
        None => {
            return false;
        },
    };
    let mut j: usize = 0;
    while j < i
        invariant
            j <= i < tiles@.len(),
            tiles@[i as int].start_position_id == Some(id),
            forall|k: int|
                0 <= k < j ==> (#[trigger] tiles.deep_view()[k]).start_position_id != Some(id),
        decreases i - j,
    {
        match tiles[j].start_position_id {
            Some(other) => {
                if other == id {
                    assert(tiles.deep_view()[j as int].start_position_id == Some(id));
                    return true;
                }
            },
            None => {},
        }
        j += 1;
    }
    false
}

/// Reads a board from the bytes of its text.
#[verifier::loop_isolation(false)]
pub fn parse_board_bytes(bytes: &[u8]) -> (r: Result<Board, ParserError>)
    requires
        bytes@.len() < i32::MAX,
    ensures
        match r {
            Ok(board) => board_of(bytes@) == Ok::<BoardView, ParserError>(board@) && board.wf(),
            Err(e) => board_of(bytes@) == Err::<BoardView, ParserError>(e),
        },
{
    let rows: Vec<Vec<u8>> = split_into_rows(bytes);
    let ghost texts = rows.deep_view();
    let mut tiles: Vec<Tile> = Vec::new();
    let mut hwalls: Vec<Vec<bool>> = Vec::new();
    let mut y: i32 = 0;
    let mut x: usize = 0;
    let mut y_raw: usize = 0;
    assert(tiles.deep_view() =~= Seq::empty());
    assert(hwalls.deep_view() =~= Seq::empty());
    while y_raw < rows.len()
        invariant
            y_raw <= rows@.len(),
            rows@.len() < i32::MAX,
            texts == rows.deep_view(),
            forall|r: int| 0 <= r < rows@.len() ==> (#[trigger] rows@[r])@.len() < i32::MAX,
            y == y_raw as int / 2,
            x < i32::MAX,
            y_raw >= 2 ==> x >= 1,
            tiles@.len() == y * x,
            forall|j: int| 0 <= j < hwalls@.len() ==> (#[trigger] hwalls@[j])@.len() < i32::MAX,
            scan_rows(texts, y_raw as int) == Ok::<Grid, ParserError>(
                Grid { tiles: tiles.deep_view(), hwalls: hwalls.deep_view(), width: x as nat },
            ),
        decreases rows@.len() - y_raw,
    {
        let row: &Vec<u8> = &rows[y_raw];
        assert(row.deep_view() =~= row@);
        if y_raw % 2 == 0 {
            let row_walls: Vec<bool> = match parse_horizontal_wall_row(row, y) {
                Ok(walls) => walls,
                Err(e) => {
                    proof {
                        lemma_scan_fails(texts, y_raw + 1, rows@.len() as int);
                    }
                    return Err(e);
                },
            };
            let row_length: usize = row_walls.len();
            if x == 0 {
                x = row_length;
            } else if x != row_length {
                proof {
                    lemma_scan_fails(texts, y_raw + 1, rows@.len() as int);
                }
                return Err(ParserError::UnexpectedRowLength { before: x, after: row_length });
            }
            let ghost before = hwalls.deep_view();
            let ghost added = row_walls@;
            assert(row_walls.deep_view() =~= row_walls@);
            hwalls.push(row_walls);
            assert(hwalls.deep_view() =~= before.push(added));
        } else {
            let mut row_tiles: Vec<Tile> = match parse_tile_row(row, y) {
                Ok(tiles) => tiles,
                Err(e) => {
                    proof {
                        lemma_scan_fails(texts, y_raw + 1, rows@.len() as int);
                    }
                    return Err(e);
                },
            };
            if x != row_tiles.len() {
                proof {
                    lemma_scan_fails(texts, y_raw + 1, rows@.len() as int);
                }
                return Err(
                    ParserError::UnexpectedRowLength { before: x, after: row_tiles.len() },
                );
            }
            let ghost before = tiles.deep_view();
            let ghost added = row_tiles.deep_view();
            tiles.append(&mut row_tiles);
            proof {
                assert(tiles.deep_view() =~= before + added);
                assert((y + 1) * x == y * x + x) by (nonlinear_arith);
            }
            y += 1;
        }
        y_raw += 1;
    }
    let ghost g = Grid { tiles: tiles.deep_view(), hwalls: hwalls.deep_view(), width: x as nat };

    // A wall needs a tile to stand on.
    if y == 0 && hwalls.len() > 0 {
        assert(hwalls@[0].deep_view() =~= hwalls@[0]@);
        match find_first_wall(&hwalls[0]) {
            Some(wall_x) => {
                return Err(
                    ParserError::MissingTileForHWall {
                        position: Position { x: wall_x as i32, y: -1 },
                    },
                );
            },
            None => {},
        }
    }

    // Each start position is given once.
    let mut i: usize = 0;
    while i < tiles.len()
        invariant
            i <= tiles@.len(),
            first_repeat(tiles.deep_view(), i as int) is None,
        decreases tiles@.len() - i,
    {
        if repeats_start_id(&tiles, i) {
            proof {
                lemma_first_repeat_stays(tiles.deep_view(), i + 1, tiles@.len() as int);
            }
            match tiles[i].start_position_id {
                Some(id) => {
                    return Err(
                        ParserError::DuplicateStartPositionId { id, position: tiles[i].position },
                    );
                },
                None => {},
            }
        }
        i += 1;
    }

    // Put the horizontal walls onto the tiles.
    let mut walled: Vec<Tile> = Vec::new();
    let mut i: usize = 0;
    while i < tiles.len()
        invariant
            i <= tiles@.len(),
            walled@.len() == i,
            g == (Grid { tiles: tiles.deep_view(), hwalls: hwalls.deep_view(), width: x as nat }),
            forall|k: int|
                0 <= k < i ==> (#[trigger] walled@[k])@ == walled_tile(g, y as int, g.tiles[k]),
        decreases tiles@.len() - i,
    {
        let tile: &Tile = &tiles[i];
        let mut walls: Vec<EDirection> = slice_to_vec(tile.walls.as_slice());
        if has_hwall(&hwalls, tile.position.y, tile.position.x) {
            walls.push(EDirection::NORTH);
        }
        if tile.position.y == y - 1 && has_hwall(&hwalls, y, tile.position.x) {
            walls.push(EDirection::SOUTH);
        }
        walled.push(
            Tile {
                position: tile.position,
                ttype: tile.ttype,
                walls,
                start_position_id: tile.start_position_id,
            },
        );
        i += 1;
    }
    let board = Board { tiles: walled, size_x: x as i32, size_y: y };
    proof {
        assert(board@.tiles =~= assemble(g, rows@.len() as int)->Ok_0.tiles);
        assert(board@.tiles.len() == board@.size_x * board@.size_y) by (nonlinear_arith)
            requires
                board@.tiles.len() == y * x,
                board@.size_x == x,
                board@.size_y == y,
        ;
    }
    Ok(board)
}

/// Once a row fails, the text fails the same way.
proof fn lemma_scan_fails(rows: Seq<Seq<u8>>, k: int, n: int)
    requires
        0 < k <= n,
        scan_rows(rows, k) is Err,
    ensures
        scan_rows(rows, n) == scan_rows(rows, k),
    decreases n - k,
{
    if k < n {
        lemma_scan_fails(rows, k, n - 1);
    }
}

/// Reads a board from its text.
pub fn parse_board(content: String) -> (r: Result<Board, ParserError>)
    requires
        vstd::utf8::encode_utf8(content@).len() < i32::MAX,
    ensures
        match r {
            Ok(board) => board_of(vstd::utf8::encode_utf8(content@)) == Ok::<
                BoardView,
                ParserError,
            >(board@) && board.wf(),
            Err(e) => board_of(vstd::utf8::encode_utf8(content@)) == Err::<BoardView, ParserError>(
                e,
            ),
        },
{
    parse_board_bytes(content.as_str().as_bytes())
}

} // verus!
