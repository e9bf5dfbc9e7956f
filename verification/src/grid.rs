//! The board as a mathematical object: a sequence of rows of tiles, with
//! the notions the rules are stated in: the cells that touch a cell, the
//! mines around it, and the region that a dig uncovers.

use vstd::prelude::*;
use crate::counting::unit;
use crate::tile::Tile;

verus! {

/// Rows of tiles; the tile of column `x` and row `y` is `grid[y][x]`.
pub type Grid = Seq<Seq<Tile>>;

/// The grid has `height` rows of `width` tiles each.
pub open spec fn rectangular(grid: Grid, width: int, height: int) -> bool {
    &&& grid.len() == height
    &&& forall|y: int| 0 <= y < height ==> (#[trigger] grid[y]).len() == width
}

/// `(x, y)` names a cell of the grid.
pub open spec fn inside(grid: Grid, x: int, y: int) -> bool {
    0 <= y < grid.len() && 0 <= x < grid[y].len()
}

/// The grid with the tile at `(x, y)` replaced.
pub open spec fn with_tile(grid: Grid, x: int, y: int, tile: Tile) -> Grid {
    grid.update(y, grid[y].update(x, tile))
}

/// Two different cells that share an edge or a corner.
pub open spec fn touching(x: int, y: int, other_x: int, other_y: int) -> bool {
    &&& -1 <= other_x - x <= 1
    &&& -1 <= other_y - y <= 1
    &&& !(other_x == x && other_y == y)
}

/// The step from a cell to the `k`-th of the eight cells around it, in
/// the order in which a cascade visits them.
pub open spec fn neighbour_offset(k: int) -> (int, int) {
    if k == 0 {
        (-1, 0)
    } else if k == 1 {
        (1, 0)
    } else if k == 2 {
        (-1, -1)
    } else if k == 3 {
        (-1, 1)
    } else if k == 4 {
        (1, -1)
    } else if k == 5 {
        (1, 1)
    } else if k == 6 {
        (0, -1)
    } else {
        (0, 1)
    }
}

/// The `k`-th cell around `(x, y)` is revealed, or lies beyond the edge.
pub open spec fn revealed_around(grid: Grid, x: int, y: int, k: int) -> bool {
    inside(grid, x + neighbour_offset(k).0, y + neighbour_offset(k).1) ==> grid[y
        + neighbour_offset(k).1][x + neighbour_offset(k).0].is_revealed
}

/// The eight steps lead to exactly the cells that touch a cell.
pub proof fn lemma_offsets_touch(x: int, y: int, other_x: int, other_y: int)
    requires
        touching(x, y, other_x, other_y),
    ensures
        exists|k: int|
            0 <= k < 8 && (#[trigger] neighbour_offset(k)) == (other_x - x, other_y - y),
{
    let step = (other_x - x, other_y - y);
    if step == (-1int, 0int) {
        assert(neighbour_offset(0) == step);
    } else if step == (1int, 0int) {
        assert(neighbour_offset(1) == step);
    } else if step == (-1int, -1int) {
        assert(neighbour_offset(2) == step);
    } else if step == (-1int, 1int) {
        assert(neighbour_offset(3) == step);
    } else if step == (1int, -1int) {
        assert(neighbour_offset(4) == step);
    } else if step == (1int, 1int) {
        assert(neighbour_offset(5) == step);
    } else if step == (0int, -1int) {
        assert(neighbour_offset(6) == step);
    } else {
        assert(neighbour_offset(7) == step);
    }
}

/// The cell `(x, y)` comes before the cell `(next_x, next_y)` when the
/// board is walked row by row.
pub open spec fn walked(x: int, y: int, next_x: int, next_y: int) -> bool {
    y < next_y || (y == next_y && x < next_x)
}

/// `(x, y)` is a cell of the grid and holds a mine.
pub open spec fn mine_at(grid: Grid, x: int, y: int) -> bool {
    inside(grid, x, y) && grid[y][x].is_mine
}

/// The number of mines among the up to eight cells that touch `(x, y)`;
/// cells beyond the edge count as empty.
pub open spec fn neighbouring_mines(grid: Grid, x: int, y: int) -> nat {
    unit(mine_at(grid, x - 1, y - 1)) + unit(mine_at(grid, x, y - 1)) + unit(
        mine_at(grid, x + 1, y - 1),
    ) + unit(mine_at(grid, x - 1, y)) + unit(mine_at(grid, x + 1, y)) + unit(
        mine_at(grid, x - 1, y + 1),
    ) + unit(mine_at(grid, x, y + 1)) + unit(mine_at(grid, x + 1, y + 1))
}

/// Every tile records the number of mines around it.
pub open spec fn numbered(grid: Grid) -> bool {
    forall|x: int, y: int|
        inside(grid, x, y) ==> (#[trigger] grid[y][x]).adjacent_mines == neighbouring_mines(
            grid,
            x,
            y,
        )
}

/// The cells that hold a mine.
pub open spec fn mines_of(grid: Grid) -> spec_fn(int, int) -> bool {
    |x: int, y: int| grid[y][x].is_mine
}

/// The cells that carry a flag.
pub open spec fn flags_of(grid: Grid) -> spec_fn(int, int) -> bool {
    |x: int, y: int| grid[y][x].is_flagged
}

/// The cells that are revealed and hold no mine.
pub open spec fn revealed_safe_of(grid: Grid) -> spec_fn(int, int) -> bool {
    |x: int, y: int| grid[y][x].is_revealed && !grid[y][x].is_mine
}

/// The cells that are revealed and hold a mine.
pub open spec fn revealed_mines_of(grid: Grid) -> spec_fn(int, int) -> bool {
    |x: int, y: int| grid[y][x].is_revealed && grid[y][x].is_mine
}

/// `(x, y)` is a cell of the grid without a mine.
pub open spec fn safe_at(grid: Grid, x: int, y: int) -> bool {
    inside(grid, x, y) && !grid[y][x].is_mine
}

/// A dig at the first cell of `path` uncovers every cell of it: the cells
/// are safe, each touches the next, and each but the last has no mine
/// around it.
pub open spec fn cascade_path(grid: Grid, path: Seq<(int, int)>) -> bool {
    &&& path.len() > 0
    &&& forall|i: int| 0 <= i < path.len() ==> safe_at(grid, (#[trigger] path[i]).0, path[i].1)
    &&& forall|i: int|
        0 <= i < path.len() - 1 ==> {
            &&& touching((#[trigger] path[i]).0, path[i].1, path[i + 1].0, path[i + 1].1)
            &&& grid[path[i].1][path[i].0].adjacent_mines == 0
        }
}

/// The cell `(x, y)` belongs to the region that a dig at `(from_x, from_y)`
/// uncovers: the connected cells without a mine around them, and the cells
/// that border on them.
pub open spec fn cascade_reaches(grid: Grid, from_x: int, from_y: int, x: int, y: int) -> bool {
    exists|path: Seq<(int, int)>|
        #[trigger] cascade_path(grid, path) && path[0] == (from_x, from_y) && path.last() == (
            x,
            y,
        )
}

/// All cells that touch `(x, y)` are revealed.
pub open spec fn surrounded_by_revealed(grid: Grid, x: int, y: int) -> bool {
    forall|other_x: int, other_y: int|
        touching(x, y, other_x, other_y) && inside(grid, other_x, other_y) ==> (
        #[trigger] grid[other_y][other_x]).is_revealed
}

/// `(x, y)` is revealed, safe and has no mine around it: a dig there
/// carries on to its neighbours.
pub open spec fn opens_onward(grid: Grid, x: int, y: int) -> bool {
    &&& safe_at(grid, x, y)
    &&& grid[y][x].is_revealed
    &&& grid[y][x].adjacent_mines == 0
}

/// The revealed part of the grid is closed under the cascade: around a
/// revealed safe cell with no mine around it, everything is revealed.
pub open spec fn cascade_closed(grid: Grid) -> bool {
    forall|x: int, y: int| #[trigger]
        opens_onward(grid, x, y) ==> surrounded_by_revealed(grid, x, y)
}

/// A safe cell is in the region of a dig at itself.
pub proof fn lemma_cascade_start(grid: Grid, x: int, y: int)
    requires
        safe_at(grid, x, y),
    ensures
        cascade_reaches(grid, x, y, x, y),
{
    let path = seq![(x, y)];
    assert(cascade_path(grid, path));
}

/// The region grows from a cell with no mine around it to each safe cell
/// that touches it.
pub proof fn lemma_cascade_extend(
    grid: Grid,
    from_x: int,
    from_y: int,
    via_x: int,
    via_y: int,
    x: int,
    y: int,
)
    requires
        cascade_reaches(grid, from_x, from_y, via_x, via_y),
        grid[via_y][via_x].adjacent_mines == 0,
        touching(via_x, via_y, x, y),
        safe_at(grid, x, y),
    ensures
        cascade_reaches(grid, from_x, from_y, x, y),
{
    let path = choose|path: Seq<(int, int)>|
        #[trigger] cascade_path(grid, path) && path[0] == (from_x, from_y) && path.last() == (
            via_x,
            via_y,
        );
    let longer = path.push((x, y));
    assert(cascade_path(grid, longer));
}

/// Whether a cell is in the region of a dig depends on the mines and the
/// numbers only, not on what is revealed or flagged.
pub proof fn lemma_cascade_same_layout(
    first: Grid,
    second: Grid,
    from_x: int,
    from_y: int,
    x: int,
    y: int,
)
    requires
        same_layout(first, second),
        cascade_reaches(first, from_x, from_y, x, y),
    ensures
        cascade_reaches(second, from_x, from_y, x, y),
{
    let path = choose|path: Seq<(int, int)>|
        #[trigger] cascade_path(first, path) && path[0] == (from_x, from_y) && path.last() == (
            x,
            y,
        );
    assert(cascade_path(second, path));
}

/// Two grids of one shape with the same mines.
pub open spec fn same_mines(first: Grid, second: Grid) -> bool {
    &&& first.len() == second.len()
    &&& forall|y: int| 0 <= y < first.len() ==> (#[trigger] first[y]).len() == second[y].len()
    &&& forall|x: int, y: int|
        inside(first, x, y) ==> (#[trigger] first[y][x]).is_mine == second[y][x].is_mine
}

/// Grids with the same mines have a mine at the same cells.
pub proof fn lemma_mine_at_same_mines(first: Grid, second: Grid, x: int, y: int)
    requires
        same_mines(first, second),
    ensures
        mine_at(first, x, y) == mine_at(second, x, y),
{
}

/// Grids with the same mines have the same number of mines around a cell.
pub proof fn lemma_neighbouring_same_mines(first: Grid, second: Grid, x: int, y: int)
    requires
        same_mines(first, second),
    ensures
        neighbouring_mines(first, x, y) == neighbouring_mines(second, x, y),
{
    lemma_mine_at_same_mines(first, second, x - 1, y - 1);
    lemma_mine_at_same_mines(first, second, x, y - 1);
    lemma_mine_at_same_mines(first, second, x + 1, y - 1);
    lemma_mine_at_same_mines(first, second, x - 1, y);
    lemma_mine_at_same_mines(first, second, x + 1, y);
    lemma_mine_at_same_mines(first, second, x - 1, y + 1);
    lemma_mine_at_same_mines(first, second, x, y + 1);
    lemma_mine_at_same_mines(first, second, x + 1, y + 1);
}

/// Two grids of one shape with the same mines and the same numbers.
pub open spec fn same_layout(first: Grid, second: Grid) -> bool {
    &&& first.len() == second.len()
    &&& forall|y: int| 0 <= y < first.len() ==> (#[trigger] first[y]).len() == second[y].len()
    &&& forall|x: int, y: int|
        inside(first, x, y) ==> (#[trigger] first[y][x]).is_mine == second[y][x].is_mine
            && first[y][x].adjacent_mines == second[y][x].adjacent_mines
}

/// In a grid whose revealed part is closed under the cascade, a revealed
/// start has its whole region revealed: each cell of a path from it.
pub proof fn lemma_path_revealed(grid: Grid, path: Seq<(int, int)>, upto: int)
    requires
        cascade_closed(grid),
        cascade_path(grid, path),
        grid[path[0].1][path[0].0].is_revealed,
        0 <= upto < path.len(),
    ensures
        grid[path[upto].1][path[upto].0].is_revealed,
    decreases upto,
{
    if upto > 0 {
        lemma_path_revealed(grid, path, upto - 1);
        let before = path[upto - 1];
        assert(opens_onward(grid, before.0, before.1));
    }
}

/// In a grid whose revealed part is closed under the cascade, the region
/// of a revealed cell is revealed.
pub proof fn lemma_region_revealed(grid: Grid, from_x: int, from_y: int, x: int, y: int)
    requires
        cascade_closed(grid),
        inside(grid, from_x, from_y),
        grid[from_y][from_x].is_revealed,
        cascade_reaches(grid, from_x, from_y, x, y),
    ensures
        grid[y][x].is_revealed,
{
    let path = choose|path: Seq<(int, int)>|
        #[trigger] cascade_path(grid, path) && path[0] == (from_x, from_y) && path.last() == (
            x,
            y,
        );
    lemma_path_revealed(grid, path, path.len() - 1);
}

} // verus!
