//! Laying the mines as mathematics: the invariants under which the
//! generator runs, and that it leaves a board ready to be played.

use vstd::prelude::*;
use crate::counting::{count_cells, lemma_count_agree, lemma_count_range, lemma_count_split};
use crate::grid::{
    flags_of, inside, lemma_neighbouring_same_mines, mines_of, neighbouring_mines, numbered,
    revealed_mines_of, revealed_safe_of, same_mines, walked,
};
use crate::model::GameView;
use crate::preservation::{lemma_counts_follow, with_tile_at};
use crate::tile::{GameState, Tile};
use crate::zone::{free_slots_of, placeable_count, placeable_of, within_exclusion};

verus! {

/// The state of the generator while it lays the mines for a first dig at
/// `dug` in the game `start`, with `placed` of them laid: nothing but the
/// grid has changed, a tile is blank but for its mine, no mine lies in the
/// zone around the dig, and the mines number `placed`.
#[verifier::opaque]
pub open spec fn laying(start: GameView, dug: (u32, u32), now: GameView, placed: int) -> bool {
    &&& now.shaped()
    &&& now == (GameView { grid: now.grid, ..start })
    &&& forall|x: int, y: int|
        inside(now.grid, x, y) ==> #[trigger] now.grid[y][x] == (Tile {
            is_mine: now.grid[y][x].is_mine,
            ..Tile::blank()
        })
    &&& now.clear_around(dug)
    &&& now.mine_count() == placed
}

/// A game that has not started is the generator's state with no mine laid.
pub proof fn lemma_laying_begins(start: GameView, dug: (u32, u32))
    requires
        start.wf(),
        start.state == GameState::NotStarted,
    ensures
        laying(start, dug, start, 0),
{
    reveal(laying);
    lemma_count_range(start.width as nat, start.height as nat, mines_of(start.grid));
}

/// What the generator's state says of the game so far: it has the shape of
/// the start, and nothing but the grid has changed.
pub proof fn lemma_laying_frame(start: GameView, dug: (u32, u32), now: GameView, placed: int)
    requires
        laying(start, dug, now, placed),
    ensures
        now.shaped(),
        now == (GameView { grid: now.grid, ..start }),
{
    reveal(laying);
}

/// The cells on which a mine can still be laid are those outside the zone,
/// less the mines laid so far.
pub proof fn lemma_free_slots(start: GameView, dug: (u32, u32), now: GameView, placed: int)
    requires
        laying(start, dug, now, placed),
    ensures
        count_cells(
            now.width as nat,
            now.height as nat,
            free_slots_of(now.grid, dug.0 as int, dug.1 as int),
        ) + placed == placeable_count(
            now.width as nat,
            now.height as nat,
            dug.0 as int,
            dug.1 as int,
        ),
{
    reveal(laying);
    let width = now.width as nat;
    let height = now.height as nat;
    let whole = placeable_of(dug.0 as int, dug.1 as int);
    let free = free_slots_of(now.grid, dug.0 as int, dug.1 as int);
    let mines = mines_of(now.grid);
    lemma_count_split(width, height, whole, free, mines);
}

/// On a board without mines, a mine can be laid on every cell outside the
/// zone.
pub proof fn lemma_free_slots_blank(game: GameView, dug: (u32, u32))
    requires
        game.wf(),
        game.state == GameState::NotStarted,
    ensures
        count_cells(
            game.width as nat,
            game.height as nat,
            free_slots_of(game.grid, dug.0 as int, dug.1 as int),
        ) == placeable_count(game.width as nat, game.height as nat, dug.0 as int, dug.1 as int),
{
    lemma_laying_begins(game, dug);
    lemma_free_slots(game, dug, game, 0);
}

/// Laying a mine on a cell outside the zone that holds none yet keeps the
/// generator's state, with one mine more.
pub proof fn lemma_lay_step(
    start: GameView,
    dug: (u32, u32),
    before: GameView,
    placed: int,
    position: (u32, u32),
)
    requires
        laying(start, dug, before, placed),
        before.has(position),
        !within_exclusion(dug.0 as int, dug.1 as int, position.0 as int, position.1 as int),
        !before.tile(position).is_mine,
    ensures
        laying(
            start,
            dug,
            with_tile_at(before, position, Tile { is_mine: true, ..before.tile(position) }),
            placed + 1,
        ),
{
    reveal(laying);
    let tile = Tile { is_mine: true, ..before.tile(position) };
    lemma_counts_follow(before, position, tile);
}

/// The state of the generator while it writes the numbers on the board
/// `laid`, with `(next_x, next_y)` the next cell to be numbered: nothing
/// but the grid has changed, and a tile is as it was laid but for its
/// number, which is written on the cells walked so far.
#[verifier::opaque]
pub open spec fn numbering(laid: GameView, now: GameView, next_x: int, next_y: int) -> bool {
    &&& now.shaped()
    &&& now == (GameView { grid: now.grid, ..laid })
    &&& forall|x: int, y: int|
        inside(now.grid, x, y) ==> #[trigger] now.grid[y][x] == (Tile {
            adjacent_mines: if walked(x, y, next_x, next_y) {
                neighbouring_mines(laid.grid, x, y) as u32
            } else {
                0
            },
            ..laid.grid[y][x]
        })
}

/// What the numbering state says of the game so far: it has the shape and
/// the mines of the board as it was laid.
pub proof fn lemma_numbering_frame(laid: GameView, now: GameView, next_x: int, next_y: int)
    requires
        laid.shaped(),
        numbering(laid, now, next_x, next_y),
    ensures
        now.shaped(),
        now == (GameView { grid: now.grid, ..laid }),
        same_mines(now.grid, laid.grid),
{
    reveal(numbering);
}

/// With all mines laid, the numbering starts.
pub proof fn lemma_numbering_begins(start: GameView, dug: (u32, u32), laid: GameView, placed: int)
    requires
        laying(start, dug, laid, placed),
    ensures
        numbering(laid, laid, 0, 0),
{
    reveal(laying);
    reveal(numbering);
}

/// Writing on a cell the number of mines around it keeps the numbering
/// state, one cell on.
pub proof fn lemma_numbering_step(laid: GameView, before: GameView, position: (u32, u32))
    requires
        laid.shaped(),
        numbering(laid, before, position.0 as int, position.1 as int),
        before.has(position),
    ensures
        neighbouring_mines(before.grid, position.0 as int, position.1 as int) <= 8,
        numbering(
            laid,
            with_tile_at(
                before,
                position,
                Tile {
                    adjacent_mines: neighbouring_mines(
                        before.grid,
                        position.0 as int,
                        position.1 as int,
                    ) as u32,
                    ..before.tile(position)
                },
            ),
            position.0 + 1,
            position.1 as int,
        ),
{
    lemma_numbering_frame(laid, before, position.0 as int, position.1 as int);
    reveal(numbering);
    let x = position.0 as int;
    let y = position.1 as int;
    lemma_neighbouring_same_mines(before.grid, laid.grid, x, y);
}

/// At the end of a row the numbering goes on with the next row.
pub proof fn lemma_numbering_row(laid: GameView, now: GameView, y: int)
    requires
        numbering(laid, now, now.width as int, y),
    ensures
        numbering(laid, now, 0, y + 1),
{
    reveal(numbering);
}

/// With all mines laid and all numbers written, the board is ready: once
/// the game is set to being played, it is a consistent game with nothing
/// revealed, and the zone around the first dig is free of mines.
pub proof fn lemma_board_ready(start: GameView, dug: (u32, u32), laid: GameView, now: GameView)
    requires
        start.wf(),
        start.state == GameState::NotStarted,
        laying(start, dug, laid, start.number_of_mines as int),
        numbering(laid, now, 0, now.height as int),
    ensures
        now == (GameView { grid: now.grid, ..start }),
        (GameView { state: GameState::Playing, ..now }).laid(),
        now.clear_around(dug),
{
    lemma_laying_frame(start, dug, laid, start.number_of_mines as int);
    lemma_numbering_frame(laid, now, 0, now.height as int);
    reveal(laying);
    reveal(numbering);
    let width = now.width as nat;
    let height = now.height as nat;
    assert forall|x: int, y: int| inside(now.grid, x, y) implies {
        &&& (#[trigger] now.grid[y][x]).is_mine == laid.grid[y][x].is_mine
        &&& !now.grid[y][x].is_revealed
        &&& !now.grid[y][x].is_flagged
        &&& now.grid[y][x].adjacent_mines == neighbouring_mines(now.grid, x, y)
    } by {
        lemma_neighbouring_same_mines(now.grid, laid.grid, x, y);
    }
    lemma_count_agree(width, height, mines_of(laid.grid), mines_of(now.grid));
    lemma_count_range(width, height, flags_of(start.grid));
    lemma_count_range(width, height, revealed_safe_of(start.grid));
    lemma_count_range(width, height, flags_of(now.grid));
    lemma_count_range(width, height, revealed_safe_of(now.grid));
    lemma_count_range(width, height, revealed_mines_of(now.grid));
}

} // verus!
