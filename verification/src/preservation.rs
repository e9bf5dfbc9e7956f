//! Why the commands keep the invariant of a game: how the counts follow a
//! change of one tile, and what carries over between grids that agree on
//! their mines.

use vstd::prelude::*;
use crate::counting::{lemma_count_change, lemma_count_range, unit};
use crate::grid::{
    cascade_closed, flags_of, inside, lemma_neighbouring_same_mines, mines_of, neighbouring_mines,
    numbered, opens_onward, revealed_mines_of, revealed_safe_of, same_layout,
    surrounded_by_revealed, with_tile, Grid,
};
use crate::model::GameView;
use crate::outside::Timestamp;
use crate::tile::{GameState, Tile};

verus! {

/// A blank game is well formed.
pub proof fn lemma_fresh_wf(width: u32, height: u32, number_of_mines: u32, now: Timestamp)
    requires
        width > 0,
        height > 0,
        width * height <= u32::MAX,
        0 < number_of_mines < width * height,
    ensures
        GameView::fresh(width, height, number_of_mines, now).wf(),
{
    let game = GameView::fresh(width, height, number_of_mines, now);
    let grid = game.grid;
    lemma_count_range(width as nat, height as nat, mines_of(grid));
    lemma_count_range(width as nat, height as nat, flags_of(grid));
    lemma_count_range(width as nat, height as nat, revealed_safe_of(grid));
    lemma_count_range(width as nat, height as nat, revealed_mines_of(grid));
}

/// The game with one tile replaced, and nothing else changed.
pub open spec fn with_tile_at(game: GameView, position: (u32, u32), tile: Tile) -> GameView {
    GameView {
        grid: with_tile(game.grid, position.0 as int, position.1 as int, tile),
        ..game
    }
}

/// Replacing one tile changes each count by what the old tile gave to it
/// and the new one gives.
pub proof fn lemma_counts_follow(game: GameView, position: (u32, u32), tile: Tile)
    requires
        game.shaped(),
        game.has(position),
    ensures
        with_tile_at(game, position, tile).shaped(),
        with_tile_at(game, position, tile).mine_count() + unit(game.tile(position).is_mine)
            == game.mine_count() + unit(tile.is_mine),
        with_tile_at(game, position, tile).flag_count() + unit(game.tile(position).is_flagged)
            == game.flag_count() + unit(tile.is_flagged),
        with_tile_at(game, position, tile).revealed_safe_count() + unit(
            game.tile(position).is_revealed && !game.tile(position).is_mine,
        ) == game.revealed_safe_count() + unit(tile.is_revealed && !tile.is_mine),
        with_tile_at(game, position, tile).revealed_mine_count() + unit(
            game.tile(position).is_revealed && game.tile(position).is_mine,
        ) == game.revealed_mine_count() + unit(tile.is_revealed && tile.is_mine),
{
    let after = with_tile_at(game, position, tile);
    let width = game.width as nat;
    let height = game.height as nat;
    let x = position.0 as int;
    let y = position.1 as int;
    lemma_count_change(width, height, mines_of(game.grid), mines_of(after.grid), x, y);
    lemma_count_change(width, height, flags_of(game.grid), flags_of(after.grid), x, y);
    lemma_count_change(
        width,
        height,
        revealed_safe_of(game.grid),
        revealed_safe_of(after.grid),
        x,
        y,
    );
    lemma_count_change(
        width,
        height,
        revealed_mines_of(game.grid),
        revealed_mines_of(after.grid),
        x,
        y,
    );
}

/// The numbers stay right where the mines and the numbers stay.
pub proof fn lemma_numbered_same_layout(first: Grid, second: Grid)
    requires
        same_layout(first, second),
        numbered(first),
    ensures
        numbered(second),
{
    assert forall|x: int, y: int| inside(second, x, y) implies (
    #[trigger] second[y][x]).adjacent_mines
        == neighbouring_mines(second, x, y) by {
        assert(first[y][x].adjacent_mines == second[y][x].adjacent_mines);
        lemma_neighbouring_same_mines(first, second, x, y);
    }
}

/// Replacing a tile by one with the same mine and number keeps the layout.
pub proof fn lemma_with_tile_same_layout(grid: Grid, x: int, y: int, tile: Tile)
    requires
        inside(grid, x, y),
        tile.is_mine == grid[y][x].is_mine,
        tile.adjacent_mines == grid[y][x].adjacent_mines,
    ensures
        same_layout(grid, with_tile(grid, x, y, tile)),
{
}

/// A change of flags alone keeps the revealed part closed under the
/// cascade.
pub proof fn lemma_closed_same_revealed(first: Grid, second: Grid)
    requires
        same_layout(first, second),
        forall|x: int, y: int|
            inside(first, x, y) ==> (#[trigger] first[y][x]).is_revealed
                == second[y][x].is_revealed,
        cascade_closed(first),
    ensures
        cascade_closed(second),
{
    assert forall|x: int, y: int| #[trigger]
        opens_onward(second, x, y) implies surrounded_by_revealed(
        second,
        x,
        y,
    ) by {
        assert(opens_onward(first, x, y));
        assert forall|other_x: int, other_y: int|
            crate::grid::touching(x, y, other_x, other_y) && inside(
                second,
                other_x,
                other_y,
            ) implies (#[trigger] second[other_y][other_x]).is_revealed by {
            assert(first[other_y][other_x].is_revealed);
        }
    }
}

/// Putting a flag on a covered tile, or taking one off, keeps the
/// invariant of a game that is being played.
pub proof fn lemma_reflag_wf(game: GameView, position: (u32, u32), flag: bool, now: Timestamp)
    requires
        game.wf(),
        game.state == GameState::Playing,
        game.has(position),
        !game.tile(position).is_revealed,
        game.tile(position).is_flagged != flag,
        flag ==> game.placed_flag_count < game.number_of_mines,
    ensures
        game.placed_flag_count + unit(flag) >= unit(!flag),
        (GameView {
            placed_flag_count: (game.placed_flag_count + unit(flag) - unit(!flag)) as u32,
            last_move_time: now,
            ..with_tile_at(game, position, Tile { is_flagged: flag, ..game.tile(position) })
        }).wf(),
{
    let tile = Tile { is_flagged: flag, ..game.tile(position) };
    let x = position.0 as int;
    let y = position.1 as int;
    let changed = with_tile_at(game, position, tile);
    lemma_counts_follow(game, position, tile);
    lemma_with_tile_same_layout(game.grid, x, y, tile);
    lemma_numbered_same_layout(game.grid, changed.grid);
    lemma_closed_same_revealed(game.grid, changed.grid);
}

/// Digging up a mine in a game that is being played gives a consistent
/// lost game.
pub proof fn lemma_lost_wf(game: GameView, position: (u32, u32), now: Timestamp)
    requires
        game.wf(),
        game.can_dig(position),
        game.tile(position).is_mine,
    ensures
        game.after_dig(position, now).wf(),
        !game.tile(position).is_revealed,
{
    let tile = Tile { is_revealed: true, ..game.tile(position) };
    let x = position.0 as int;
    let y = position.1 as int;
    let width = game.width as nat;
    let height = game.height as nat;
    let changed = with_tile_at(game, position, tile);
    let after = game.after_dig(position, now);
    lemma_count_range(width, height, revealed_mines_of(game.grid));
    assert(!revealed_mines_of(game.grid)(x, y));
    lemma_counts_follow(game, position, tile);
    lemma_with_tile_same_layout(game.grid, x, y, tile);
    lemma_numbered_same_layout(game.grid, changed.grid);
    assert(cascade_closed(after.grid)) by {
        assert forall|a: int, b: int| #[trigger]
            opens_onward(after.grid, a, b) implies surrounded_by_revealed(after.grid, a, b) by {
            assert(opens_onward(game.grid, a, b));
        }
    }
}

/// A dig in a game that is being played keeps the invariant.
pub proof fn lemma_after_dig_wf(game: GameView, position: (u32, u32), now: Timestamp)
    requires
        game.wf(),
    ensures
        game.after_dig(position, now).wf(),
{
    if game.can_dig(position) {
        if game.tile(position).is_mine {
            lemma_lost_wf(game, position, now);
        } else {
            crate::cascade::lemma_opened_consistent(game, position);
        }
    }
}

} // verus!
