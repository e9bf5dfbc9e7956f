//! The reveal engine as mathematics: that the uncovered region keeps a game
//! consistent, and the invariant under which the engine's work list runs.

use vstd::prelude::*;
use crate::counting::{lemma_count_agree, lemma_count_le, lemma_count_range, unit};
use crate::grid::{
    cascade_closed, cascade_reaches, flags_of, inside, lemma_cascade_extend,
    lemma_cascade_same_layout, lemma_offsets_touch, lemma_region_revealed, mine_at, mines_of,
    neighbour_offset, neighbouring_mines, opens_onward, revealed_around, revealed_mines_of,
    revealed_safe_of, safe_at, same_layout, surrounded_by_revealed, touching, Grid,
};
use crate::model::{uncovered, GameView};
use crate::preservation::{lemma_counts_follow, lemma_numbered_same_layout, with_tile_at};
use crate::tile::GameState;

verus! {

/// Around a cell with no mine around it, no cell of the grid holds a mine.
pub proof fn lemma_no_mine_around(grid: Grid, x: int, y: int, other_x: int, other_y: int)
    requires
        neighbouring_mines(grid, x, y) == 0,
        touching(x, y, other_x, other_y),
    ensures
        !mine_at(grid, other_x, other_y),
{
}

/// Uncovering the region of a dig keeps a started game consistent. The
/// mines and the numbers stay; what was revealed stays revealed; and the
/// tiles that are left get no more, and fewer if the dig opens a covered
/// safe tile.
pub proof fn lemma_opened_consistent(game: GameView, position: (u32, u32))
    requires
        game.consistent(),
        game.state != GameState::NotStarted,
        game.has(position),
    ensures
        game.opened(position).consistent(),
        same_layout(game.grid, game.opened(position).grid),
        game.opened(position).unmined_tiles <= game.unmined_tiles,
        game.opened(position).placed_flag_count <= game.placed_flag_count,
        !game.tile(position).is_mine && !game.tile(position).is_revealed ==> game.opened(
            position,
        ).unmined_tiles < game.unmined_tiles,
        forall|x: int, y: int|
            inside(game.grid, x, y) && game.grid[y][x].is_revealed ==> (
            #[trigger] game.opened(position).grid[y][x]).is_revealed,
{
    let after = game.opened(position);
    let width = game.width as nat;
    let height = game.height as nat;
    let from_x = position.0 as int;
    let from_y = position.1 as int;
    lemma_numbered_same_layout(game.grid, after.grid);
    lemma_count_range(width, height, revealed_safe_of(after.grid));
    lemma_count_le(width, height, flags_of(after.grid), flags_of(game.grid), 0, 0);
    lemma_count_le(
        width,
        height,
        revealed_safe_of(game.grid),
        revealed_safe_of(after.grid),
        from_x,
        from_y,
    );
    lemma_count_agree(width, height, mines_of(game.grid), mines_of(after.grid));
    if !game.tile(position).is_mine && !game.tile(position).is_revealed {
        crate::grid::lemma_cascade_start(game.grid, from_x, from_y);
    }
    assert forall|x: int, y: int|
        0 <= x < width && 0 <= y < height implies revealed_mines_of(game.grid)(x, y)
        == #[trigger] revealed_mines_of(after.grid)(x, y) by {
        if cascade_reaches(game.grid, from_x, from_y, x, y) {
            lemma_reach_safe(game.grid, from_x, from_y, x, y);
        }
    }
    lemma_count_agree(width, height, revealed_mines_of(game.grid), revealed_mines_of(after.grid));
    assert(cascade_closed(after.grid)) by {
        assert forall|x: int, y: int| #[trigger]
            opens_onward(after.grid, x, y) implies surrounded_by_revealed(after.grid, x, y) by {
            assert forall|other_x: int, other_y: int|
                touching(x, y, other_x, other_y) && inside(
                    after.grid,
                    other_x,
                    other_y,
                ) implies (#[trigger] after.grid[other_y][other_x]).is_revealed by {
                if game.grid[y][x].is_revealed {
                    assert(opens_onward(game.grid, x, y));
                } else {
                    lemma_no_mine_around(game.grid, x, y, other_x, other_y);
                    lemma_cascade_extend(game.grid, from_x, from_y, x, y, other_x, other_y);
                }
            }
        }
    }
}

/// The cells of the region of a dig are safe.
pub proof fn lemma_reach_safe(grid: Grid, from_x: int, from_y: int, x: int, y: int)
    requires
        cascade_reaches(grid, from_x, from_y, x, y),
    ensures
        safe_at(grid, x, y),
        safe_at(grid, from_x, from_y),
{
    let path = choose|path: Seq<(int, int)>|
        #[trigger] crate::grid::cascade_path(grid, path) && path[0] == (from_x, from_y)
            && path.last() == (x, y);
    assert(safe_at(grid, path[0].0, path[0].1));
}

/// The cell waits in the work list, at `next` or behind it.
pub open spec fn queued(pending: Seq<(u32, u32)>, next: int, x: int, y: int) -> bool {
    exists|i: int| next <= i < pending.len() && (#[trigger] pending[i]).0 == x && pending[i].1 == y
}

/// The state of the reveal engine while it works on a dig at `origin` in
/// the game `start`. `now` is the game so far, `pending` the work list and
/// `next` the index of its first entry that is not yet dealt with.
///
/// Only tiles and the two counters have changed, and the counters follow
/// the grid. A tile is as at the start, or uncovered; the tiles uncovered
/// so far lie in the region of the dig. The work list holds revealed cells
/// of the region with no mine around them. And every such revealed cell
/// has its neighbours revealed, or waits in the list.
#[verifier::opaque]
pub open spec fn cascading(
    start: GameView,
    origin: (u32, u32),
    now: GameView,
    pending: Seq<(u32, u32)>,
    next: int,
) -> bool {
    &&& now.shaped()
    &&& now == (GameView {
        grid: now.grid,
        unmined_tiles: now.unmined_tiles,
        placed_flag_count: now.placed_flag_count,
        ..start
    })
    &&& now.counted()
    &&& forall|x: int, y: int|
        inside(start.grid, x, y) ==> {
            &&& #[trigger] now.grid[y][x] == if now.grid[y][x].is_revealed {
                uncovered(start.grid[y][x])
            } else {
                start.grid[y][x]
            }
            &&& now.grid[y][x].is_revealed && !start.grid[y][x].is_revealed ==> cascade_reaches(
                start.grid,
                origin.0 as int,
                origin.1 as int,
                x,
                y,
            )
        }
    &&& 0 <= next <= pending.len()
    &&& forall|i: int|
        0 <= i < pending.len() ==> {
            &&& now.has(#[trigger] pending[i])
            &&& opens_onward(now.grid, pending[i].0 as int, pending[i].1 as int)
            &&& cascade_reaches(
                start.grid,
                origin.0 as int,
                origin.1 as int,
                pending[i].0 as int,
                pending[i].1 as int,
            )
        }
    &&& forall|x: int, y: int| #[trigger]
        opens_onward(now.grid, x, y) ==> queued(pending, next, x, y) || surrounded_by_revealed(
            now.grid,
            x,
            y,
        )
}

/// The game with the tile at the position uncovered and the counters
/// brought up to date.
pub open spec fn uncovered_at(game: GameView, position: (u32, u32)) -> GameView {
    GameView {
        unmined_tiles: (game.unmined_tiles - 1) as u32,
        placed_flag_count: (game.placed_flag_count - unit(game.tile(position).is_flagged)) as u32,
        ..with_tile_at(game, position, uncovered(game.tile(position)))
    }
}

/// The work list after the tile at the position is uncovered: the position
/// joins it if the tile has no mine around it.
pub open spec fn enqueued(game: GameView, pending: Seq<(u32, u32)>, position: (u32, u32)) -> Seq<
    (u32, u32),
> {
    if game.tile(position).adjacent_mines == 0 {
        pending.push(position)
    } else {
        pending
    }
}

/// The engine starts in the state it is to keep: nothing is uncovered yet
/// and the work list is empty.
pub proof fn lemma_cascade_begins(start: GameView, origin: (u32, u32))
    requires
        start.consistent(),
    ensures
        cascading(start, origin, start, Seq::empty(), 0),
{
    reveal(cascading);
    assert forall|x: int, y: int| inside(start.grid, x, y) implies #[trigger] start.grid[y][x] == (
    if start.grid[y][x].is_revealed {
        uncovered(start.grid[y][x])
    } else {
        start.grid[y][x]
    }) by {
        if start.grid[y][x].is_flagged {
            assert(!start.grid[y][x].is_revealed);
        }
    }
}

/// Uncovering a covered safe tile of the region keeps the engine's state.
pub proof fn lemma_uncover_step(
    start: GameView,
    origin: (u32, u32),
    before: GameView,
    pending: Seq<(u32, u32)>,
    next: int,
    position: (u32, u32),
)
    requires
        start.consistent(),
        cascading(start, origin, before, pending, next),
        before.has(position),
        !before.tile(position).is_revealed,
        !before.tile(position).is_mine,
        safe_at(start.grid, position.0 as int, position.1 as int) ==> cascade_reaches(
            start.grid,
            origin.0 as int,
            origin.1 as int,
            position.0 as int,
            position.1 as int,
        ),
    ensures
        before.unmined_tiles >= 1,
        before.placed_flag_count >= unit(before.tile(position).is_flagged),
        cascading(
            start,
            origin,
            uncovered_at(before, position),
            enqueued(before, pending, position),
            next,
        ),
{
    reveal(cascading);
    let tile = before.tile(position);
    let after = uncovered_at(before, position);
    let list = enqueued(before, pending, position);
    let x = position.0 as int;
    let y = position.1 as int;
    let width = before.width as nat;
    let height = before.height as nat;
    lemma_counts_follow(before, position, uncovered(tile));
    lemma_count_range(width, height, revealed_safe_of(after.grid));
    assert forall|a: int, b: int| inside(start.grid, a, b) implies {
        &&& #[trigger] after.grid[b][a] == if after.grid[b][a].is_revealed {
            uncovered(start.grid[b][a])
        } else {
            start.grid[b][a]
        }
        &&& after.grid[b][a].is_revealed && !start.grid[b][a].is_revealed ==> cascade_reaches(
            start.grid,
            origin.0 as int,
            origin.1 as int,
            a,
            b,
        )
    } by {
        assert(start.grid[b].len() == before.width);
        assert(before.grid[b].len() == before.width);
    }
    assert forall|i: int| 0 <= i < list.len() implies {
        &&& after.has(#[trigger] list[i])
        &&& opens_onward(after.grid, list[i].0 as int, list[i].1 as int)
        &&& cascade_reaches(
            start.grid,
            origin.0 as int,
            origin.1 as int,
            list[i].0 as int,
            list[i].1 as int,
        )
    } by {
        if i < pending.len() {
            let p = pending[i];
            assert(list[i] == p);
            assert(after.grid[p.1 as int][p.0 as int] == before.grid[p.1 as int][p.0 as int]);
        }
    }
    assert forall|a: int, b: int| #[trigger] opens_onward(after.grid, a, b) implies queued(
        list,
        next,
        a,
        b,
    ) || surrounded_by_revealed(after.grid, a, b) by {
        assert(before.grid[b].len() == before.width);
        if a == x && b == y {
            assert(list[pending.len() as int] == position);
        } else {
            assert(opens_onward(before.grid, a, b));
            if queued(pending, next, a, b) {
                let i = choose|i: int|
                    next <= i < pending.len() && (#[trigger] pending[i]).0 == a && pending[i].1
                        == b;
                assert(list[i] == pending[i]);
            } else {
                assert(surrounded_by_revealed(before.grid, a, b));
            }
        }
    }
}

/// What the engine's state says of the game so far: it has the shape, the
/// mines and the numbers of the start, and nothing but the grid and the
/// two counters has changed.
pub proof fn lemma_cascading_frame(
    start: GameView,
    origin: (u32, u32),
    now: GameView,
    pending: Seq<(u32, u32)>,
    next: int,
)
    requires
        start.consistent(),
        cascading(start, origin, now, pending, next),
    ensures
        now.shaped(),
        now == (GameView {
            grid: now.grid,
            unmined_tiles: now.unmined_tiles,
            placed_flag_count: now.placed_flag_count,
            ..start
        }),
        same_layout(start.grid, now.grid),
        0 <= next <= pending.len(),
        forall|x: int, y: int|
            inside(start.grid, x, y) && start.grid[y][x].is_revealed ==> (
            #[trigger] now.grid[y][x]).is_revealed,
{
    reveal(cascading);
    assert forall|x: int, y: int| inside(start.grid, x, y) implies (
    #[trigger] start.grid[y][x]).is_mine == now.grid[y][x].is_mine
        && start.grid[y][x].adjacent_mines == now.grid[y][x].adjacent_mines by {
    }
}

/// What the engine's state says of the work list's next entry: it is a
/// cell of the board with no mine around it, so every cell of the board
/// that touches it is safe and lies in the region of the dig.
pub proof fn lemma_next_entry(
    start: GameView,
    origin: (u32, u32),
    now: GameView,
    pending: Seq<(u32, u32)>,
    next: int,
)
    requires
        start.consistent(),
        cascading(start, origin, now, pending, next),
        next < pending.len(),
    ensures
        start.has(pending[next]),
        forall|x: int, y: int|
            touching(pending[next].0 as int, pending[next].1 as int, x, y) && inside(
                start.grid,
                x,
                y,
            ) ==> safe_at(start.grid, x, y) && cascade_reaches(
                start.grid,
                origin.0 as int,
                origin.1 as int,
                x,
                y,
            ),
{
    reveal(cascading);
    let centre = pending[next];
    let cx = centre.0 as int;
    let cy = centre.1 as int;
    assert(now.has(centre));
    assert(start.grid[cy].len() == start.width);
    assert forall|x: int, y: int|
        touching(cx, cy, x, y) && inside(start.grid, x, y) implies safe_at(start.grid, x, y)
        && cascade_reaches(start.grid, origin.0 as int, origin.1 as int, x, y) by {
        lemma_no_mine_around(start.grid, cx, cy, x, y);
        lemma_cascade_extend(start.grid, origin.0 as int, origin.1 as int, cx, cy, x, y);
    }
}

/// Once the neighbours of the list's next entry are revealed, the entry is
/// dealt with.
pub proof fn lemma_expanded(
    start: GameView,
    origin: (u32, u32),
    now: GameView,
    pending: Seq<(u32, u32)>,
    next: int,
)
    requires
        cascading(start, origin, now, pending, next),
        next < pending.len(),
        surrounded_by_revealed(now.grid, pending[next].0 as int, pending[next].1 as int),
    ensures
        cascading(start, origin, now, pending, next + 1),
{
    reveal(cascading);
}

/// When the work list is dealt with, the game is the one in which the
/// region of the dig is uncovered.
pub proof fn lemma_cascade_done(
    start: GameView,
    origin: (u32, u32),
    now: GameView,
    pending: Seq<(u32, u32)>,
)
    requires
        start.consistent(),
        start.has(origin),
        cascading(start, origin, now, pending, pending.len() as int),
        !start.tile(origin).is_mine ==> now.tile(origin).is_revealed,
    ensures
        now == start.opened(origin),
{
    reveal(cascading);
    let from_x = origin.0 as int;
    let from_y = origin.1 as int;
    let goal = start.opened_grid(origin);
    assert forall|y: int| 0 <= y < start.height implies #[trigger] now.grid[y] =~= goal[y] by {
        assert forall|x: int| 0 <= x < start.width implies now.grid[y][x] == goal[y][x] by {
            if cascade_reaches(start.grid, from_x, from_y, x, y) {
                lemma_reach_safe(start.grid, from_x, from_y, x, y);
                lemma_cascade_same_layout(start.grid, now.grid, from_x, from_y, x, y);
                lemma_region_revealed(now.grid, from_x, from_y, x, y);
            }
        }
    }
    assert(now.grid =~= goal);
}

/// What is revealed in `before` is revealed in `after`.
#[verifier::opaque]
pub open spec fn keeps_revealed(before: GameView, after: GameView) -> bool {
    forall|x: int, y: int|
        inside(before.grid, x, y) && before.grid[y][x].is_revealed ==> (
        #[trigger] after.grid[y][x]).is_revealed
}

/// A game keeps what it has revealed.
pub proof fn lemma_keeps_same(game: GameView)
    ensures
        keeps_revealed(game, game),
{
    reveal(keeps_revealed);
}

/// Keeping what is revealed carries over two steps on one board.
pub proof fn lemma_keeps_on(first: GameView, second: GameView, third: GameView)
    requires
        first.shaped(),
        second.shaped(),
        first.width == second.width,
        first.height == second.height,
        keeps_revealed(first, second),
        keeps_revealed(second, third),
    ensures
        keeps_revealed(first, third),
{
    reveal(keeps_revealed);
}

/// A revealed tile is revealed in every game that keeps what is revealed.
pub proof fn lemma_kept_at(before: GameView, after: GameView, position: (u32, u32))
    requires
        before.shaped(),
        before.has(position),
        keeps_revealed(before, after),
        before.tile(position).is_revealed,
    ensures
        after.tile(position).is_revealed,
{
    reveal(keeps_revealed);
}

/// The first `k` of the cells around `(x, y)` are revealed, or lie beyond
/// the edge.
#[verifier::opaque]
pub open spec fn revealed_upto(grid: Grid, x: int, y: int, k: int) -> bool {
    forall|j: int| 0 <= j < k ==> #[trigger] revealed_around(grid, x, y, j)
}

/// Of no cell is anything asked yet.
pub proof fn lemma_revealed_upto_none(grid: Grid, x: int, y: int)
    ensures
        revealed_upto(grid, x, y, 0),
{
    reveal(revealed_upto);
}

/// One more of the cells around `(x, y)` is revealed, and the earlier ones
/// have stayed so.
pub proof fn lemma_revealed_upto_step(before: GameView, after: GameView, x: int, y: int, k: int)
    requires
        before.shaped(),
        after.shaped(),
        before.width == after.width,
        before.height == after.height,
        keeps_revealed(before, after),
        revealed_upto(before.grid, x, y, k),
        revealed_around(after.grid, x, y, k),
    ensures
        revealed_upto(after.grid, x, y, k + 1),
{
    reveal(revealed_upto);
    reveal(keeps_revealed);
    assert forall|j: int| 0 <= j < k + 1 implies #[trigger] revealed_around(
        after.grid,
        x,
        y,
        j,
    ) by {
        let a = x + neighbour_offset(j).0;
        let b = y + neighbour_offset(j).1;
        if j < k && inside(after.grid, a, b) {
            assert(revealed_around(before.grid, x, y, j));
        }
    }
}

/// With all eight done, everything around `(x, y)` is revealed.
pub proof fn lemma_revealed_upto_all(grid: Grid, x: int, y: int)
    requires
        revealed_upto(grid, x, y, 8),
    ensures
        surrounded_by_revealed(grid, x, y),
{
    reveal(revealed_upto);
    assert forall|other_x: int, other_y: int|
        touching(x, y, other_x, other_y) && inside(grid, other_x, other_y) implies (
    #[trigger] grid[other_y][other_x]).is_revealed by {
        lemma_offsets_touch(x, y, other_x, other_y);
        let j = choose|j: int|
            0 <= j < 8 && (#[trigger] neighbour_offset(j)) == (other_x - x, other_y - y);
        assert(revealed_around(grid, x, y, j));
    }
}

/// What the engine's state says of the `k`-th cell around the work list's
/// next entry: if it is a safe cell of the board, it lies in the region of
/// the dig.
pub proof fn lemma_next_neighbour(
    start: GameView,
    origin: (u32, u32),
    now: GameView,
    pending: Seq<(u32, u32)>,
    next: int,
    k: int,
)
    requires
        start.consistent(),
        cascading(start, origin, now, pending, next),
        next < pending.len(),
        0 <= k < 8,
    ensures
        safe_at(
            start.grid,
            pending[next].0 + neighbour_offset(k).0,
            pending[next].1 + neighbour_offset(k).1,
        ) ==> cascade_reaches(
            start.grid,
            origin.0 as int,
            origin.1 as int,
            pending[next].0 + neighbour_offset(k).0,
            pending[next].1 + neighbour_offset(k).1,
        ),
{
    lemma_next_entry(start, origin, now, pending, next);
}

/// After the `k`-th cell around the work list's next entry was uncovered
/// if it is safe, it is revealed if it is on the board at all.
pub proof fn lemma_neighbour_done(
    start: GameView,
    origin: (u32, u32),
    now: GameView,
    pending: Seq<(u32, u32)>,
    next: int,
    k: int,
)
    requires
        start.consistent(),
        cascading(start, origin, now, pending, next),
        next < pending.len(),
        0 <= k < 8,
        safe_at(
            start.grid,
            pending[next].0 + neighbour_offset(k).0,
            pending[next].1 + neighbour_offset(k).1,
        ) ==> now.grid[pending[next].1 + neighbour_offset(k).1][pending[next].0
            + neighbour_offset(k).0].is_revealed,
    ensures
        revealed_around(now.grid, pending[next].0 as int, pending[next].1 as int, k),
{
    lemma_next_entry(start, origin, now, pending, next);
    lemma_cascading_frame(start, origin, now, pending, next);
    let x = pending[next].0 + neighbour_offset(k).0;
    let y = pending[next].1 + neighbour_offset(k).1;
    assert(touching(pending[next].0 as int, pending[next].1 as int, x, y));
}

} // verus!
