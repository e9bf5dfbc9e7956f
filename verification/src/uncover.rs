//! The reveal engine: uncovering the region of a dig with a work list.

use vstd::prelude::*;
use crate::cascade::{
    cascading, keeps_revealed, lemma_cascade_begins, lemma_cascade_done, lemma_cascading_frame,
    lemma_expanded, lemma_keeps_on, lemma_keeps_same, lemma_kept_at, lemma_neighbour_done,
    lemma_next_neighbour, lemma_opened_consistent, lemma_revealed_upto_all,
    lemma_revealed_upto_none, lemma_revealed_upto_step, lemma_uncover_step, revealed_upto,
};
use crate::game::Game;
use crate::grid::{cascade_reaches, inside, lemma_cascade_start, neighbour_offset, safe_at};
use crate::model::GameView;
use crate::tile::{GameState, Tile};

verus! {

/// The step from a tile to the `k`-th of the eight tiles around it.
pub(crate) fn neighbour_step(k: u8) -> (step: (i64, i64))
    requires
        k < 8,
    ensures
        step.0 == neighbour_offset(k as int).0,
        step.1 == neighbour_offset(k as int).1,
{
    if k == 0 {
        (-1, 0)
    } else if k == 1 {
        (1, 0)
    } else if k == 2 {
        (-1, -1)
    } else if k == 3 {
        (-1, 1)
    } else if k == 4 {
        (1, -1)
    } else if k == 5 {
        (1, 1)
    } else if k == 6 {
        (0, -1)
    } else {
        (0, 1)
    }
}

impl Game {
    /// Whether the position lies beyond the edges of the board.
    pub(crate) fn is_out_of_bounds(&self, position: (i64, i64)) -> (out: bool)
        ensures
            out == !(0 <= position.0 < self.width && 0 <= position.1 < self.height),
            self@.shaped() ==> out == !inside(self@.grid, position.0 as int, position.1 as int),
    {
        if position.0 < 0 || position.0 > self.width as i64 - 1 {
            return true;
        }
        if position.1 < 0 || position.1 > self.height as i64 - 1 {
            return true;
        }
        return false;
    }

    /// Uncovers the tile at `(x, y)` if it is on the board, covered and
    /// safe, and puts it on the work list if it has no mine around it.
    fn uncover(
        &mut self,
        x: i64,
        y: i64,
        pending: &mut Vec<(u32, u32)>,
        Ghost(start): Ghost<GameView>,
        Ghost(origin): Ghost<(u32, u32)>,
        Ghost(next): Ghost<int>,
    )
        requires
            start.consistent(),
            cascading(start, origin, old(self)@, old(pending)@, next),
            safe_at(start.grid, x as int, y as int) ==> cascade_reaches(
                start.grid,
                origin.0 as int,
                origin.1 as int,
                x as int,
                y as int,
            ),
        ensures
            cascading(start, origin, final(self)@, final(pending)@, next),
            safe_at(start.grid, x as int, y as int) ==> final(self)@.grid[y as int][x
                as int].is_revealed,
            keeps_revealed(old(self)@, final(self)@),
            final(self)@.unmined_tiles <= old(self)@.unmined_tiles,
            old(pending)@.len() <= final(pending)@.len() <= old(pending)@.len() + (old(
                self,
            )@.unmined_tiles - final(self)@.unmined_tiles),
            next < old(pending)@.len() ==> final(pending)@[next] == old(pending)@[next],
    {
        proof {
            lemma_cascading_frame(start, origin, self@, pending@, next);
            lemma_keeps_same(self@);
        }
        if self.is_out_of_bounds((x, y)) {
            return ;
        }
        let position = (x as u32, y as u32);
        let tile = self.tile(position);
        if tile.is_revealed || tile.is_mine {
            return ;
        }
        proof {
            lemma_uncover_step(start, origin, self@, pending@, next, position);
        }
        let ghost before = self@;
        self.set_tile(position, Tile { is_revealed: true, is_flagged: false, ..tile });
        self.unmined_tiles = self.unmined_tiles - 1;
        if tile.is_flagged {
            self.placed_flag_count = self.placed_flag_count - 1;
        }
        if tile.adjacent_mines == 0 {
            pending.push(position);
        }
        proof {
            assert(keeps_revealed(before, self@)) by {
                reveal(keeps_revealed);
            }
        }
    }

    /// Uncovers what is to be uncovered around the work list's entry at
    /// `next`: the eight tiles that touch it, as far as they are on the
    /// board, covered and safe.
    fn uncover_around(
        &mut self,
        next: usize,
        pending: &mut Vec<(u32, u32)>,
        Ghost(start): Ghost<GameView>,
        Ghost(origin): Ghost<(u32, u32)>,
    )
        requires
            start.consistent(),
            cascading(start, origin, old(self)@, old(pending)@, next as int),
            next < old(pending)@.len(),
        ensures
            cascading(start, origin, final(self)@, final(pending)@, next + 1),
            keeps_revealed(old(self)@, final(self)@),
            final(self)@.unmined_tiles <= old(self)@.unmined_tiles,
            old(pending)@.len() <= final(pending)@.len() <= old(pending)@.len() + (old(
                self,
            )@.unmined_tiles - final(self)@.unmined_tiles),
    {
        let centre = pending[next];
        let mut k: u8 = 0;
        proof {
            lemma_keeps_same(self@);
            lemma_revealed_upto_none(self@.grid, centre.0 as int, centre.1 as int);
            lemma_cascading_frame(start, origin, self@, pending@, next as int);
        }
        while k < 8
            invariant
                start.consistent(),
                old(self)@.shaped(),
                old(self)@.width == start.width,
                old(self)@.height == start.height,
                k <= 8,
                next < pending.len(),
                pending@[next as int] == centre,
                cascading(start, origin, self@, pending@, next as int),
                keeps_revealed(old(self)@, self@),
                revealed_upto(self@.grid, centre.0 as int, centre.1 as int, k as int),
                self.unmined_tiles <= old(self).unmined_tiles,
                old(pending)@.len() <= pending.len() <= old(pending)@.len() + (old(
                    self,
                ).unmined_tiles - self.unmined_tiles),
            decreases 8 - k,
        {
            let step = neighbour_step(k);
            let ghost before = self@;
            proof {
                lemma_next_neighbour(start, origin, self@, pending@, next as int, k as int);
                lemma_cascading_frame(start, origin, self@, pending@, next as int);
            }
            self.uncover(
                centre.0 as i64 + step.0,
                centre.1 as i64 + step.1,
                pending,
                Ghost(start),
                Ghost(origin),
                Ghost(next as int),
            );
            proof {
                lemma_cascading_frame(start, origin, self@, pending@, next as int);
                lemma_neighbour_done(start, origin, self@, pending@, next as int, k as int);
                lemma_revealed_upto_step(before, self@, centre.0 as int, centre.1 as int, k as int);
                lemma_keeps_on(old(self)@, before, self@);
            }
            k = k + 1;
        }
        proof {
            lemma_revealed_upto_all(self@.grid, centre.0 as int, centre.1 as int);
            lemma_expanded(start, origin, self@, pending@, next as int);
        }
    }

    /// Uncovers the region of a dig at the position: the tile itself and,
    /// if it has no mine around it, the connected tiles of that kind and
    /// the tiles that border on them. Revealed tiles and mines stay as
    /// they are.
    pub(crate) fn make_adjacent_tiles_visible(&mut self, position: (u32, u32))
        requires
            old(self)@.consistent(),
            old(self)@.state != GameState::NotStarted,
            old(self)@.has(position),
        ensures
            final(self)@ == old(self)@.opened(position),
            final(self)@.consistent(),
    {
        let ghost start = self@;
        let mut pending: Vec<(u32, u32)> = Vec::new();
        proof {
            lemma_cascade_begins(start, position);
            if safe_at(start.grid, position.0 as int, position.1 as int) {
                lemma_cascade_start(start.grid, position.0 as int, position.1 as int);
            }
        }
        self.uncover(
            position.0 as i64,
            position.1 as i64,
            &mut pending,
            Ghost(start),
            Ghost(position),
            Ghost(0),
        );
        let ghost first = self@;
        proof {
            lemma_keeps_same(first);
            lemma_cascading_frame(start, position, first, pending@, 0);
        }
        let mut next: usize = 0;
        while next < pending.len()
            invariant
                start.consistent(),
                next <= pending.len(),
                cascading(start, position, self@, pending@, next as int),
                first.shaped(),
                first.width == start.width,
                first.height == start.height,
                keeps_revealed(first, self@),
            decreases self.unmined_tiles, pending.len() - next,
        {
            let ghost before = self@;
            proof {
                lemma_cascading_frame(start, position, self@, pending@, next as int);
            }
            self.uncover_around(next, &mut pending, Ghost(start), Ghost(position));
            proof {
                lemma_keeps_on(first, before, self@);
            }
            next = next + 1;
        }
        proof {
            if !start.tile(position).is_mine {
                lemma_kept_at(first, self@, position);
            }
            lemma_cascade_done(start, position, self@, pending@);
            lemma_opened_consistent(start, position);
        }
    }
}

} // verus!
