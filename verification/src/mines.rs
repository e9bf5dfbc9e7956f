//! The mine generator: laying the mines at random outside the zone around
//! the first dig, and writing on every tile the number of mines around it.

use vstd::prelude::*;
use vstd::pervasive::unreached;
use crate::counting::{count_cells, count_row, lemma_count_prefix, lemma_count_range};
use crate::game::Game;
use crate::grid::{mine_at, neighbouring_mines};
use crate::model::GameView;
use crate::outside::{integer_sqrt, random_below};
use crate::placement::{
    laying, lemma_board_ready, lemma_free_slots, lemma_lay_step, lemma_laying_begins,
    lemma_laying_frame, lemma_numbering_begins, lemma_numbering_frame, lemma_numbering_row,
    lemma_numbering_step, numbering,
};
use crate::tile::{GameState, Tile};
use crate::zone::{
    free_slots_of, lemma_distance_fits, lemma_root_below_three, placeable_count, within_exclusion,
};

verus! {

/// How often the generator draws a cell at random for one mine before it
/// picks among the cells that are left.
pub const RESAMPLING_LIMIT: u32 = 64;

/// The distance between two coordinates.
fn apart(first: u32, second: u32) -> (distance: u64)
    ensures
        distance == if first >= second {
            first - second
        } else {
            second - first
        },
{
    if first >= second {
        (first - second) as u64
    } else {
        (second - first) as u64
    }
}

impl Game {
    /// Whether `(x, y)` is a tile of the board that holds a mine.
    fn has_mine(&self, x: i64, y: i64) -> (mine: bool)
        requires
            self@.shaped(),
        ensures
            mine == mine_at(self@.grid, x as int, y as int),
    {
        if self.is_out_of_bounds((x, y)) {
            return false;
        }
        self.tile((x as u32, y as u32)).is_mine
    }

    /// The number of mines among the up to eight tiles around a tile.
    pub(crate) fn count_adjacent_mines(&self, position: (u32, u32)) -> (number: u32)
        requires
            self@.shaped(),
        ensures
            number == neighbouring_mines(self@.grid, position.0 as int, position.1 as int),
    {
        let x = position.0 as i64;
        let y = position.1 as i64;
        let mut number: u32 = 0;
        if self.has_mine(x - 1, y - 1) {
            number = number + 1;
        }
        if self.has_mine(x, y - 1) {
            number = number + 1;
        }
        if self.has_mine(x + 1, y - 1) {
            number = number + 1;
        }
        if self.has_mine(x - 1, y) {
            number = number + 1;
        }
        if self.has_mine(x + 1, y) {
            number = number + 1;
        }
        if self.has_mine(x - 1, y + 1) {
            number = number + 1;
        }
        if self.has_mine(x, y + 1) {
            number = number + 1;
        }
        if self.has_mine(x + 1, y + 1) {
            number = number + 1;
        }
        number
    }

    /// Whether a mine can be laid at the position after a first dig at
    /// `dug_position`: not within the zone around the dig, where the
    /// distance to it, rounded down, is below 3, and not where a mine lies
    /// already.
    pub(crate) fn can_place_mine(&self, position: (u32, u32), dug_position: (u32, u32)) -> (ok:
        bool)
        requires
            self@.shaped(),
            self@.has(position),
            self@.has(dug_position),
        ensures
            ok == (!within_exclusion(
                dug_position.0 as int,
                dug_position.1 as int,
                position.0 as int,
                position.1 as int,
            ) && !self@.tile(position).is_mine),
            ok == free_slots_of(self@.grid, dug_position.0 as int, dug_position.1 as int)(
                position.0 as int,
                position.1 as int,
            ),
    {
        let across = apart(dug_position.0, position.0);
        let down = apart(dug_position.1, position.1);
        proof {
            lemma_distance_fits(self.width, self.height, across, down);
        }
        let distance = integer_sqrt(across * across + down * down);
        proof {
            lemma_root_below_three(across as int, down as int, distance as int);
        }
        if distance < 3 {
            return false;
        }
        if self.tile(position).is_mine {
            false
        } else {
            true
        }
    }

    /// The number of tiles on which a mine can be laid after a first dig
    /// at `dug_position`.
    pub(crate) fn count_free_slots(&self, dug_position: (u32, u32)) -> (count: u32)
        requires
            self@.shaped(),
            self@.has(dug_position),
        ensures
            count == count_cells(
                self@.width as nat,
                self@.height as nat,
                free_slots_of(self@.grid, dug_position.0 as int, dug_position.1 as int),
            ),
    {
        let ghost free = free_slots_of(self@.grid, dug_position.0 as int, dug_position.1 as int);
        let ghost width = self.width as nat;
        let ghost height = self.height as nat;
        let mut count: u32 = 0;
        let mut y: u32 = 0;
        while y < self.height
            invariant
                self@.shaped(),
                self@.has(dug_position),
                free == free_slots_of(self@.grid, dug_position.0 as int, dug_position.1 as int),
                width == self.width,
                height == self.height,
                y <= self.height,
                count == count_cells(width, y as nat, free),
            decreases self.height - y,
        {
            let mut x: u32 = 0;
            while x < self.width
                invariant
                    self@.shaped(),
                    self@.has(dug_position),
                    free == free_slots_of(
                        self@.grid,
                        dug_position.0 as int,
                        dug_position.1 as int,
                    ),
                    width == self.width,
                    height == self.height,
                    y < self.height,
                    x <= self.width,
                    count == count_cells(width, y as nat, free) + count_row(
                        x as nat,
                        y as int,
                        free,
                    ),
                decreases self.width - x,
            {
                proof {
                    lemma_count_prefix(width, height, free, (x + 1) as nat, y as nat);
                    lemma_count_range(width, height, free);
                }
                if self.can_place_mine((x, y), dug_position) {
                    count = count + 1;
                }
                x = x + 1;
            }
            y = y + 1;
        }
        count
    }

    /// The tile on which a mine can be laid that has `rank` such tiles
    /// before it, the board walked row by row.
    fn free_slot_of_rank(&self, dug_position: (u32, u32), rank: u32) -> (slot: (u32, u32))
        requires
            self@.shaped(),
            self@.has(dug_position),
            rank < count_cells(
                self@.width as nat,
                self@.height as nat,
                free_slots_of(self@.grid, dug_position.0 as int, dug_position.1 as int),
            ),
        ensures
            self@.has(slot),
            !within_exclusion(
                dug_position.0 as int,
                dug_position.1 as int,
                slot.0 as int,
                slot.1 as int,
            ),
            !self@.tile(slot).is_mine,
            rank == count_cells(
                self@.width as nat,
                slot.1 as nat,
                free_slots_of(self@.grid, dug_position.0 as int, dug_position.1 as int),
            ) + count_row(
                slot.0 as nat,
                slot.1 as int,
                free_slots_of(self@.grid, dug_position.0 as int, dug_position.1 as int),
            ),
    {
        let ghost free = free_slots_of(self@.grid, dug_position.0 as int, dug_position.1 as int);
        let ghost width = self.width as nat;
        let ghost height = self.height as nat;
        let mut seen: u32 = 0;
        let mut y: u32 = 0;
        while y < self.height
            invariant
                self@.shaped(),
                self@.has(dug_position),
                free == free_slots_of(self@.grid, dug_position.0 as int, dug_position.1 as int),
                width == self.width,
                height == self.height,
                y <= self.height,
                seen == count_cells(width, y as nat, free),
                seen <= rank,
            decreases self.height - y,
        {
            let mut x: u32 = 0;
            while x < self.width
                invariant
                    self@.shaped(),
                    self@.has(dug_position),
                    free == free_slots_of(
                        self@.grid,
                        dug_position.0 as int,
                        dug_position.1 as int,
                    ),
                    width == self.width,
                    height == self.height,
                    y < self.height,
                    x <= self.width,
                    seen == count_cells(width, y as nat, free) + count_row(
                        x as nat,
                        y as int,
                        free,
                    ),
                    seen <= rank,
                decreases self.width - x,
            {
                if self.can_place_mine((x, y), dug_position) {
                    if seen == rank {
                        return (x, y);
                    }
                    seen = seen + 1;
                }
                x = x + 1;
            }
            y = y + 1;
        }
        unreached()
    }

    /// Lays a mine on a tile on which one can be laid.
    fn lay_mine(
        &mut self,
        position: (u32, u32),
        Ghost(start): Ghost<GameView>,
        Ghost(dug_position): Ghost<(u32, u32)>,
        Ghost(placed): Ghost<int>,
    )
        requires
            laying(start, dug_position, old(self)@, placed),
            old(self)@.has(position),
            !within_exclusion(
                dug_position.0 as int,
                dug_position.1 as int,
                position.0 as int,
                position.1 as int,
            ),
            !old(self)@.tile(position).is_mine,
        ensures
            laying(start, dug_position, final(self)@, placed + 1),
    {
        proof {
            lemma_laying_frame(start, dug_position, self@, placed);
            lemma_lay_step(start, dug_position, self@, placed, position);
        }
        let tile = self.tile(position);
        self.set_tile(position, Tile { is_mine: true, ..tile });
    }

    /// Lays one mine. Cells are drawn at random until one is found on which
    /// a mine can be laid; after `RESAMPLING_LIMIT` draws in vain, one of
    /// the `free` cells that are left is drawn by its rank.
    fn place_mine(
        &mut self,
        dug_position: (u32, u32),
        free: u32,
        Ghost(start): Ghost<GameView>,
        Ghost(placed): Ghost<int>,
    )
        requires
            laying(start, dug_position, old(self)@, placed),
            start.has(dug_position),
            free > 0,
            free == count_cells(
                start.width as nat,
                start.height as nat,
                free_slots_of(old(self)@.grid, dug_position.0 as int, dug_position.1 as int),
            ),
        ensures
            laying(start, dug_position, final(self)@, placed + 1),
    {
        proof {
            lemma_laying_frame(start, dug_position, self@, placed);
        }
        let mut attempts: u32 = 0;
        while attempts < RESAMPLING_LIMIT
            invariant
                self@ == old(self)@,
                self@.shaped(),
                self@.has(dug_position),
                laying(start, dug_position, self@, placed),
            decreases RESAMPLING_LIMIT - attempts,
        {
            let random_position = (random_below(self.width), random_below(self.height));
            if self.can_place_mine(random_position, dug_position) {
                self.lay_mine(random_position, Ghost(start), Ghost(dug_position), Ghost(placed));
                return ;
            }
            attempts = attempts + 1;
        }
        let rank = random_below(free);
        let slot = self.free_slot_of_rank(dug_position, rank);
        self.lay_mine(slot, Ghost(start), Ghost(dug_position), Ghost(placed));
    }

    /// Lays `number_of_mines` mines on the blank board, none of them within
    /// the zone around the first dig at the position, and writes on every
    /// tile the number of mines around it. `placeable` is the number of
    /// tiles outside the zone, which must have room for the mines.
    pub(crate) fn generate_mines(&mut self, position: (u32, u32), placeable: u32)
        requires
            old(self).wf(),
            old(self)@.can_start(position),
            placeable == placeable_count(
                old(self)@.width as nat,
                old(self)@.height as nat,
                position.0 as int,
                position.1 as int,
            ),
        ensures
            final(self)@ == (GameView { grid: final(self)@.grid, ..old(self)@ }),
            (GameView { state: GameState::Playing, ..final(self)@ }).laid(),
            final(self)@.clear_around(position),
    {
        let ghost start = self@;
        proof {
            lemma_laying_begins(start, position);
        }
        let mut placed: u32 = 0;
        while placed < self.number_of_mines
            invariant
                start.has(position),
                start.number_of_mines <= placeable,
                placeable == placeable_count(
                    start.width as nat,
                    start.height as nat,
                    position.0 as int,
                    position.1 as int,
                ),
                self.number_of_mines == start.number_of_mines,
                placed <= self.number_of_mines,
                laying(start, position, self@, placed as int),
            decreases self.number_of_mines - placed,
        {
            proof {
                lemma_laying_frame(start, position, self@, placed as int);
                lemma_free_slots(start, position, self@, placed as int);
            }
            self.place_mine(position, placeable - placed, Ghost(start), Ghost(placed as int));
            proof {
                lemma_laying_frame(start, position, self@, placed + 1);
            }
            placed = placed + 1;
        }
        let ghost laid = self@;
        proof {
            lemma_laying_frame(start, position, laid, placed as int);
            lemma_numbering_begins(start, position, laid, placed as int);
        }
        let mut y: u32 = 0;
        while y < self.height
            invariant
                laid.shaped(),
                self.height == laid.height,
                self.width == laid.width,
                y <= self.height,
                numbering(laid, self@, 0, y as int),
            decreases self.height - y,
        {
            let mut x: u32 = 0;
            while x < self.width
                invariant
                    laid.shaped(),
                    self.height == laid.height,
                    self.width == laid.width,
                    y < self.height,
                    x <= self.width,
                    numbering(laid, self@, x as int, y as int),
                decreases self.width - x,
            {
                proof {
                    lemma_numbering_frame(laid, self@, x as int, y as int);
                    lemma_numbering_step(laid, self@, (x, y));
                }
                let adjacent_mines = self.count_adjacent_mines((x, y));
                let tile = self.tile((x, y));
                self.set_tile((x, y), Tile { adjacent_mines, ..tile });
                x = x + 1;
            }
            proof {
                lemma_numbering_frame(laid, self@, x as int, y as int);
                lemma_numbering_row(laid, self@, y as int);
            }
            y = y + 1;
        }
        proof {
            lemma_numbering_frame(laid, self@, 0, y as int);
            lemma_board_ready(start, position, laid, self@);
        }
    }
}

} // verus!
