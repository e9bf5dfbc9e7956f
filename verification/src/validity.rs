//! Checking at run time that a game meets the invariant: for callers that
//! build or change a game by its fields.

use vstd::prelude::*;
use crate::cascade::{lemma_revealed_upto_all, lemma_revealed_upto_none, revealed_upto};
use crate::counting::{count_cells, count_row, lemma_count_prefix, lemma_count_range};
use crate::game::Game;
use crate::grid::{
    cascade_closed, flags_of, inside, mines_of, neighbouring_mines, numbered, opens_onward,
    revealed_mines_of, revealed_safe_of, surrounded_by_revealed, walked,
};
use crate::tile::{GameState, Tile};
use crate::uncover::neighbour_step;

verus! {

impl Game {
    /// Whether the tile at `(x, y)` is revealed, or lies beyond the board.
    fn revealed_or_off(&self, x: i64, y: i64) -> (ok: bool)
        requires
            self@.shaped(),
        ensures
            ok == (inside(self@.grid, x as int, y as int) ==> self@.grid[y as int][x
                as int].is_revealed),
    {
        if self.is_out_of_bounds((x, y)) {
            return true;
        }
        self.tile((x as u32, y as u32)).is_revealed
    }

    /// Whether every tile of the board that touches the tile at the
    /// position is revealed.
    fn is_surrounded_by_revealed(&self, position: (u32, u32)) -> (ok: bool)
        requires
            self@.shaped(),
            self@.has(position),
        ensures
            ok == surrounded_by_revealed(self@.grid, position.0 as int, position.1 as int),
    {
        let ghost x = position.0 as int;
        let ghost y = position.1 as int;
        let mut k: u8 = 0;
        proof {
            lemma_revealed_upto_none(self@.grid, x, y);
        }
        while k < 8
            invariant
                self@.shaped(),
                self@.has(position),
                x == position.0,
                y == position.1,
                k <= 8,
                revealed_upto(self@.grid, x, y, k as int),
            decreases 8 - k,
        {
            let step = neighbour_step(k);
            if !self.revealed_or_off(position.0 as i64 + step.0, position.1 as i64 + step.1) {
                return false;
            }
            proof {
                reveal(revealed_upto);
            }
            k = k + 1;
        }
        proof {
            lemma_revealed_upto_all(self@.grid, x, y);
        }
        true
    }

    /// Whether the tile at the position is as the invariant of a game asks.
    fn is_tile_sound(&self, position: (u32, u32)) -> (ok: bool)
        requires
            self@.shaped(),
            self@.has(position),
        ensures
            ok == self@.tile_sound(position.0 as int, position.1 as int),
    {
        let tile = self.tile(position);
        if tile.is_flagged && tile.is_revealed {
            return false;
        }
        if tile.adjacent_mines != self.count_adjacent_mines(position) {
            return false;
        }
        if tile.is_revealed && !tile.is_mine && tile.adjacent_mines == 0 {
            if !self.is_surrounded_by_revealed(position) {
                return false;
            }
        }
        if self.state == GameState::NotStarted {
            if tile.is_mine || tile.is_flagged || tile.is_revealed || tile.adjacent_mines != 0 {
                return false;
            }
        }
        true
    }

    /// Whether the game meets the invariant of a game. A game made by
    /// `new` and changed by `dig`, `flag` and `unflag` alone always does.
    pub fn is_well_formed(&self) -> (ok: bool)
        ensures
            ok == self.wf(),
    {
        if self.width == 0 || self.height == 0 {
            return false;
        }
        assert(self.width * self.height <= 0xffff_ffff * 0xffff_ffff) by (nonlinear_arith)
            requires
                self.width <= 0xffff_ffff,
                self.height <= 0xffff_ffff,
        ;
        let cells = self.width as u64 * self.height as u64;
        if cells > u32::MAX as u64 {
            return false;
        }
        if self.number_of_mines == 0 || self.number_of_mines as u64 >= cells {
            return false;
        }
        if self.tiles.len() != self.height as usize {
            return false;
        }
        let mut row: u32 = 0;
        while row < self.height
            invariant
                self.tiles@.len() == self.height,
                row <= self.height,
                forall|y: int| 0 <= y < row ==> (#[trigger] self@.grid[y]).len() == self.width,
            decreases self.height - row,
        {
            if self.tiles[row as usize].len() != self.width as usize {
                assert(self@.grid[row as int] == self.tiles@[row as int]@);
                return false;
            }
            row = row + 1;
        }
        let ghost width = self.width as nat;
        let ghost height = self.height as nat;
        let mut mines: u32 = 0;
        let mut flags: u32 = 0;
        let mut revealed_safe: u32 = 0;
        let mut revealed_mines: u32 = 0;
        let mut y: u32 = 0;
        while y < self.height
            invariant
                self@.shaped(),
                cells == self.width * self.height,
                width == self.width,
                height == self.height,
                y <= self.height,
                forall|a: int, b: int|
                    0 <= a < width && 0 <= b < height && walked(a, b, 0, y as int)
                        ==> #[trigger] self@.tile_sound(a, b),
                mines == count_cells(width, y as nat, mines_of(self@.grid)),
                flags == count_cells(width, y as nat, flags_of(self@.grid)),
                revealed_safe == count_cells(width, y as nat, revealed_safe_of(self@.grid)),
                revealed_mines == count_cells(width, y as nat, revealed_mines_of(self@.grid)),
            decreases self.height - y,
        {
            let mut x: u32 = 0;
            while x < self.width
                invariant
                    self@.shaped(),
                    cells == self.width * self.height,
                    width == self.width,
                    height == self.height,
                    y < self.height,
                    x <= self.width,
                    forall|a: int, b: int|
                        0 <= a < width && 0 <= b < height && walked(a, b, x as int, y as int)
                            ==> #[trigger] self@.tile_sound(a, b),
                    mines == count_cells(width, y as nat, mines_of(self@.grid)) + count_row(
                        x as nat,
                        y as int,
                        mines_of(self@.grid),
                    ),
                    flags == count_cells(width, y as nat, flags_of(self@.grid)) + count_row(
                        x as nat,
                        y as int,
                        flags_of(self@.grid),
                    ),
                    revealed_safe == count_cells(width, y as nat, revealed_safe_of(self@.grid))
                        + count_row(x as nat, y as int, revealed_safe_of(self@.grid)),
                    revealed_mines == count_cells(width, y as nat, revealed_mines_of(self@.grid))
                        + count_row(x as nat, y as int, revealed_mines_of(self@.grid)),
                decreases self.width - x,
            {
                if !self.is_tile_sound((x, y)) {
                    return false;
                }
                let tile = self.tile((x, y));
                proof {
                    lemma_count_prefix(
                        width,
                        height,
                        mines_of(self@.grid),
                        (x + 1) as nat,
                        y as nat,
                    );
                    lemma_count_prefix(
                        width,
                        height,
                        flags_of(self@.grid),
                        (x + 1) as nat,
                        y as nat,
                    );
                    lemma_count_prefix(
                        width,
                        height,
                        revealed_safe_of(self@.grid),
                        (x + 1) as nat,
                        y as nat,
                    );
                    lemma_count_prefix(
                        width,
                        height,
                        revealed_mines_of(self@.grid),
                        (x + 1) as nat,
                        y as nat,
                    );
                    lemma_count_range(width, height, mines_of(self@.grid));
                    lemma_count_range(width, height, flags_of(self@.grid));
                    lemma_count_range(width, height, revealed_safe_of(self@.grid));
                    lemma_count_range(width, height, revealed_mines_of(self@.grid));
                }
                if tile.is_mine {
                    mines = mines + 1;
                }
                if tile.is_flagged {
                    flags = flags + 1;
                }
                if tile.is_revealed && !tile.is_mine {
                    revealed_safe = revealed_safe + 1;
                }
                if tile.is_revealed && tile.is_mine {
                    revealed_mines = revealed_mines + 1;
                }
                x = x + 1;
            }
            y = y + 1;
        }
        proof {
            assert(self@.flags_on_covered()) by {
                assert forall|a: int, b: int|
                    inside(self@.grid, a, b) && (#[trigger] self@.grid[b][a]).is_flagged
                        implies !self@.grid[b][a].is_revealed by {
                    assert(self@.tile_sound(a, b));
                }
            }
            assert(numbered(self@.grid)) by {
                assert forall|a: int, b: int| inside(self@.grid, a, b) implies (
                #[trigger] self@.grid[b][a]).adjacent_mines == neighbouring_mines(
                    self@.grid,
                    a,
                    b,
                ) by {
                    assert(self@.tile_sound(a, b));
                }
            }
            assert(cascade_closed(self@.grid)) by {
                assert forall|a: int, b: int| #[trigger]
                    opens_onward(self@.grid, a, b) implies surrounded_by_revealed(
                    self@.grid,
                    a,
                    b,
                ) by {
                    assert(self@.tile_sound(a, b));
                }
            }
            if self.state == GameState::NotStarted {
                assert(self@.blank()) by {
                    assert forall|a: int, b: int|
                        inside(self@.grid, a, b) implies #[trigger] self@.grid[b][a]
                        == Tile::blank() by {
                        assert(self@.tile_sound(a, b));
                    }
                }
            }
        }
        if self.unmined_tiles as u64 + revealed_safe as u64 != cells {
            return false;
        }
        if self.placed_flag_count != flags || self.placed_flag_count > self.number_of_mines {
            return false;
        }
        if self.state != GameState::NotStarted && mines != self.number_of_mines {
            return false;
        }
        if revealed_mines != (if self.state == GameState::Lost {
            1
        } else {
            0
        }) {
            return false;
        }
        (self.state == GameState::Won) == (self.unmined_tiles == self.number_of_mines)
    }
}

} // verus!
