//! The game as a mathematical object, and what each command makes of it.
//! The executable engine is specified against these definitions.

use vstd::prelude::*;
use crate::counting::count_cells;
use crate::grid::{
    cascade_closed, cascade_reaches, flags_of, inside, mines_of, neighbouring_mines, numbered,
    opens_onward, rectangular, revealed_mines_of, revealed_safe_of, surrounded_by_revealed,
    with_tile, Grid,
};
use crate::outside::Timestamp;
use crate::tile::{GameState, Tile};
use crate::zone::{placeable_count, within_exclusion};

verus! {

/// What a game is, seen from outside: the board as a grid of tiles, the
/// counters, the state and the two readings of the clock.
pub struct GameView {
    pub width: u32,
    pub height: u32,
    pub grid: Grid,
    pub number_of_mines: u32,
    pub unmined_tiles: u32,
    pub placed_flag_count: u32,
    pub state: GameState,
    pub time_started: Timestamp,
    pub last_move_time: Timestamp,
}

/// The tile as it is once revealed: uncovered, and without its flag.
pub open spec fn uncovered(tile: Tile) -> Tile {
    Tile { is_revealed: true, is_flagged: false, ..tile }
}

/// A grid of blank tiles.
pub open spec fn blank_grid(width: u32, height: u32) -> Grid {
    Seq::new(height as nat, |y: int| Seq::new(width as nat, |x: int| Tile::blank()))
}

impl GameView {
    /// The number of tiles that hold a mine.
    pub open spec fn mine_count(self) -> nat {
        count_cells(self.width as nat, self.height as nat, mines_of(self.grid))
    }

    /// The number of tiles that carry a flag.
    pub open spec fn flag_count(self) -> nat {
        count_cells(self.width as nat, self.height as nat, flags_of(self.grid))
    }

    /// The number of revealed tiles without a mine.
    pub open spec fn revealed_safe_count(self) -> nat {
        count_cells(self.width as nat, self.height as nat, revealed_safe_of(self.grid))
    }

    /// The number of revealed tiles with a mine.
    pub open spec fn revealed_mine_count(self) -> nat {
        count_cells(self.width as nat, self.height as nat, revealed_mines_of(self.grid))
    }

    /// The position names a tile of the board.
    pub open spec fn has(self, position: (u32, u32)) -> bool {
        position.0 < self.width && position.1 < self.height
    }

    /// The tile at a position of the board.
    pub open spec fn tile(self, position: (u32, u32)) -> Tile {
        self.grid[position.1 as int][position.0 as int]
    }

    /// The board has a positive width and height, its tiles can be counted
    /// in a `u32`, and the grid has that shape.
    pub open spec fn shaped(self) -> bool {
        &&& self.width > 0
        &&& self.height > 0
        &&& self.width * self.height <= u32::MAX
        &&& rectangular(self.grid, self.width as int, self.height as int)
    }

    /// The two counters say what the grid holds: the tiles that are not
    /// revealed safe tiles, and the flags.
    pub open spec fn counted(self) -> bool {
        &&& self.unmined_tiles + self.revealed_safe_count() == self.width * self.height
        &&& self.placed_flag_count == self.flag_count()
    }

    /// No revealed tile carries a flag.
    pub open spec fn flags_on_covered(self) -> bool {
        forall|x: int, y: int|
            inside(self.grid, x, y) && (#[trigger] self.grid[y][x]).is_flagged
                ==> !self.grid[y][x].is_revealed
    }

    /// Every tile is blank.
    pub open spec fn blank(self) -> bool {
        forall|x: int, y: int|
            inside(self.grid, x, y) ==> #[trigger] self.grid[y][x] == Tile::blank()
    }

    /// What the invariant of a game asks of the tile at `(x, y)`: a flag
    /// only on a covered tile, the number of the mines around it, the
    /// tiles around it revealed if it is itself revealed, safe and without
    /// a mine around it, and a blank tile before the game has started.
    pub open spec fn tile_sound(self, x: int, y: int) -> bool {
        &&& self.grid[y][x].is_flagged ==> !self.grid[y][x].is_revealed
        &&& self.grid[y][x].adjacent_mines == neighbouring_mines(self.grid, x, y)
        &&& opens_onward(self.grid, x, y) ==> surrounded_by_revealed(self.grid, x, y)
        &&& self.state == GameState::NotStarted ==> self.grid[y][x] == Tile::blank()
    }

    /// The invariant of a game, but for the win condition.
    ///
    /// The mines are laid exactly when the game has started, and then there
    /// are `number_of_mines` of them; every tile records the mines around
    /// it; the counters agree with the grid; the flags stay within the
    /// number of mines and on covered tiles; the revealed part is closed
    /// under the cascade; and a mine is revealed only in a lost game, and
    /// then one only.
    pub open spec fn consistent(self) -> bool {
        &&& self.shaped()
        &&& 0 < self.number_of_mines < self.width * self.height
        &&& self.counted()
        &&& self.placed_flag_count <= self.number_of_mines
        &&& self.flags_on_covered()
        &&& numbered(self.grid)
        &&& cascade_closed(self.grid)
        &&& (self.state == GameState::NotStarted ==> self.blank())
        &&& (self.state != GameState::NotStarted ==> self.mine_count() == self.number_of_mines)
        &&& self.revealed_mine_count() == if self.state == GameState::Lost {
            1nat
        } else {
            0nat
        }
    }

    /// The invariant of a game: it is consistent, and it is won exactly
    /// when the tiles that are left are as many as the mines.
    pub open spec fn wf(self) -> bool {
        &&& self.consistent()
        &&& (self.state == GameState::Won <==> self.unmined_tiles == self.number_of_mines)
    }

    /// A game that has not started: a blank board of the given size, with
    /// both times at `now`.
    pub open spec fn fresh(
        width: u32,
        height: u32,
        number_of_mines: u32,
        now: Timestamp,
    ) -> GameView {
        GameView {
            width,
            height,
            grid: blank_grid(width, height),
            number_of_mines,
            unmined_tiles: (width * height) as u32,
            placed_flag_count: 0,
            state: GameState::NotStarted,
            time_started: now,
            last_move_time: now,
        }
    }

    /// A flag may be put at the position: the game is being played, the
    /// tile is on the board, covered and without a flag, and fewer flags
    /// are placed than there are mines.
    pub open spec fn can_flag(self, position: (u32, u32)) -> bool {
        &&& self.state == GameState::Playing
        &&& self.has(position)
        &&& !self.tile(position).is_revealed
        &&& !self.tile(position).is_flagged
        &&& self.placed_flag_count < self.number_of_mines
    }

    /// The game after the command to flag a position, given at `now`.
    pub open spec fn after_flag(self, position: (u32, u32), now: Timestamp) -> GameView {
        if self.can_flag(position) {
            GameView {
                grid: with_tile(
                    self.grid,
                    position.0 as int,
                    position.1 as int,
                    Tile { is_flagged: true, ..self.tile(position) },
                ),
                placed_flag_count: (self.placed_flag_count + 1) as u32,
                last_move_time: now,
                ..self
            }
        } else {
            self
        }
    }

    /// A flag may be taken from the position: the game is being played and
    /// the tile is on the board and carries a flag.
    pub open spec fn can_unflag(self, position: (u32, u32)) -> bool {
        &&& self.state == GameState::Playing
        &&& self.has(position)
        &&& self.tile(position).is_flagged
    }

    /// The game after the command to unflag a position, given at `now`.
    pub open spec fn after_unflag(self, position: (u32, u32), now: Timestamp) -> GameView {
        if self.can_unflag(position) {
            GameView {
                grid: with_tile(
                    self.grid,
                    position.0 as int,
                    position.1 as int,
                    Tile { is_flagged: false, ..self.tile(position) },
                ),
                placed_flag_count: (self.placed_flag_count - 1) as u32,
                last_move_time: now,
                ..self
            }
        } else {
            self
        }
    }

    /// The grid after the region of a dig at the position is uncovered.
    pub open spec fn opened_grid(self, position: (u32, u32)) -> Grid {
        Seq::new(
            self.height as nat,
            |y: int|
                Seq::new(
                    self.width as nat,
                    |x: int|
                        if cascade_reaches(
                            self.grid,
                            position.0 as int,
                            position.1 as int,
                            x,
                            y,
                        ) {
                            uncovered(self.grid[y][x])
                        } else {
                            self.grid[y][x]
                        },
                ),
        )
    }

    /// The game after the region of a dig at the position is uncovered:
    /// the grid, and the two counters that follow it.
    pub open spec fn opened(self, position: (u32, u32)) -> GameView {
        let grid = self.opened_grid(position);
        let seen = GameView { grid, ..self };
        GameView {
            grid,
            unmined_tiles: (self.width * self.height - seen.revealed_safe_count()) as u32,
            placed_flag_count: seen.flag_count() as u32,
            ..self
        }
    }

    /// The state after the win condition is evaluated in a game that is
    /// being played.
    pub open spec fn judged(self) -> GameView {
        if self.unmined_tiles == self.number_of_mines {
            GameView { state: GameState::Won, ..self }
        } else {
            self
        }
    }

    /// A dig at the position has an effect in a game that is being played:
    /// the tile is on the board and carries no flag.
    pub open spec fn can_dig(self, position: (u32, u32)) -> bool {
        &&& self.state == GameState::Playing
        &&& self.has(position)
        &&& !self.tile(position).is_flagged
    }

    /// The game after a dig, given at `now`, in a game that is being
    /// played. A dig on a mine reveals that tile and loses the game; any
    /// other dig uncovers its region and wins the game if no safe tile is
    /// left covered.
    pub open spec fn after_dig(self, position: (u32, u32), now: Timestamp) -> GameView {
        if !self.can_dig(position) {
            self
        } else if self.tile(position).is_mine {
            GameView {
                grid: with_tile(
                    self.grid,
                    position.0 as int,
                    position.1 as int,
                    Tile { is_revealed: true, ..self.tile(position) },
                ),
                state: GameState::Lost,
                last_move_time: now,
                ..self
            }
        } else {
            (GameView { last_move_time: now, ..self.opened(position) }).judged()
        }
    }

    /// The first dig can lay its mines: the position is on the board, and
    /// outside the zone around it there is room for all the mines.
    pub open spec fn can_start(self, position: (u32, u32)) -> bool {
        &&& self.state == GameState::NotStarted
        &&& self.has(position)
        &&& self.number_of_mines <= placeable_count(
            self.width as nat,
            self.height as nat,
            position.0 as int,
            position.1 as int,
        )
    }

    /// No mine lies in the zone around the position.
    pub open spec fn clear_around(self, position: (u32, u32)) -> bool {
        forall|x: int, y: int|
            inside(self.grid, x, y) && within_exclusion(
                position.0 as int,
                position.1 as int,
                x,
                y,
            ) ==> !(#[trigger] self.grid[y][x]).is_mine
    }

    /// The board right after the mines are laid: nothing is revealed or
    /// flagged yet, and the game is being played.
    pub open spec fn laid(self) -> bool {
        &&& self.wf()
        &&& self.state == GameState::Playing
        &&& self.unmined_tiles == self.width * self.height
        &&& self.placed_flag_count == 0
        &&& forall|x: int, y: int|
            inside(self.grid, x, y) ==> !(#[trigger] self.grid[y][x]).is_revealed
                && !self.grid[y][x].is_flagged
    }

    /// The first dig at the position leaves `after` behind by way of the
    /// board `mined`: a board of the same size with all the mines laid,
    /// none of them in the zone around the dig, and nothing revealed, on
    /// which a dig at the position gives `after`. Both times are the time of
    /// the dig.
    pub open spec fn starts_by(
        self,
        position: (u32, u32),
        mined: GameView,
        after: GameView,
    ) -> bool {
        &&& mined.laid()
        &&& mined.width == self.width
        &&& mined.height == self.height
        &&& mined.number_of_mines == self.number_of_mines
        &&& mined.clear_around(position)
        &&& mined.time_started == after.last_move_time
        &&& after == mined.after_dig(position, after.last_move_time)
    }

    /// `after` is a game that the first dig at the position may leave
    /// behind. Which cells hold the mines is open, but for their number and
    /// the zone around the dig; the rest follows from where they lie. Where
    /// the first dig cannot lay its mines, nothing changes.
    pub open spec fn starts(self, position: (u32, u32), after: GameView) -> bool {
        if self.can_start(position) {
            exists|mined: GameView| #[trigger] self.starts_by(position, mined, after)
        } else {
            after == self
        }
    }
}

} // verus!
