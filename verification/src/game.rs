//! The game: the board, its counters and the state machine that the
//! commands `dig`, `flag` and `unflag` drive.

use vstd::prelude::*;
use crate::grid::with_tile;
use crate::model::{blank_grid, GameView};
use crate::outside::{current_time, Timestamp};
use crate::placement::lemma_free_slots_blank;
use crate::preservation::{lemma_fresh_wf, lemma_lost_wf, lemma_reflag_wf};
use crate::tile::{GameState, Tile};

verus! {

/// A game of Minesweeper.
///
/// `tiles[y][x]` is the tile of column `x` in row `y`; both count from
/// zero, and a position is the pair `(x, y)`. The fields are there to be
/// read. The commands ask for a well formed game, which is what `new` makes
/// and every command leaves behind; `is_well_formed` tells of a game that
/// was changed by hand whether it still is one.
pub struct Game {
    pub height: u32,
    pub width: u32,
    pub tiles: Vec<Vec<Tile>>,
    pub number_of_mines: u32,
    /// The tiles that are not revealed safe tiles: the covered ones, and a
    /// mine that was dug up.
    pub unmined_tiles: u32,
    pub placed_flag_count: u32,
    pub state: GameState,
    pub time_started: Timestamp,
    pub last_move_time: Timestamp,
}

impl View for Game {
    type V = GameView;

    open spec fn view(&self) -> GameView {
        GameView {
            width: self.width,
            height: self.height,
            grid: Seq::new(self.tiles@.len(), |y: int| self.tiles@[y]@),
            number_of_mines: self.number_of_mines,
            unmined_tiles: self.unmined_tiles,
            placed_flag_count: self.placed_flag_count,
            state: self.state,
            time_started: self.time_started,
            last_move_time: self.last_move_time,
        }
    }
}

/// A row of blank tiles.
fn blank_row(width: u32) -> (row: Vec<Tile>)
    ensures
        row@ == Seq::new(width as nat, |x: int| Tile::blank()),
{
    let mut row: Vec<Tile> = Vec::new();
    let mut x: u32 = 0;
    while x < width
        invariant
            x <= width,
            row@ == Seq::new(x as nat, |x: int| Tile::blank()),
        decreases width - x,
    {
        row.push(Tile::new());
        x = x + 1;
    }
    row
}

impl Game {
    /// The game is well formed: its view meets the invariant of a game.
    pub open spec fn wf(&self) -> bool {
        self@.wf()
    }

    /// Creates a game that has not started, with a blank board of `width`
    /// columns and `height` rows. The board has at least one tile and at
    /// most `u32::MAX`, and the mines are at least one and fewer than the
    /// tiles.
    pub fn new(width: u32, height: u32, number_of_mines: u32) -> (game: Game)
        requires
            width > 0,
            height > 0,
            width * height <= u32::MAX,
            0 < number_of_mines < width * height,
        ensures
            game.wf(),
            game@ == GameView::fresh(width, height, number_of_mines, game@.time_started),
    {
        let mut tiles: Vec<Vec<Tile>> = Vec::new();
        let mut y: u32 = 0;
        while y < height
            invariant
                y <= height,
                tiles@.len() == y,
                forall|i: int| 0 <= i < y ==> (#[trigger] tiles@[i])@ == Seq::new(
                    width as nat,
                    |x: int| Tile::blank(),
                ),
            decreases height - y,
        {
            tiles.push(blank_row(width));
            y = y + 1;
        }
        let now = current_time();
        let game = Game {
            height,
            width,
            tiles,
            number_of_mines,
            unmined_tiles: width * height,
            placed_flag_count: 0,
            state: GameState::NotStarted,
            time_started: now,
            last_move_time: now,
        };
        proof {
            assert(game@.grid =~= blank_grid(width, height));
            lemma_fresh_wf(width, height, number_of_mines, now);
        }
        game
    }

    /// Creates a game as `new` does, where the board has at least one tile
    /// and at most `u32::MAX`, and the mines are at least one and fewer than
    /// the tiles; and no game otherwise.
    pub fn try_new(width: u32, height: u32, number_of_mines: u32) -> (made: Option<Game>)
        ensures
            made is Some <==> width > 0 && height > 0 && width * height <= u32::MAX && 0
                < number_of_mines < width * height,
            made matches Some(game) ==> game.wf() && game@ == GameView::fresh(
                width,
                height,
                number_of_mines,
                game@.time_started,
            ),
    {
        if width == 0 || height == 0 || number_of_mines == 0 {
            return None;
        }
        assert(width * height <= 0xffff_ffff * 0xffff_ffff) by (nonlinear_arith)
            requires
                width <= 0xffff_ffff,
                height <= 0xffff_ffff,
        ;
        let tiles = width as u64 * height as u64;
        if tiles > u32::MAX as u64 || number_of_mines as u64 >= tiles {
            return None;
        }
        Some(Game::new(width, height, number_of_mines))
    }

    /// The tile at a position of the board.
    pub(crate) fn tile(&self, position: (u32, u32)) -> (tile: Tile)
        requires
            self@.shaped(),
            self@.has(position),
        ensures
            tile == self@.tile(position),
    {
        assert(self@.grid[position.1 as int] == self.tiles@[position.1 as int]@);
        self.tiles[position.1 as usize][position.0 as usize]
    }

    /// Puts a flag on the tile at the position, if the game is being played,
    /// the tile is on the board, covered and without a flag, and fewer flags
    /// are placed than there are mines. Otherwise nothing changes.
    pub fn flag(&mut self, position: (u32, u32))
        requires
            old(self).wf(),
        ensures
            final(self).wf(),
            final(self)@ == old(self)@.after_flag(position, final(self)@.last_move_time),
    {
        if self.state != GameState::Playing {
            return ;
        }
        if position.0 >= self.width || position.1 >= self.height {
            return ;
        }
        let tile = self.tile(position);
        if !tile.is_revealed && !tile.is_flagged && self.placed_flag_count < self.number_of_mines {
            let now = current_time();
            proof {
                lemma_reflag_wf(self@, position, true, now);
            }
            self.set_tile(position, Tile { is_flagged: true, ..tile });
            self.placed_flag_count = self.placed_flag_count + 1;
            self.last_move_time = now;
        }
    }

    /// Takes the flag from the tile at the position, if the game is being
    /// played and the tile is on the board and carries one. Otherwise
    /// nothing changes.
    pub fn unflag(&mut self, position: (u32, u32))
        requires
            old(self).wf(),
        ensures
            final(self).wf(),
            final(self)@ == old(self)@.after_unflag(position, final(self)@.last_move_time),
    {
        if self.state != GameState::Playing {
            return ;
        }
        if position.0 >= self.width || position.1 >= self.height {
            return ;
        }
        let tile = self.tile(position);
        if tile.is_flagged {
            let now = current_time();
            proof {
                lemma_reflag_wf(self@, position, false, now);
            }
            self.set_tile(position, Tile { is_flagged: false, ..tile });
            self.placed_flag_count = self.placed_flag_count - 1;
            self.last_move_time = now;
        }
    }

    /// A dig in a game that is being played. On a tile beyond the board or
    /// with a flag nothing changes; on a mine the tile is revealed and the
    /// game is lost; on any other tile its region is uncovered, and the game
    /// is won if no safe tile is left covered.
    fn single_dig(&mut self, position: (u32, u32))
        requires
            old(self).wf(),
            old(self)@.state == GameState::Playing,
        ensures
            final(self).wf(),
            final(self)@ == old(self)@.after_dig(position, final(self)@.last_move_time),
    {
        if position.0 >= self.width || position.1 >= self.height {
            return ;
        }
        let tile = self.tile(position);
        if tile.is_flagged {
            return ;
        }
        if tile.is_mine {
            let now = current_time();
            proof {
                lemma_lost_wf(self@, position, now);
            }
            self.set_tile(position, Tile { is_revealed: true, ..tile });
            self.state = GameState::Lost;
            self.last_move_time = now;
            return ;
        }
        self.make_adjacent_tiles_visible(position);
        self.last_move_time = current_time();
        if self.unmined_tiles == self.number_of_mines {
            self.state = GameState::Won;
        }
    }

    /// The first dig. If the position is on the board and the board has
    /// room for the mines outside the zone around it, the mines are laid,
    /// the region of the dig is uncovered, both times are set, and the game
    /// is being played, or won if no safe tile is left covered. Otherwise
    /// nothing changes.
    fn start_dig(&mut self, position: (u32, u32))
        requires
            old(self).wf(),
            old(self)@.state == GameState::NotStarted,
        ensures
            final(self).wf(),
            old(self)@.starts(position, final(self)@),
    {
        if position.0 >= self.width || position.1 >= self.height {
            return ;
        }
        let placeable = self.count_free_slots(position);
        proof {
            lemma_free_slots_blank(self@, position);
        }
        if placeable < self.number_of_mines {
            return ;
        }
        self.time_started = current_time();
        self.last_move_time = self.time_started;
        self.generate_mines(position, placeable);
        self.state = GameState::Playing;
        let ghost mined = self@;
        self.make_adjacent_tiles_visible(position);
        if self.unmined_tiles == self.number_of_mines {
            self.state = GameState::Won;
        }
        proof {
            assert(old(self)@.starts_by(position, mined, self@));
        }
    }

    /// Digs at the position.
    ///
    /// In a game that has not started, this is the first dig: the mines are
    /// laid at random, none of them within the zone around the position,
    /// and the region of the dig is uncovered. Where the board has no room
    /// for the mines outside that zone, or the position is not on the
    /// board, nothing changes and the game has still not started.
    ///
    /// In a game that is being played, a dig on a mine reveals it and loses
    /// the game, and a dig on another tile uncovers its region; nothing
    /// changes on a flagged tile or beyond the board.
    ///
    /// In a game that is won or lost, nothing changes.
    pub fn dig(&mut self, position: (u32, u32))
        requires
            old(self).wf(),
        ensures
            final(self).wf(),
            match old(self)@.state {
                GameState::NotStarted => old(self)@.starts(position, final(self)@),
                GameState::Playing => final(self)@ == old(self)@.after_dig(
                    position,
                    final(self)@.last_move_time,
                ),
                _ => final(self)@ == old(self)@,
            },
    {
        match self.state {
            GameState::NotStarted => self.start_dig(position),
            GameState::Playing => self.single_dig(position),
            _ => (),
        }
    }

    /// Replaces the tile at a position of the board.
    pub(crate) fn set_tile(&mut self, position: (u32, u32), tile: Tile)
        requires
            old(self)@.shaped(),
            old(self)@.has(position),
        ensures
            final(self)@ == (GameView {
                grid: with_tile(old(self)@.grid, position.0 as int, position.1 as int, tile),
                ..old(self)@
            }),
            final(self)@.shaped(),
    {
        self.tiles[position.1 as usize][position.0 as usize] = tile;
        proof {
            assert(self@.grid =~= with_tile(
                old(self)@.grid,
                position.0 as int,
                position.1 as int,
                tile,
            ));
        }
    }
}

} // verus!
