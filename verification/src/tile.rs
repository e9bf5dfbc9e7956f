//! One cell of the board, and the states a game moves through.

use vstd::prelude::*;

verus! {

/// One cell of the grid.
#[derive(Clone, Copy, Debug, PartialEq, Eq, Structural)]
pub struct Tile {
    /// Set while the mines are laid, never afterwards.
    pub is_mine: bool,
    /// Toggled by the player; cleared when the tile is revealed.
    pub is_flagged: bool,
    /// Once `true`, never `false` again.
    pub is_revealed: bool,
    /// The number of mines among the up to eight neighbours.
    pub adjacent_mines: u32,
}

impl Tile {
    /// A covered tile without mine, flag or neighbouring mines.
    pub open spec fn blank() -> Tile {
        Tile { is_mine: false, is_flagged: false, is_revealed: false, adjacent_mines: 0 }
    }

    /// Creates a blank tile.
    pub fn new() -> (tile: Tile)
        ensures
            tile == Tile::blank(),
    {
        Tile { is_mine: false, is_flagged: false, is_revealed: false, adjacent_mines: 0 }
    }
}

/// The state of a game. `Won` and `Lost` are terminal.
#[derive(Clone, Copy, Debug, PartialEq, Eq, Structural)]
pub enum GameState {
    Won,
    Playing,
    Lost,
    NotStarted,
}

} // verus!
