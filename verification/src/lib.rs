//! A Minesweeper engine, verified with Verus: the board, the mine generator
//! with a safe first dig, the cascading reveal and the game's state machine.
//!
//! [`Game`] is the engine. Its commands `dig`, `flag` and `unflag` are
//! specified against the mathematical game of [`model`], whose board is the
//! grid of [`grid`]; [`zone`] holds the zone around the first dig that stays
//! free of mines. [`laws`] proves what holds of every game: the number of
//! the mines, the numbers on the tiles, what a dig reveals, and when a game
//! is won or lost. [`input`] reads what a player types. The calls that leave
//! the crate, and are believed rather than proved, stand in [`outside`].

pub mod counting;
pub mod game;
pub mod grid;
pub mod input;
pub mod laws;
pub mod model;
pub mod outside;
pub mod tile;
pub mod zone;

mod cascade;
mod mines;
mod placement;
mod preservation;
mod uncover;
mod validity;

pub use game::Game;
pub use mines::RESAMPLING_LIMIT;
pub use outside::Timestamp;
pub use tile::{GameState, Tile};
