//! A Monte-Carlo simulator for the three-door selection puzzle.
//!
//! A round places a prize behind one of three doors, lets the player guess,
//! has the host open a non-prize door, and resolves the player's final choice
//! under a strategy (stay with the guess, or switch away from it). A run
//! repeats rounds and tallies wins and losses into a percentage.

pub mod doors;
pub mod game;
mod rng;
pub mod tally;

pub use doors::{Door, Doors, all_doors};
pub use game::{resolve_round, run_game, run_games, stay, switch, Strategy};
pub use tally::{ConfigError, Outcome, Results};
