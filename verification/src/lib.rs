//! A verified core for Conway's Game of Life on a toroidal grid.
//!
//! The library holds the grid state store, the generation transition
//! engine (the classic B3/S23 rule with edge wraparound), the plus-shaped
//! paint brush used for interactive seeding, and the mode/generation
//! controller. Rendering and input polling live outside the library and
//! talk to it through plain values.

pub mod engine;
pub mod game;
pub mod grid;
pub mod laws;

pub use engine::apply_rule;
pub use game::Game;
pub use game::Mode;
pub use grid::Grid;
