//! Engine of a turn-based grid-world micro-game: a player on an infinite 2D
//! grid moves, digs through layered obstacles, collects the results into an
//! inventory, and places items back into the world.
//!
//! The engine is pure state: deterministic terrain classification, a sparse
//! override store reconciling generated and player-modified terrain, an
//! inventory with cyclic selection, and the turn-resolution state machine.
//! Terrain sampling (coherent noise), rendering, keyboard decoding and
//! persistence are the embedding program's concern; the engine takes plain
//! values and returns plain values.

pub mod game_loop;
pub mod input;
pub mod inventory;
pub mod items;
pub mod laws;
pub mod state;
pub mod store;
pub mod tiles;
pub mod utils;

pub use game_loop::loop_outcome;
pub use input::{on_letter_pressed, Input, IsShift};
pub use inventory::{HasNone, Inventory};
pub use items::Item;
pub use state::{Look, Menu, State, StateModel};
pub use tiles::{BreakResult, Tile};
pub use utils::{Dir, Pos};
