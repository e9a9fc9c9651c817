//! Level grid, input queue and session state of a box-pushing puzzle.

pub mod gameplay;
pub mod input;
pub mod level;

pub use gameplay::{GameState, Gameplay};
pub use input::{InputQueue, MoveCommand};
pub use level::{EntityKind, Spawn, Tile, TileMap};
