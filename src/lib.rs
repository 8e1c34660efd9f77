use vstd::prelude::*;

pub mod command;
pub mod constants;
pub mod display;
pub mod entity;
pub mod grid;
pub mod logbook;
pub mod random;
pub mod state;
pub mod ui;

pub use display::DisplayBytes;
pub use entity::{Entity, Ship};
pub use state::GameState;
pub use ui::Terminal;

verus! {
} // verus!
