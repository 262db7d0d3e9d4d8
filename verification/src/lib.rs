//! A falling-sand cellular automaton engine: a rectangular grid of material
//! particles whose local collision rules produce gravity, piling, flow,
//! combustion and phase changes. The grid, the material rule tables, the
//! per-cell stepper and the tick scheduler live here with their contracts;
//! the lock-based parallel sweep is driven by a thin front-end through
//! [`sand_sim::resolve_collision`] and [`sand_sim::shard_range`].

pub mod cell_content;
pub mod direction;
pub mod material;
pub mod render;
pub mod sand_sim;
pub mod sandspiel_static_5;
pub mod universe;
pub mod utils;
