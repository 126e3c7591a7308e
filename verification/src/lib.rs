//! Simulation core of a rising-stack panel puzzle: the grid of panels, the
//! clock that raises it, and the sprites that animate it.

pub mod clock;
pub mod panel;
pub mod playfield;
pub mod sprite;
pub mod stack;
pub mod texture_manager;
pub mod vec2;
