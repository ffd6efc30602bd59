//! Conway's Game of Life on a fixed-size square grid.
//!
//! `life` holds the mathematical model, `conway_core` the grid that
//! implements it, `laws` and `patterns` what is proved of the model, `render`
//! the text for a terminal and `controller` the handling of input.

pub mod controller;
pub mod conway_core;
pub mod laws;
pub mod life;
pub mod patterns;
mod random;
pub mod render;
