//! Procedural terrain maps by least-conflict relaxation.
//!
//! A map is a grid of terrain categories on a torus. A conflict table says
//! what it costs to have two categories side by side; a relaxation pass
//! samples cells and gives each contested one the least conflicting of a
//! few candidates; the scheduler repeats passes, which the host runs off
//! its loop, until a pass finds nothing contested.
//!
//! - [`terrain`]: the categories and the built-in weights;
//! - [`table`]: the conflict table;
//! - [`grid`]: the terrain grid and its mathematical model;
//! - [`conflict`]: the conflict score of a category at a coordinate;
//! - [`relax`]: the relaxation pass;
//! - [`scheduler`]: the lifecycle of one map and the decisions of each tick;
//! - [`drawing`] and [`dungeon`]: integer rectangles and tile positions for
//!   hosts that draw on a tile map.

pub mod conflict;
pub mod drawing;
pub mod dungeon;
pub mod grid;
mod random;
pub mod relax;
pub mod scheduler;
pub mod table;
pub mod terrain;
