//! The simulation core of a grid-based tower-defence game: a bounded
//! battlefield on which a player, hostile creatures, defensive structures and
//! arrows act once per tick.

pub mod arrow;
pub mod audit;
pub mod cells;
pub mod controller;
pub mod fiend;
pub mod glyph;
pub mod grid;
pub mod model;
pub mod player;
pub mod setup;
pub mod spawn;
pub mod text;
pub mod tick;
pub mod turret;
pub mod wave;
pub mod world;
