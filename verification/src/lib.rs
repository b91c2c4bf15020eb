//! Game rules of a kitchen fire-fighting game: collisions, burning, score,
//! health display, timers and room generation, verified with Verus.

pub mod hud;
pub mod timer;
pub mod contacts;
pub mod collisions;
pub mod player;
pub mod procgen;
pub mod fire;
