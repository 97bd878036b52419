//! A terminal-arcade shooter simulation engine: a player-controlled ship
//! defends against a descending, laterally sweeping formation of invaders.
//!
//! The crate holds the verified game simulation: countdown clocks, the
//! projectile lifecycle, the invader formation state machine, the player and
//! its hit-detection protocol, the score/level/lives counters, and the frame
//! model that the renderer consumes. Terminal input, rendering and audio are
//! left to the embedding program.

pub mod clock;
pub mod constants;
pub mod frame;
pub mod game;
pub mod invaders;
pub mod level;
pub mod lives;
pub mod menu;
pub mod player;
pub mod score;
pub mod shot;
