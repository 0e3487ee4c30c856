//! A small tile-based platformer's logic: the level text format, the placement of a level's
//! tiles, and a fixed-tick simulation of the player (input, ground and wall contact,
//! gravity, jumps, movement, sprite animation, falling out and reaching the flag).
//!
//! Positions are integers in hundredths of a pixel and times are milliseconds of simulated
//! time, so that every step is exact.

pub mod animation;
pub mod level;
pub mod player;
pub mod tiles;
pub mod world;
