//! A turn-based roguelike simulation kernel: a bounded grid world, a seeded
//! level generator, shadow-casting visibility and a two-phase action engine.

pub mod sprites;
pub mod character;
pub mod rng;
pub mod grid;
pub mod world;
pub mod actions;
pub mod fov;
pub mod procgen;
pub mod terrain;
pub mod population;
