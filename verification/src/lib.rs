//! A colony of foraging ants on a bounded 2D arena.
//!
//! Agents wander the arena, discover food resources, share what they found
//! in a colony-wide registry, seek the nearest known food when hungry, eat
//! it down, and starve when none is left.  All quantities (coordinates,
//! sizes, health, hunger, time) are fixed-point values in thousandths of a
//! world unit, so the whole engine is exact integer arithmetic.

pub mod ant;
pub mod arena;
pub mod decide;
pub mod fog;
pub mod food;
pub mod forage;
pub mod movement;
pub mod rng;
pub mod vitals;
pub mod world;
