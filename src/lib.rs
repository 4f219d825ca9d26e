//! A small particle engine: bursts of particles spawned from a declarative
//! description, advanced one fixed step at a time, and turned into draw commands.
//!
//! Lengths are fixed-point thousandths of a pixel, times are ticks of 1/60000 s.
pub mod sampling;
pub mod geometry;
pub mod particles;
pub mod triggers;
pub mod button;
pub mod game;
