//! A fixed-timestep simulation scheduler.
//!
//! The scheduler decouples simulated time from wall-clock frame time: wall time
//! is measured in whole clock units (for example microseconds), and the
//! scheduler converts the elapsed wall time into a whole number of discrete
//! ticks of a fixed length, catching up after slow frames by performing
//! several tick passes in one call. It owns an ordered collection of simulated
//! objects and drives their tick/draw/expire lifecycle.

pub mod laws;
pub mod particle;
pub mod simulator;
