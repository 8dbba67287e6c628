//! A step-driven model of the dining philosophers: a ring of forks, the
//! philosophers seated between them, and the watchdogs that end the meal.
//!
//! The library holds the rules and never blocks, sleeps or reads a clock. A
//! caller owns the threads and the time: it asks a [`simulation::Simulation`]
//! for a philosopher's next step, does what the step says, and comes back.

pub mod forks_pool;
pub mod instructions;
pub mod philosopher;
pub mod philosopher_maker;
pub mod schedule;
pub mod simulation;
pub mod utils;
