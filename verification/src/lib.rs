//! Core simulation of an arcade space shooter: toroidal 2-D geometry,
//! asteroid spawning and splitting, missile and ship collision handling,
//! shield state and scoring.
//!
//! All quantities are fixed-point integers: positions, sizes and speeds hold
//! thousandths of a world unit, and times hold milliseconds.

pub mod asteroid;
pub mod blackhole;
pub mod geom;
pub mod missile;
pub mod rng;
pub mod round;
pub mod score;
pub mod seqs;
pub mod spaceship;
pub mod stellarobject;
