//! Core gameplay logic of a reflex/timing party game: a row of shapes spins at
//! index-dependent rates, the player locks them one by one, each locked shape
//! is scored by how flat it landed, and a one-shot countdown finalizes the
//! round.
//!
//! Angles are carried as signed fixed-point values (`UNITS_PER_DEGREE` units to
//! the degree), time as whole milliseconds, and scores as fixed-point values
//! (`SCORE_SCALE` units to the point), so every rule is exact integer
//! arithmetic.  A renderer, an input source and a frame clock live outside
//! this crate and talk to it through plain values.

pub mod game;
pub mod input;
pub mod rotation;
pub mod score;
pub mod stopper;
pub mod timer;
