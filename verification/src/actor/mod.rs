//! Actors: those who choose an action for a seat.

pub mod random;
pub mod types;
