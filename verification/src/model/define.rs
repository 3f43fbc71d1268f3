//! Sizes, indices and the integer types of the model.

use vstd::prelude::*;

verus! {

/// A seat at the table, `0..SEAT`.
pub type Seat = usize;

/// A suit index, `0..TYPE`.
pub type Type = usize;

/// A rank within a suit, `0..TNUM`.
pub type Tnum = usize;

/// A position in a list of the model.
pub type Index = usize;

/// A player's score.
pub type Score = i32;

/// A payment.
pub type Point = i32;

/// Number of seats.
pub const SEAT: usize = 4;

/// Number of suits, honors included.
pub const TYPE: usize = 4;

/// Number of rank slots per suit; slot 0 is the red five.
pub const TNUM: usize = 10;

/// Number of physical copies of each tile.
pub const TILE: usize = 4;

/// The value that stands for "no seat".
pub const NO_SEAT: usize = 4;

/// Suit: characters (manzu).
pub const TM: usize = 0;

/// Suit: circles (pinzu).
pub const TP: usize = 1;

/// Suit: bamboos (souzu).
pub const TS: usize = 2;

/// Suit: honors (jihai).
pub const TZ: usize = 3;

/// Honor rank: east wind.
pub const WE: usize = 1;

/// Honor rank: south wind.
pub const WS: usize = 2;

/// Honor rank: west wind.
pub const WW: usize = 3;

/// Honor rank: north wind.
pub const WN: usize = 4;

/// Honor rank: white dragon.
pub const DW: usize = 5;

/// Honor rank: green dragon.
pub const DG: usize = 6;

/// Honor rank: red dragon.
pub const DR: usize = 7;

/// Honor rank of the hidden tile.
pub const UK: usize = 8;

} // verus!
