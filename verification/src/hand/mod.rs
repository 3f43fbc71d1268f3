//! Hands: their shapes and waits, how far they are from a win, their yaku
//! and fu, and the points they are worth.

pub mod count;
pub mod evaluate;
pub mod parts;
pub mod point;
pub mod score;
pub mod shanten;
pub mod shanten_laws;
pub mod shape;
pub mod win;
pub mod yaku;
