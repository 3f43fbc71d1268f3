//! A riichi-mahjong engine core: tile algebra, the table model, the rules
//! of a round, hand evaluation and scoring, and the adapters between the
//! table model and the message and log formats of other programs. Every
//! function carries a contract that Verus proves.

pub mod actor;
pub mod calculator;
pub mod controller;
pub mod convert;
pub mod hand;
pub mod mahjongsoul;
pub mod model;
pub mod util;
