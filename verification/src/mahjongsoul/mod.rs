//! The Mahjong Soul adapter: reads the messages of a live table, turns
//! them into events of the model, and turns a chosen action into the
//! command that the table's client understands.

pub mod action;
pub mod game;
pub mod message;
