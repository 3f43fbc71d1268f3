//! The table model: tiles, melds, players, actions, events and the stage.

pub mod action;
pub mod define;
pub mod event;
pub mod meld;
pub mod player;
pub mod render;
pub mod stage;
pub mod tile;
