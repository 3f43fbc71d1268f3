//! The controller: applies events to the stage, finds the actions that a
//! player may take, and asks the actors.

pub mod check;
pub mod laws;
pub mod perform;
pub mod possible_actions;
pub mod reducer;
pub mod stage_controller;
