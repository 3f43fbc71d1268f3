//! The score calculator: reads an expression that describes a winning
//! hand and its context, and evaluates it.

pub mod app;
pub mod expression;
pub mod parse;
