//! Small helpers shared by the other modules.

pub mod common;
pub mod json;
pub mod operator;
pub mod text;
