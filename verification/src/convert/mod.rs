//! Conversions between the table model and external formats.

pub mod tenhou;
