//! Verified core of a habit-tracking chat bot: button identifiers and their
//! decoding, the reply text, the configuration rules and a model of the
//! persistence gateway with its daily aggregate.

pub mod button;
pub mod commands;
pub mod config;
pub mod database;
pub mod decimal;
