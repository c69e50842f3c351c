//! The application layer: commands, queries and use cases.

pub mod cli;
pub mod commands;
pub mod queries;
pub mod use_cases;
