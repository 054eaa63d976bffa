//! Interfaces to the outside world: running programs and touching files.

pub mod command_runner;
pub mod filesystem_operations;
pub mod json;
