//! Orchestration of a zero-knowledge whitelist workflow: the external programs
//! it runs, in which order and with which arguments, and the small amount of
//! text it prepares for them and gathers from them.

pub mod cli;
pub mod utils;
pub mod commands;
