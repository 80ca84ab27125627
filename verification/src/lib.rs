//! Assimilate: a command-line tool core that resolves an effective
//! configuration from three layered sources (built-in defaults, a persisted
//! configuration file, command-line flags) and dispatches to one of a closed
//! set of subcommands carrying that resolved configuration.

pub mod chars;
pub mod chart;
pub mod codec;
pub mod commands;
pub mod config;
pub mod errors;
pub mod start;
