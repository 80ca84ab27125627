//! Error kinds of the configuration-resolution core. Every failure surfaces
//! as one of these; none is silently swallowed and none falls back to a
//! partial configuration.

use vstd::prelude::*;

verus! {

/// A failure to produce a base configuration from a selected file.
#[derive(Clone, Copy, Debug, PartialEq, Eq, Structural)]
pub enum ConfigError {
    /// A path was selected but its contents could not be read.
    Unreadable,
    /// The file is present but not well-formed configuration text.
    Malformed,
    /// The file holds a section or key outside the known schema.
    UnknownField,
    /// The file repeats a section or key.
    DuplicateField,
    /// The file lacks a required key.
    MissingField,
}

/// A required or constrained chart-subcommand argument is missing or invalid.
#[derive(Clone, Copy, Debug, PartialEq, Eq, Structural)]
pub enum ArgumentError {
    /// The mandatory chart identifier was not given.
    MissingChart,
    /// The mandatory component type was not given.
    MissingComponent,
    /// The mandatory friendly name was not given.
    MissingName,
    /// The component type is outside the constrained set.
    UnknownComponentType,
}

/// Any failure of the resolution pipeline before a subcommand executes.
#[derive(Clone, Copy, Debug, PartialEq, Eq, Structural)]
pub enum AssimilateError {
    /// A subcommand argument failed validation.
    Argument(ArgumentError),
    /// The configuration file could not be loaded.
    Config(ConfigError),
}

} // verus!
