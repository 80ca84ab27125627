//! Typed representation of the persisted settings plus their defaults.
//!
//! The configuration is a root object holding named sections; this
//! application has a single example section with one string field. A value of
//! these types is immutable once handed to a subcommand: resolution produces
//! a fresh value rather than mutating in place.

use vstd::prelude::*;

verus! {

/// The recipient value used when no configuration file provides one.
pub open spec fn default_recipient() -> Seq<char> {
    "world"@
}

/// Example configuration section: a single string value.
#[derive(Debug)]
pub struct ExampleSection {
    /// Example configuration value.
    pub recipient: String,
}

impl View for ExampleSection {
    type V = Seq<char>;

    /// The section as its mathematical model: the recipient's characters.
    open spec fn view(&self) -> Seq<char> {
        self.recipient@
    }
}

impl Default for ExampleSection {
    /// Default settings: the recipient is `"world"`.
    fn default() -> (r: Self)
        ensures
            r@ == default_recipient(),
    {
        ExampleSection { recipient: String::from_str("world") }
    }
}

/// Root configuration object: one or more named sections.
#[derive(Debug)]
pub struct AssimilateConfig {
    /// The example section, stored under the `hello` key of the file.
    pub hello: ExampleSection,
}

impl View for AssimilateConfig {
    type V = Seq<char>;

    /// The configuration as its mathematical model: the recipient's
    /// characters, the only setting this schema holds.
    open spec fn view(&self) -> Seq<char> {
        self.hello@
    }
}

impl AssimilateConfig {
    /// Builds a configuration holding the given recipient.
    pub fn with_recipient(recipient: String) -> (r: Self)
        ensures
            r@ == recipient@,
    {
        AssimilateConfig { hello: ExampleSection { recipient } }
    }
}

impl Default for AssimilateConfig {
    /// Default settings: every section takes its own defaults.
    fn default() -> (r: Self)
        ensures
            r@ == default_recipient(),
    {
        AssimilateConfig { hello: ExampleSection::default() }
    }
}

} // verus!
