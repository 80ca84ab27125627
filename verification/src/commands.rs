//! Subcommands and the dispatcher.
//!
//! The entry point parses into global flags plus exactly one subcommand.
//! The dispatcher sequence is strict and ordered: select the configuration
//! path (an explicit flag always wins; the computed default only when it
//! exists), load the base configuration (absence of any path yields the
//! defaults, a selected path that cannot be read or parsed is fatal), apply
//! the active subcommand's overrides, and only then execute. A failure at
//! any step aborts before execution.

use crate::chart::{ChartCmd, ChartOnboardRequest};
use crate::codec::{parse_config_str, parse_document};
use crate::config::{default_recipient, AssimilateConfig};
use crate::errors::{AssimilateError, ConfigError};
use crate::start::{join_spaces, StartCmd};
use vstd::prelude::*;

verus! {

/// The closed set of subcommands: exactly one is active per invocation.
pub enum AssimilateCmd {
    /// The `start` subcommand.
    Start(StartCmd),
    /// The `chart` subcommand.
    Chart(ChartCmd),
}

impl AssimilateCmd {
    /// The recipient the active subcommand's override policy resolves from
    /// the loaded one.
    pub open spec fn resolved_recipient(&self, base: Seq<char>) -> Seq<char> {
        match self {
            AssimilateCmd::Start(cmd) => cmd.resolved_recipient(base),
            AssimilateCmd::Chart(_) => base,
        }
    }

    /// Whether the active subcommand sets a flag that overrides the
    /// recipient setting.
    pub open spec fn overrides_recipient(&self) -> bool {
        match self {
            AssimilateCmd::Start(cmd) => cmd.recipient@.len() > 0,
            AssimilateCmd::Chart(_) => false,
        }
    }
}

/// Override is a no-op on absence: a subcommand whose recipient flag is left
/// unset leaves the loaded recipient unchanged, whatever it was.
pub proof fn lemma_unset_flag_keeps_config(cmd: AssimilateCmd, base: Seq<char>)
    requires
        !cmd.overrides_recipient(),
    ensures
        cmd.resolved_recipient(base) == base,
{
}

/// An explicitly set flag wins over the file: the resolved recipient does
/// not depend on the loaded value, and equals the flag's words joined by
/// spaces.
pub proof fn lemma_set_flag_wins(cmd: AssimilateCmd, base_a: Seq<char>, base_b: Seq<char>)
    requires
        cmd.overrides_recipient(),
    ensures
        cmd.resolved_recipient(base_a) == cmd.resolved_recipient(base_b),
        cmd matches AssimilateCmd::Start(start) ==> cmd.resolved_recipient(base_a) == join_spaces(
            start.recipient.deep_view(),
        ),
{
}

/// The file contents the loader was handed, as a mathematical value.
pub open spec fn spec_contents(contents: Option<&str>) -> Option<Seq<char>> {
    match contents {
        Some(s) => Some(s@),
        None => None,
    }
}

/// What the load step yields: the default recipient when no path was
/// selected, a fatal error when a selected path could not be read, else
/// whatever parsing the file text yields.
pub open spec fn spec_load(selected: bool, contents: Option<Seq<char>>) -> Result<
    Seq<char>,
    ConfigError,
> {
    if !selected {
        Ok(default_recipient())
    } else {
        match contents {
            None => Err(ConfigError::Unreadable),
            Some(t) => parse_document(t),
        }
    }
}

/// The computed default location of the configuration file, an
/// os-agnostic path under the user's home directory.
pub fn default_config_path(home: &str) -> (r: String)
    ensures
        r@ == home@ + "/.config/assimilate/config.toml"@,
{
    let mut r = home.to_owned();
    r.append("/.config/assimilate/config.toml");
    r
}

/// The active subcommand's validated execution input, ready to run against
/// the effective configuration.
#[derive(Debug)]
pub enum PreparedCmd {
    /// Run `start`.
    Start,
    /// Run the chart onboarding with this validated request.
    Chart(ChartOnboardRequest),
}

/// Entry point for the application: global flags plus the subcommand.
pub struct EntryPoint {
    /// The active subcommand.
    pub cmd: AssimilateCmd,
    /// Enable verbose logging.
    pub verbose: bool,
    /// Use the specified config file.
    pub config: Option<String>,
}

impl EntryPoint {
    /// Location of the configuration file: an explicitly given path always
    /// wins; otherwise the computed default path is used only if it exists;
    /// otherwise no file is consulted.
    pub fn config_path(&self, default_path: &String, default_exists: bool) -> (r: Option<String>)
        ensures
            self.config is Some ==> r is Some && r->0@ == self.config->0@,
            self.config is None && default_exists ==> r is Some && r->0@ == default_path@,
            self.config is None && !default_exists ==> r is None,
    {
        match &self.config {
            Some(p) => Some(p.clone()),
            None => {
                if default_exists {
                    Some(default_path.clone())
                } else {
                    None
                }
            },
        }
    }

    /// Produces the base configuration. No selected path is not a failure:
    /// the defaults stand. A selected path is binding: contents that could
    /// not be read, or that fail the strict schema, are a fatal
    /// configuration error — never a silent fallback to defaults.
    pub fn load_config(path_selected: bool, contents: Option<&str>) -> (r: Result<
        AssimilateConfig,
        ConfigError,
    >)
        ensures
            ({
                let expected = spec_load(path_selected, spec_contents(contents));
                match r {
                    Ok(c) => expected == Ok::<_, ConfigError>(c@),
                    Err(e) => expected == Err::<Seq<char>, _>(e),
                }
            }),
    {
        if !path_selected {
            Ok(AssimilateConfig::default())
        } else {
            match contents {
                None => Err(ConfigError::Unreadable),
                Some(text) => parse_config_str(text),
            }
        }
    }

    /// Applies the active subcommand's override policy to the loaded
    /// configuration: a single exhaustive dispatch, exactly one arm runs.
    pub fn process_config(&self, config: AssimilateConfig) -> (r: Result<
        AssimilateConfig,
        AssimilateError,
    >)
        ensures
            r is Ok,
            r->Ok_0@ == self.cmd.resolved_recipient(config@),
    {
        match &self.cmd {
            AssimilateCmd::Start(cmd) => cmd.override_config(config),
            AssimilateCmd::Chart(cmd) => cmd.override_config(config),
        }
    }

    /// What preparing an invocation yields: argument validation first (an
    /// argument error aborts before any configuration is consulted), then
    /// the load, then the active subcommand's override resolution.
    pub open spec fn spec_prepare(&self, selected: bool, contents: Option<Seq<char>>) -> Result<
        (PreparedCmd, Seq<char>),
        AssimilateError,
    > {
        match &self.cmd {
            AssimilateCmd::Chart(chart) => match chart.spec_validate() {
                Err(a) => Err(AssimilateError::Argument(a)),
                Ok(req) => match spec_load(selected, contents) {
                    Err(e) => Err(AssimilateError::Config(e)),
                    Ok(base) => Ok(
                        (PreparedCmd::Chart(req), self.cmd.resolved_recipient(base)),
                    ),
                },
            },
            AssimilateCmd::Start(_) => match spec_load(selected, contents) {
                Err(e) => Err(AssimilateError::Config(e)),
                Ok(base) => Ok((PreparedCmd::Start, self.cmd.resolved_recipient(base))),
            },
        }
    }

    /// Prepares one invocation: validates the active subcommand's
    /// arguments, loads the base configuration, and resolves the overrides,
    /// strictly in that order. Execution receives the result only when
    /// every step succeeded.
    pub fn prepare(&self, path_selected: bool, contents: Option<&str>) -> (r: Result<
        (PreparedCmd, AssimilateConfig),
        AssimilateError,
    >)
        ensures
            ({
                let expected = self.spec_prepare(path_selected, spec_contents(contents));
                match r {
                    Ok(pc) => expected is Ok && expected->Ok_0.0 == pc.0 && expected->Ok_0.1
                        == pc.1@,
                    Err(e) => expected == Err::<(PreparedCmd, Seq<char>), _>(e),
                }
            }),
    {
        let plan = match &self.cmd {
            AssimilateCmd::Chart(chart) => match chart.validate() {
                Err(a) => {
                    return Err(AssimilateError::Argument(a));
                },
                Ok(req) => PreparedCmd::Chart(req),
            },
            AssimilateCmd::Start(_) => PreparedCmd::Start,
        };
        let base = match Self::load_config(path_selected, contents) {
            Err(e) => {
                return Err(AssimilateError::Config(e));
            },
            Ok(c) => c,
        };
        match self.process_config(base) {
            Err(e) => Err(e),
            Ok(effective) => Ok((plan, effective)),
        }
    }

    /// The dispatcher sequence before execution: load the base
    /// configuration, then resolve the active subcommand's overrides. Any
    /// failure aborts here, so execution never observes a partially
    /// resolved configuration.
    pub fn resolve_effective_config(&self, path_selected: bool, contents: Option<&str>) -> (r:
        Result<AssimilateConfig, AssimilateError>)
        ensures
            ({
                let loaded = spec_load(path_selected, spec_contents(contents));
                match r {
                    Ok(c) => loaded is Ok && c@ == self.cmd.resolved_recipient(loaded->Ok_0),
                    Err(e) => loaded is Err && e == AssimilateError::Config(loaded->Err_0),
                }
            }),
    {
        match Self::load_config(path_selected, contents) {
            Err(e) => Err(AssimilateError::Config(e)),
            Ok(base) => self.process_config(base),
        }
    }
}

} // verus!
