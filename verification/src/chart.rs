//! `chart` subcommand: onboard a chart from a repository.
//!
//! Validation turns the raw flag bundle into a `ChartOnboardRequest`: chart
//! identifier, component type and friendly name are mandatory, the component
//! type comes from a constrained set, and the namespace defaults to the name
//! when not given. Execution is a state machine stepped by collaborator
//! events; when the request asks for a dry run, the machine never emits a
//! publish action.

use crate::config::AssimilateConfig;
use crate::errors::{ArgumentError, AssimilateError};
use vstd::prelude::*;

verus! {

/// Classification tag for an onboarded chart, constraining how and where it
/// is published.
#[derive(Clone, Copy, Debug, PartialEq, Eq, Structural)]
pub enum ComponentType {
    /// An ordinary application chart.
    Applications,
    /// A cluster add-on chart.
    EksAddons,
}

/// The component type a flag value names, if any.
pub open spec fn spec_component_of(s: Seq<char>) -> Option<ComponentType> {
    if s == "applications"@ {
        Some(ComponentType::Applications)
    } else if s == "eks-addons"@ {
        Some(ComponentType::EksAddons)
    } else {
        None
    }
}

/// Argument bundle of the `chart` subcommand, as parsed from the flags.
pub struct ChartCmd {
    /// Chart repository URL (optional).
    pub repo: Option<String>,
    /// Chart identifier (required at validation).
    pub chart: Option<String>,
    /// Version to onboard; absent means resolve the latest.
    pub version: Option<String>,
    /// Component type (required at validation, from the constrained set).
    pub component: Option<String>,
    /// Friendly name (required at validation; the default namespace).
    pub name: Option<String>,
    /// Namespace override of the default.
    pub namespace: Option<String>,
    /// Dry run: perform every resolution step, suppress the publish.
    pub dryrun: bool,
}

/// A validated chart-onboarding request.
#[derive(Debug)]
pub struct ChartOnboardRequest {
    /// Chart repository URL, when one was given.
    pub repo: Option<String>,
    /// Chart identifier.
    pub chart: String,
    /// Pinned version, or `None` for "resolve latest".
    pub version: Option<String>,
    /// Component type from the constrained set.
    pub component: ComponentType,
    /// Friendly name.
    pub name: String,
    /// Target namespace: the override when given, else the name.
    pub namespace: String,
    /// Whether the publish side effect is suppressed.
    pub dry_run: bool,
}

impl ChartCmd {
    /// What validation yields: the first missing mandatory flag's error, the
    /// unknown-component error, or the request with the namespace defaulted
    /// to the name.
    pub open spec fn spec_validate(&self) -> Result<ChartOnboardRequest, ArgumentError> {
        if self.chart is None {
            Err(ArgumentError::MissingChart)
        } else if self.component is None {
            Err(ArgumentError::MissingComponent)
        } else if self.name is None {
            Err(ArgumentError::MissingName)
        } else if spec_component_of(self.component->0@) is None {
            Err(ArgumentError::UnknownComponentType)
        } else {
            Ok(
                ChartOnboardRequest {
                    repo: self.repo,
                    chart: self.chart->0,
                    version: self.version,
                    component: spec_component_of(self.component->0@)->0,
                    name: self.name->0,
                    namespace: if self.namespace is Some {
                        self.namespace->0
                    } else {
                        self.name->0
                    },
                    dry_run: self.dryrun,
                },
            )
        }
    }

    /// Validates the flag bundle before any execution: required fields
    /// confirmed present, component type constrained, namespace defaulted.
    pub fn validate(&self) -> (r: Result<ChartOnboardRequest, ArgumentError>)
        ensures
            r == self.spec_validate(),
    {
        proof {
            reveal_strlit("applications");
            reveal_strlit("eks-addons");
        }
        let chart = match &self.chart {
            Some(c) => c.clone(),
            None => {
                return Err(ArgumentError::MissingChart);
            },
        };
        let component_flag = match &self.component {
            Some(c) => c,
            None => {
                return Err(ArgumentError::MissingComponent);
            },
        };
        let name = match &self.name {
            Some(n) => n.clone(),
            None => {
                return Err(ArgumentError::MissingName);
            },
        };
        let applications = String::from_str("applications");
        let eks_addons = String::from_str("eks-addons");
        let component = if *component_flag == applications {
            ComponentType::Applications
        } else if *component_flag == eks_addons {
            ComponentType::EksAddons
        } else {
            return Err(ArgumentError::UnknownComponentType);
        };
        let repo = match &self.repo {
            Some(r) => Some(r.clone()),
            None => None,
        };
        let version = match &self.version {
            Some(v) => Some(v.clone()),
            None => None,
        };
        let namespace = match &self.namespace {
            Some(ns) => ns.clone(),
            None => name.clone(),
        };
        Ok(
            ChartOnboardRequest {
                repo,
                chart,
                version,
                component,
                name,
                namespace,
                dry_run: self.dryrun,
            },
        )
    }

    /// The chart flags override no configuration field, so the loaded
    /// configuration passes through unchanged, and without error.
    pub fn override_config(&self, config: AssimilateConfig) -> (r: Result<
        AssimilateConfig,
        AssimilateError,
    >)
        ensures
            r == Ok::<_, AssimilateError>(config),
    {
        Ok(config)
    }
}

/// Where the onboarding stands. `Done` and `Failed` are terminal.
pub enum ChartPhase {
    /// Arguments validated, no version pinned yet.
    Validated,
    /// A version is pinned (given explicitly or resolved as latest).
    VersionPinned(String),
    /// The chart artifact was fetched; the publish is outstanding.
    Fetched(String),
    /// The onboarding completed.
    Done,
    /// A validation or collaborator error ended the onboarding.
    Failed,
}

/// What a collaborator reports back to the machine.
pub enum ChartEvent {
    /// Start the onboarding.
    Begin,
    /// The repository resolved the latest version.
    VersionResolved(String),
    /// The repository handed over the chart artifact.
    FetchCompleted,
    /// The registry acknowledged the publish.
    PublishCompleted,
    /// A collaborator call failed.
    CollaboratorFailed,
}

/// What the caller must do next.
pub enum ChartAction {
    /// Ask the repository for the latest version of the chart.
    ResolveLatestVersion,
    /// Pull the chart artifact at the given version.
    FetchChart(String),
    /// Push the artifact at the given version to the registry.
    PublishChart(String),
    /// Dry run: report the planned publish, perform none.
    ReportDryRun,
    /// The onboarding is complete.
    Finish,
    /// The onboarding failed; report it.
    ReportFailure,
}

/// One transition of the onboarding machine: from the phase and the event to
/// the next phase and the action owed. Any event a phase does not expect
/// fails the onboarding; a dry-run request replaces the publish action with
/// a report.
pub open spec fn spec_step(req: ChartOnboardRequest, phase: ChartPhase, event: ChartEvent) -> (
    ChartPhase,
    ChartAction,
) {
    match (phase, event) {
        (ChartPhase::Validated, ChartEvent::Begin) => match req.version {
            Some(v) => (ChartPhase::VersionPinned(v), ChartAction::FetchChart(v)),
            None => (ChartPhase::Validated, ChartAction::ResolveLatestVersion),
        },
        (ChartPhase::Validated, ChartEvent::VersionResolved(v)) => (
            ChartPhase::VersionPinned(v),
            ChartAction::FetchChart(v),
        ),
        (ChartPhase::VersionPinned(v), ChartEvent::FetchCompleted) => if req.dry_run {
            (ChartPhase::Done, ChartAction::ReportDryRun)
        } else {
            (ChartPhase::Fetched(v), ChartAction::PublishChart(v))
        },
        (ChartPhase::Fetched(_), ChartEvent::PublishCompleted) => (
            ChartPhase::Done,
            ChartAction::Finish,
        ),
        (_, _) => (ChartPhase::Failed, ChartAction::ReportFailure),
    }
}

impl ChartOnboardRequest {
    /// Performs one transition of the onboarding machine.
    pub fn step(&self, phase: ChartPhase, event: ChartEvent) -> (r: (ChartPhase, ChartAction))
        requires
            !(phase is Done),
            !(phase is Failed),
        ensures
            r == spec_step(*self, phase, event),
    {
        match (phase, event) {
            (ChartPhase::Validated, ChartEvent::Begin) => match &self.version {
                Some(v) => (ChartPhase::VersionPinned(v.clone()), ChartAction::FetchChart(
                    v.clone(),
                )),
                None => (ChartPhase::Validated, ChartAction::ResolveLatestVersion),
            },
            (ChartPhase::Validated, ChartEvent::VersionResolved(v)) => (
                ChartPhase::VersionPinned(v.clone()),
                ChartAction::FetchChart(v),
            ),
            (ChartPhase::VersionPinned(v), ChartEvent::FetchCompleted) => if self.dry_run {
                (ChartPhase::Done, ChartAction::ReportDryRun)
            } else {
                (ChartPhase::Fetched(v.clone()), ChartAction::PublishChart(v))
            },
            (ChartPhase::Fetched(_), ChartEvent::PublishCompleted) => (
                ChartPhase::Done,
                ChartAction::Finish,
            ),
            (_, _) => (ChartPhase::Failed, ChartAction::ReportFailure),
        }
    }
}

/// With the dry-run flag set, no transition of the onboarding machine emits
/// a publish action, whatever the phase and whatever the collaborators
/// report: the publish side effect cannot occur.
pub proof fn lemma_dry_run_never_publishes(
    req: ChartOnboardRequest,
    phase: ChartPhase,
    event: ChartEvent,
)
    requires
        req.dry_run,
    ensures
        !(spec_step(req, phase, event).1 is PublishChart),
{
}

} // verus!
