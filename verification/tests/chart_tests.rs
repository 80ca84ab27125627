//! Chart request validation and the onboarding state machine.

use assimilate::chart::{
    ChartAction, ChartCmd, ChartEvent, ChartOnboardRequest, ChartPhase, ComponentType,
};
use assimilate::errors::ArgumentError;

fn chart_cmd(
    chart: Option<&str>,
    component: Option<&str>,
    name: Option<&str>,
    namespace: Option<&str>,
    dryrun: bool,
) -> ChartCmd {
    ChartCmd {
        repo: None,
        chart: chart.map(|s| s.to_string()),
        version: None,
        component: component.map(|s| s.to_string()),
        name: name.map(|s| s.to_string()),
        namespace: namespace.map(|s| s.to_string()),
        dryrun,
    }
}

/// Drives the machine from `Validated` with the given events, counting how
/// often a publish action is requested: a mock registry collaborator.
fn run_machine(req: &ChartOnboardRequest, events: Vec<ChartEvent>) -> (ChartPhase, usize) {
    let mut phase = ChartPhase::Validated;
    let mut publishes: usize = 0;
    for event in events {
        if matches!(phase, ChartPhase::Done | ChartPhase::Failed) {
            break;
        }
        let (next, action) = req.step(phase, event);
        if matches!(action, ChartAction::PublishChart(_)) {
            publishes += 1;
        }
        phase = next;
    }
    (phase, publishes)
}

#[test]
fn namespace_defaults_to_name() {
    let cmd = chart_cmd(Some("redis"), Some("applications"), Some("myredis"), None, false);
    let req = cmd.validate().unwrap();
    assert_eq!(req.namespace, "myredis");
    assert_eq!(req.chart, "redis");
    assert_eq!(req.name, "myredis");
    assert!(matches!(req.component, ComponentType::Applications));
}

#[test]
fn namespace_override_is_respected() {
    let cmd = chart_cmd(Some("redis"), Some("eks-addons"), Some("myredis"), Some("infra"), false);
    let req = cmd.validate().unwrap();
    assert_eq!(req.namespace, "infra");
    assert!(matches!(req.component, ComponentType::EksAddons));
}

#[test]
fn missing_chart_is_rejected() {
    let cmd = chart_cmd(None, Some("applications"), Some("myredis"), None, false);
    assert_eq!(cmd.validate().unwrap_err(), ArgumentError::MissingChart);
}

#[test]
fn missing_component_is_rejected() {
    let cmd = chart_cmd(Some("redis"), None, Some("myredis"), None, false);
    assert_eq!(cmd.validate().unwrap_err(), ArgumentError::MissingComponent);
}

#[test]
fn missing_name_is_rejected() {
    let cmd = chart_cmd(Some("redis"), Some("applications"), None, None, false);
    assert_eq!(cmd.validate().unwrap_err(), ArgumentError::MissingName);
}

#[test]
fn unknown_component_type_is_rejected() {
    let cmd = chart_cmd(Some("redis"), Some("gadgets"), Some("myredis"), None, false);
    assert_eq!(cmd.validate().unwrap_err(), ArgumentError::UnknownComponentType);
}

#[test]
fn dry_run_never_publishes() {
    let mut cmd = chart_cmd(Some("redis"), Some("applications"), Some("myredis"), None, true);
    cmd.version = None;
    let req = cmd.validate().unwrap();
    assert!(req.dry_run);
    let (phase, publishes) = run_machine(
        &req,
        vec![
            ChartEvent::Begin,
            ChartEvent::VersionResolved("1.2.3".to_string()),
            ChartEvent::FetchCompleted,
            ChartEvent::PublishCompleted,
        ],
    );
    assert_eq!(publishes, 0);
    assert!(matches!(phase, ChartPhase::Done));
}

#[test]
fn real_run_publishes_once() {
    let cmd = chart_cmd(Some("redis"), Some("applications"), Some("myredis"), None, false);
    let req = cmd.validate().unwrap();
    let (phase, publishes) = run_machine(
        &req,
        vec![
            ChartEvent::Begin,
            ChartEvent::VersionResolved("1.2.3".to_string()),
            ChartEvent::FetchCompleted,
            ChartEvent::PublishCompleted,
        ],
    );
    assert_eq!(publishes, 1);
    assert!(matches!(phase, ChartPhase::Done));
}

#[test]
fn explicit_version_skips_resolution() {
    let mut cmd = chart_cmd(Some("redis"), Some("applications"), Some("myredis"), None, false);
    cmd.version = Some("2.0.0".to_string());
    let req = cmd.validate().unwrap();
    let (next, action) = req.step(ChartPhase::Validated, ChartEvent::Begin);
    match action {
        ChartAction::FetchChart(v) => assert_eq!(v, "2.0.0"),
        _ => panic!("expected an immediate fetch of the pinned version"),
    }
    assert!(matches!(next, ChartPhase::VersionPinned(_)));
}

#[test]
fn latest_resolution_is_requested_when_unpinned() {
    let cmd = chart_cmd(Some("redis"), Some("applications"), Some("myredis"), None, false);
    let req = cmd.validate().unwrap();
    let (next, action) = req.step(ChartPhase::Validated, ChartEvent::Begin);
    assert!(matches!(action, ChartAction::ResolveLatestVersion));
    assert!(matches!(next, ChartPhase::Validated));
}

#[test]
fn collaborator_failure_ends_the_onboarding() {
    let cmd = chart_cmd(Some("redis"), Some("applications"), Some("myredis"), None, false);
    let req = cmd.validate().unwrap();
    let (next, action) = req.step(ChartPhase::Validated, ChartEvent::CollaboratorFailed);
    assert!(matches!(next, ChartPhase::Failed));
    assert!(matches!(action, ChartAction::ReportFailure));
}

#[test]
fn unexpected_event_fails_the_onboarding() {
    let cmd = chart_cmd(Some("redis"), Some("applications"), Some("myredis"), None, false);
    let req = cmd.validate().unwrap();
    let (next, action) = req.step(ChartPhase::Validated, ChartEvent::PublishCompleted);
    assert!(matches!(next, ChartPhase::Failed));
    assert!(matches!(action, ChartAction::ReportFailure));
}
