//! Path selection, loading, and override resolution of the dispatcher.

use assimilate::chart::ChartCmd;
use assimilate::commands::{default_config_path, AssimilateCmd, EntryPoint, PreparedCmd};
use assimilate::config::AssimilateConfig;
use assimilate::errors::{ArgumentError, AssimilateError, ConfigError};
use assimilate::start::StartCmd;

fn start_entry(recipient: Vec<String>, config: Option<String>) -> EntryPoint {
    EntryPoint { cmd: AssimilateCmd::Start(StartCmd { recipient }), verbose: false, config }
}

fn chart_cmd_all_set() -> ChartCmd {
    ChartCmd {
        repo: None,
        chart: Some("redis".to_string()),
        version: None,
        component: Some("applications".to_string()),
        name: Some("myredis".to_string()),
        namespace: None,
        dryrun: false,
    }
}

#[test]
fn default_config_is_world() {
    let c = AssimilateConfig::default();
    assert_eq!(c.hello.recipient, "world");
}

#[test]
fn default_path_is_under_home() {
    assert_eq!(
        default_config_path("/home/someone"),
        "/home/someone/.config/assimilate/config.toml"
    );
}

#[test]
fn explicit_path_always_wins() {
    let ep = start_entry(vec![], Some("/tmp/mine.toml".to_string()));
    let default = "/home/someone/.config/assimilate/config.toml".to_string();
    assert_eq!(ep.config_path(&default, true), Some("/tmp/mine.toml".to_string()));
    assert_eq!(ep.config_path(&default, false), Some("/tmp/mine.toml".to_string()));
}

#[test]
fn default_path_used_only_if_it_exists() {
    let ep = start_entry(vec![], None);
    let default = "/home/someone/.config/assimilate/config.toml".to_string();
    assert_eq!(ep.config_path(&default, true), Some(default.clone()));
    assert_eq!(ep.config_path(&default, false), None);
}

#[test]
fn unreadable_selected_path_is_fatal() {
    // An explicit path that cannot be read fails the load outright ...
    let r = EntryPoint::load_config(true, None);
    assert_eq!(r.unwrap_err(), ConfigError::Unreadable);
}

#[test]
fn no_selected_path_yields_defaults() {
    // ... while no selected path at all silently yields the defaults.
    let c = EntryPoint::load_config(false, None).unwrap();
    assert_eq!(c.hello.recipient, "world");
}

#[test]
fn file_recipient_stands_without_flags() {
    let ep = start_entry(vec![], None);
    let text = "[hello]\nrecipient = \"alice\"\n";
    let resolved = ep.resolve_effective_config(true, Some(text)).unwrap();
    assert_eq!(resolved.hello.recipient, "alice");
}

#[test]
fn set_flag_wins_over_file() {
    let ep = start_entry(vec!["team".to_string(), "rocket".to_string()], None);
    let text = "[hello]\nrecipient = \"alice\"\n";
    let resolved = ep.resolve_effective_config(true, Some(text)).unwrap();
    assert_eq!(resolved.hello.recipient, "team rocket");
}

#[test]
fn set_flag_wins_over_defaults() {
    let ep = start_entry(vec!["moon".to_string()], None);
    let resolved = ep.resolve_effective_config(false, None).unwrap();
    assert_eq!(resolved.hello.recipient, "moon");
}

#[test]
fn unset_flags_keep_defaults() {
    let ep = start_entry(vec![], None);
    let resolved = ep.resolve_effective_config(false, None).unwrap();
    assert_eq!(resolved.hello.recipient, "world");
}

#[test]
fn chart_override_keeps_loaded_config() {
    let ep = EntryPoint {
        cmd: AssimilateCmd::Chart(chart_cmd_all_set()),
        verbose: false,
        config: None,
    };
    let text = "[hello]\nrecipient = \"alice\"\n";
    let resolved = ep.resolve_effective_config(true, Some(text)).unwrap();
    assert_eq!(resolved.hello.recipient, "alice");
}

#[test]
fn bad_file_aborts_resolution() {
    let ep = start_entry(vec![], None);
    let text = "[hello]\nrecipient = \"a\"\nsurprise = \"b\"\n";
    let err = ep.resolve_effective_config(true, Some(text)).unwrap_err();
    assert_eq!(err, AssimilateError::Config(ConfigError::UnknownField));
}

#[test]
fn prepare_rejects_arguments_before_loading() {
    let mut chart = chart_cmd_all_set();
    chart.chart = None;
    let ep = EntryPoint { cmd: AssimilateCmd::Chart(chart), verbose: false, config: None };
    // Even with unreadable file contents, the argument error wins.
    let err = ep.prepare(true, None).unwrap_err();
    assert_eq!(err, AssimilateError::Argument(ArgumentError::MissingChart));
}

#[test]
fn prepare_hands_over_validated_request() {
    let ep = EntryPoint {
        cmd: AssimilateCmd::Chart(chart_cmd_all_set()),
        verbose: false,
        config: None,
    };
    let (plan, effective) = ep.prepare(false, None).unwrap();
    assert_eq!(effective.hello.recipient, "world");
    match plan {
        PreparedCmd::Chart(req) => {
            assert_eq!(req.chart, "redis");
            assert_eq!(req.namespace, "myredis");
        },
        PreparedCmd::Start => panic!("chart invocation prepared a start plan"),
    }
}

#[test]
fn prepare_runs_start_with_overrides() {
    let ep = start_entry(vec!["sun".to_string()], None);
    let (plan, effective) = ep.prepare(false, None).unwrap();
    assert!(matches!(plan, PreparedCmd::Start));
    assert_eq!(effective.hello.recipient, "sun");
}
