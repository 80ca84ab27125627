//! Loading and serializing configuration text against the strict schema.

use assimilate::codec::{config_to_toml, parse_config_str};
use assimilate::config::AssimilateConfig;
use assimilate::errors::ConfigError;

#[test]
fn serialize_writes_exact_text() {
    let c = AssimilateConfig::with_recipient("alice".to_string());
    assert_eq!(config_to_toml(&c), "[hello]\nrecipient = \"alice\"\n");
}

#[test]
fn load_then_store_round_trips() {
    let text = "[hello]\nrecipient = \"alice\"\n";
    let loaded = parse_config_str(text).unwrap();
    assert_eq!(loaded.hello.recipient, "alice");
    let stored = config_to_toml(&loaded);
    let reloaded = parse_config_str(&stored).unwrap();
    assert_eq!(reloaded.hello.recipient, "alice");
}

#[test]
fn parse_reads_known_fields() {
    let loaded = parse_config_str("[hello]\nrecipient = \"bob\"\n").unwrap();
    assert_eq!(loaded.hello.recipient, "bob");
}

#[test]
fn blank_and_comment_lines_are_skipped() {
    let text = "# greeting settings\n\n[hello]\nrecipient = \"carol\"\n";
    let loaded = parse_config_str(text).unwrap();
    assert_eq!(loaded.hello.recipient, "carol");
}

#[test]
fn empty_value_is_preserved() {
    let loaded = parse_config_str("[hello]\nrecipient = \"\"\n").unwrap();
    assert_eq!(loaded.hello.recipient, "");
    let stored = config_to_toml(&loaded);
    let reloaded = parse_config_str(&stored).unwrap();
    assert_eq!(reloaded.hello.recipient, "");
}

#[test]
fn unknown_key_is_rejected() {
    let text = "[hello]\nrecipient = \"a\"\nextra = \"b\"\n";
    assert_eq!(parse_config_str(text).unwrap_err(), ConfigError::UnknownField);
}

#[test]
fn unknown_section_is_rejected() {
    let text = "[goodbye]\nrecipient = \"a\"\n";
    assert_eq!(parse_config_str(text).unwrap_err(), ConfigError::UnknownField);
}

#[test]
fn top_level_key_is_rejected() {
    let text = "recipient = \"a\"\n[hello]\nrecipient = \"b\"\n";
    assert_eq!(parse_config_str(text).unwrap_err(), ConfigError::UnknownField);
}

#[test]
fn malformed_line_is_rejected() {
    let text = "[hello]\nrecipient = unquoted\n";
    assert_eq!(parse_config_str(text).unwrap_err(), ConfigError::Malformed);
}

#[test]
fn duplicate_key_is_rejected() {
    let text = "[hello]\nrecipient = \"a\"\nrecipient = \"b\"\n";
    assert_eq!(parse_config_str(text).unwrap_err(), ConfigError::DuplicateField);
}

#[test]
fn duplicate_section_is_rejected() {
    let text = "[hello]\n[hello]\nrecipient = \"a\"\n";
    assert_eq!(parse_config_str(text).unwrap_err(), ConfigError::DuplicateField);
}

#[test]
fn missing_recipient_is_rejected() {
    assert_eq!(parse_config_str("[hello]\n").unwrap_err(), ConfigError::MissingField);
}

#[test]
fn empty_file_is_rejected() {
    assert_eq!(parse_config_str("").unwrap_err(), ConfigError::MissingField);
}
