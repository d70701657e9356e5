use via::process::shell_quote;
use via::release::{
    normalize_release_version, parse_latest_release_version, update_shell_command, version_newer,
};
use via::ssh::remote_install_command;
use via::util::{format_ts, normalize_slug};

#[test]
fn parses_latest_release_version() {
    let body = r#"{"tag_name":"v0.1.2"}"#;
    assert_eq!(parse_latest_release_version(body).as_deref(), Some("0.1.2"));
}

#[test]
fn compares_versions() {
    assert!(version_newer("0.1.1", "0.1.0"));
    assert!(version_newer("v0.2.0", "0.1.9"));
    assert!(!version_newer("0.1.0", "0.1.0"));
    assert!(!version_newer("0.1.0", "0.1.1"));
}

#[test]
fn update_shell_command_pins_version() {
    let command = update_shell_command("0.1.0");
    assert!(command.contains("bash -s -- 0.1.0"));
    assert!(command.contains("curl"));
    assert!(command.contains("wget"));
}

#[test]
fn release_versions_are_shell_safe() {
    assert_eq!(normalize_release_version("v0.1.0").unwrap(), "0.1.0");
    assert_eq!(
        normalize_release_version("0.1.0-rc.1").unwrap(),
        "0.1.0-rc.1"
    );
    assert!(normalize_release_version("0.1.0; echo no").is_err());
    assert!(normalize_release_version("").is_err());
}

#[test]
fn shell_quote_handles_spaces_and_quotes() {
    assert_eq!(shell_quote("a b"), "'a b'");
    assert_eq!(shell_quote("a'b"), "'a'\\''b'");
    assert_eq!(shell_quote(""), "''");
}

#[test]
fn remote_install_command_uses_release_installer() {
    let command = remote_install_command("0.1.0");
    assert!(command.contains("raw.githubusercontent.com/pompeii-labs/via/main/install.sh"));
    assert!(command.contains("bash -s -- 0.1.0"));
    assert!(command.contains("curl"));
    assert!(command.contains("wget"));
    assert!(!command.contains("cargo"));
    assert!(!command.contains("rsync"));
}

#[test]
fn normalizes_hostnames() {
    assert_eq!(
        normalize_slug("Mattys-MacBook-Pro.local").unwrap(),
        "mattys-macbook-pro"
    );
    assert_eq!(normalize_slug("mac mini.local").unwrap(), "mac-mini");
    assert_eq!(
        normalize_slug("root@203.0.113.10").unwrap(),
        "root-203-0-113-10"
    );
}

#[test]
fn formats_unix_timestamps_for_display() {
    let formatted = format_ts(0);
    assert_ne!(formatted, "0");
    assert!(formatted.contains(':'));
}
