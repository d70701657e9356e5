use via::auth::{init, resolve_api_key, AuthConfig};

fn stored(api_key: &str) -> Result<Option<AuthConfig>, String> {
    Ok(Some(AuthConfig { api_key: api_key.to_string() }))
}

#[test]
fn resolver_prefers_env_var_over_stored_config() {
    let resolved = resolve_api_key(Some("env_key"), stored("stored_key")).unwrap();
    assert_eq!(resolved.as_deref(), Some("env_key"));
}

#[test]
fn resolver_uses_stored_config_when_env_unset() {
    let resolved = resolve_api_key(None, stored("stored_key")).unwrap();
    assert_eq!(resolved.as_deref(), Some("stored_key"));
}

#[test]
fn resolver_returns_none_without_env_or_config() {
    let resolved = resolve_api_key(None, Ok(None)).unwrap();
    assert_eq!(resolved, None);
}

#[test]
fn blank_keys_count_as_missing() {
    assert_eq!(
        resolve_api_key(Some("  "), stored(" stored_key \n")).unwrap().as_deref(),
        Some("stored_key")
    );
    assert_eq!(resolve_api_key(Some(""), stored(" \t")).unwrap(), None);
    assert_eq!(resolve_api_key(None, Err("broken".to_string())), Err("broken".to_string()));
    assert_eq!(
        resolve_api_key(Some("env_key"), Err("broken".to_string())).unwrap().as_deref(),
        Some("env_key")
    );
}

#[test]
fn entered_keys_are_trimmed_and_not_empty() {
    assert_eq!(init(" via_test_key \n").unwrap().api_key, "via_test_key");
    assert!(init("  \n").is_err());
}
