use kptui::config::{load_app_config, Config, AUTO_LOCK};

#[test]
fn defaults_lock_after_five_minutes() {
    let config = Config::default();

    assert_eq!(config.default_database, None);
    assert_eq!(config.keyfile, None);
    assert_eq!(config.auto_lock, AUTO_LOCK);
    assert_eq!(AUTO_LOCK, 300);
    assert_eq!(config.theme, None);
}

#[test]
fn file_values_fill_the_settings() {
    let config = Config::from_file_values(
        Some(String::from("/tmp/passwords.kdbx")),
        Some(String::from("/tmp/passwords.keyx")),
        None,
        Some(String::from("dark.toml")),
    );

    assert_eq!(config.default_database.as_deref(), Some("/tmp/passwords.kdbx"));
    assert_eq!(config.keyfile.as_deref(), Some("/tmp/passwords.keyx"));
    assert_eq!(config.auto_lock, 300);
    assert_eq!(config.theme.as_deref(), Some("dark.toml"));
    assert_eq!(Config::from_file_values(None, None, Some(60), None).auto_lock, 60);
}

#[test]
fn default_vault_is_used_when_none_is_configured() {
    let (config, save) = load_app_config(None, String::from("/home/me/default.kdbx"), true);

    assert!(save);
    assert_eq!(config.default_database.as_deref(), Some("/home/me/default.kdbx"));
    assert_eq!(config.auto_lock, 300);
}

#[test]
fn configured_vault_or_missing_default_is_kept() {
    let configured = Config::from_file_values(Some(String::from("/a.kdbx")), None, Some(10), None);
    let (config, save) = load_app_config(Some(configured), String::from("/home/me/default.kdbx"), true);
    assert!(!save);
    assert_eq!(config.default_database.as_deref(), Some("/a.kdbx"));
    assert_eq!(config.auto_lock, 10);

    let (config, save) = load_app_config(None, String::from("/home/me/default.kdbx"), false);
    assert!(!save);
    assert_eq!(config.default_database, None);
}
