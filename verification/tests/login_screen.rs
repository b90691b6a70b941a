use kptui::app::{maybe_auto_lock, App, Effect, Screen};
use kptui::config::Config;
use kptui::db::Entry;
use kptui::input::login::{
    attempt_unlock, database_missing, finish_create, finish_unlock, handle_login_input,
    initialize_database, report_config_save,
};
use kptui::input::KeyCode;

fn entry(name: &str) -> Entry {
    Entry {
        id: Some(1),
        name: name.to_string(),
        user: String::new(),
        password: String::new(),
        url: String::new(),
        totp: String::new(),
        notes: String::new(),
        date_last_modify: String::new(),
    }
}

fn configured(password: &str) -> App {
    let mut config = Config::default();
    config.default_database = Some(String::from("/tmp/vault.kdbx"));
    let mut app = App::new(config, false, password.to_string());
    app.max_len = 64;
    app
}

fn type_text(app: &mut App, text: &str, exists: bool) {
    for c in text.chars() {
        assert_eq!(handle_login_input(app, KeyCode::Char(c), exists), Effect::Nothing);
    }
}

#[test]
fn enter_asks_to_unlock_and_success_opens_the_index() {
    let mut app = configured("");

    type_text(&mut app, "hunter2", true);
    assert_eq!(app.login.password, "hunter2");
    handle_login_input(&mut app, KeyCode::Backspace, true);
    assert_eq!(app.login.password, "hunter");

    assert_eq!(handle_login_input(&mut app, KeyCode::Enter, true), Effect::Unlock);

    finish_unlock(&mut app, Ok(vec![entry("b"), entry("a")]));
    assert_eq!(app.screen, Screen::Index);
    assert!(app.vault_open);
    assert_eq!(app.login.password, "");
    assert_eq!(app.filtered, vec![1, 0]);
    assert_eq!(app.index_selected, Some(0));
}

#[test]
fn failed_unlock_shows_the_error_and_wipes_the_password() {
    let mut app = configured("wrong");

    finish_unlock(&mut app, Err(String::from("Incorrect key")));

    assert_eq!(app.screen, Screen::Login);
    assert_eq!(app.login.password, "");
    assert_eq!(app.login.error.as_deref(), Some("Incorrect key"));
    assert!(!app.vault_open);
}

#[test]
fn unlock_without_a_configured_vault_is_refused() {
    let mut app = App::new(Config::default(), false, String::from("pw"));

    assert_eq!(attempt_unlock(&mut app), Effect::Nothing);
    assert_eq!(app.login.error.as_deref(), Some("No default_database set in configfile"));
}

#[test]
fn password_length_is_limited() {
    let mut app = configured("");
    app.max_len = 3;

    type_text(&mut app, "abcdef", true);

    assert_eq!(app.login.password, "abc");
}

#[test]
fn escape_quits_the_login() {
    let mut app = configured("");

    handle_login_input(&mut app, KeyCode::Esc, true);

    assert!(app.should_quit);
}

#[test]
fn missing_vault_is_detected() {
    let app = configured("");
    let unconfigured = App::new(Config::default(), false, String::new());

    assert!(database_missing(&app, false));
    assert!(!database_missing(&app, true));
    assert!(database_missing(&unconfigured, true));
}

#[test]
fn creating_a_vault_asks_for_the_password_twice() {
    let mut app = configured("");

    assert_eq!(handle_login_input(&mut app, KeyCode::Char('C'), false), Effect::Nothing);
    assert!(app.login.creating_database);

    assert_eq!(handle_login_input(&mut app, KeyCode::Enter, false), Effect::Nothing);
    assert_eq!(app.login.error.as_deref(), Some("Master password can't be empty"));

    type_text(&mut app, "pw", false);
    assert_eq!(app.login.error, None);
    handle_login_input(&mut app, KeyCode::Enter, false);
    assert!(app.login.confirming_new_db_password);

    type_text(&mut app, "px", false);
    handle_login_input(&mut app, KeyCode::Backspace, false);
    type_text(&mut app, "w", false);
    assert_eq!(app.login.new_db_confirm, "pw");
    assert_eq!(handle_login_input(&mut app, KeyCode::Enter, false), Effect::CreateDatabase);
}

#[test]
fn mismatched_confirmation_starts_the_confirmation_over() {
    let mut app = configured("");
    handle_login_input(&mut app, KeyCode::Char('c'), false);
    type_text(&mut app, "one", false);
    handle_login_input(&mut app, KeyCode::Enter, false);
    type_text(&mut app, "two", false);

    assert_eq!(handle_login_input(&mut app, KeyCode::Enter, false), Effect::Nothing);

    assert_eq!(app.login.error.as_deref(), Some("Passwords don't match"));
    assert_eq!(app.login.new_db_confirm, "");
    assert!(!app.login.confirming_new_db_password);
    assert_eq!(app.login.password, "one");
}

#[test]
fn escape_gives_up_creating() {
    let mut app = configured("");
    handle_login_input(&mut app, KeyCode::Char('c'), false);
    type_text(&mut app, "secret", false);

    handle_login_input(&mut app, KeyCode::Esc, false);

    assert!(!app.login.creating_database);
    assert_eq!(app.login.password, "");
}

#[test]
fn piped_password_creates_the_missing_vault_at_once() {
    let mut app = configured("piped");

    assert_eq!(handle_login_input(&mut app, KeyCode::Char('c'), false), Effect::CreateDatabase);
    assert_eq!(initialize_database(&mut app, false), Effect::CreateDatabase);
    assert_eq!(initialize_database(&mut app, true), Effect::Unlock);

    let mut empty = configured("");
    assert_eq!(initialize_database(&mut empty, true), Effect::Nothing);
}

#[test]
fn created_vault_opens_and_reports_the_config() {
    let mut app = App::new(Config::default(), false, String::from("pw"));

    let created = finish_create(&mut app, String::from("/home/me/new.kdbx"), Ok(vec![]));
    assert!(created);
    assert_eq!(app.config.default_database.as_deref(), Some("/home/me/new.kdbx"));
    assert_eq!(app.screen, Screen::Index);
    assert!(app.vault_open);
    assert_eq!(app.login.password, "");

    report_config_save(&mut app, "/home/me/new.kdbx", Ok(()));
    assert_eq!(app.status.as_deref(), Some("Created new database at /home/me/new.kdbx"));

    report_config_save(&mut app, "/home/me/new.kdbx", Err(String::from("read-only")));
    assert_eq!(app.status.as_deref(), Some("Database created, but couldn't save config: read-only"));
}

#[test]
fn failed_creation_is_reported() {
    let mut app = configured("pw");

    let created = finish_create(&mut app, String::from("/nope/x.kdbx"), Err(String::from("permission denied")));

    assert!(!created);
    assert_eq!(app.login.error.as_deref(), Some("Couldn't create database: permission denied"));
    assert_eq!(app.login.password, "");
    assert_eq!(app.screen, Screen::Login);
    assert_eq!(app.config.default_database.as_deref(), Some("/tmp/vault.kdbx"));
}

#[test]
fn idle_vault_locks_and_wipes_everything() {
    let mut app = configured("pw");
    finish_unlock(&mut app, Ok(vec![entry("a")]));
    app.query = String::from("a");

    assert!(!maybe_auto_lock(&mut app, 299));
    assert!(app.vault_open);

    assert!(maybe_auto_lock(&mut app, 300));
    assert_eq!(app.screen, Screen::Login);
    assert!(!app.vault_open);
    assert!(app.entries.is_empty());
    assert!(app.filtered.is_empty());
    assert_eq!(app.query, "");
    assert_eq!(app.login.error.as_deref(), Some("Locked after inactivity"));
}

#[test]
fn login_screen_never_locks() {
    let mut app = configured("");

    assert!(!maybe_auto_lock(&mut app, 100_000));
    assert_eq!(app.login.error, None);
}

#[test]
fn forgetting_the_vault_wipes_what_was_read_and_typed() {
    let mut app = configured("pw");
    finish_unlock(&mut app, Ok(vec![entry("a"), entry("b")]));
    kptui::input::index::handle_index_input(&mut app, kptui::input::KeyEvent::from(KeyCode::Enter));
    assert!(app.edit.entry.is_some());

    kptui::app::forget_vault(&mut app);

    assert!(app.entries.is_empty());
    assert!(app.edit.entry.is_none());
    assert!(app.edit.original.is_none());
    assert!(!app.vault_open);
    assert_eq!(app.login.password, "");
}
