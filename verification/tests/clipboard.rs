use kptui::app::{App, Screen};
use kptui::clipboard::{cp_password, cp_totp, cp_url, cp_user, maybe_clear_clipboard, report_clear, report_copy};
use kptui::config::Config;
use kptui::db::Entry;

fn app_with(totp: &str) -> App {
    let mut app = App::new(Config::default(), false, String::new());
    app.entries = vec![Entry {
        id: Some(3),
        name: String::from("bank"),
        user: String::from("alice"),
        password: String::from("s3cret"),
        url: String::from("https://bank.example"),
        totp: totp.to_string(),
        notes: String::new(),
        date_last_modify: String::new(),
    }];
    app.vault_open = true;
    app.screen = Screen::Index;
    app.refresh_filter();
    app
}

#[test]
fn copies_the_selected_fields() {
    let app = app_with("");

    let user = cp_user(&app).expect("user");
    assert_eq!((user.label.as_str(), user.text.as_str()), ("user", "alice"));
    let password = cp_password(&app).expect("password");
    assert_eq!((password.label.as_str(), password.text.as_str()), ("password", "s3cret"));
    let url = cp_url(&app).expect("url");
    assert_eq!((url.label.as_str(), url.text.as_str()), ("URL", "https://bank.example"));
}

#[test]
fn nothing_is_copied_without_a_selection() {
    let mut app = app_with("");
    app.index_selected = None;

    assert!(cp_user(&app).is_none());
    assert!(cp_password(&app).is_none());
    assert!(cp_url(&app).is_none());
    assert!(cp_totp(&mut app).is_none());
    assert_eq!(app.status, None);
}

#[test]
fn missing_totp_is_reported() {
    let mut app = app_with("");

    assert!(cp_totp(&mut app).is_none());
    assert_eq!(app.status.as_deref(), Some("No valid TOTP configured for this entry"));
    assert!(app.clipboard_timer.is_none());
}

#[test]
fn totp_code_is_copied() {
    let mut app = app_with("otpauth://totp/bank?secret=JBSWY3DPEHPK3PXP&period=30&digits=6");

    let request = cp_totp(&mut app).expect("a code");

    assert_eq!(request.label, "TOTP code");
    assert_eq!(request.text.len(), 6);
}

#[test]
fn zero_period_totp_has_no_code() {
    let mut app = app_with("otpauth://totp/bank?secret=JBSWY3DPEHPK3PXP&period=0&digits=6");

    assert!(cp_totp(&mut app).is_none());
    assert_eq!(app.status.as_deref(), Some("No valid TOTP configured for this entry"));
}

#[test]
fn copy_sets_a_timer_and_clears_when_due() {
    let mut app = app_with("");

    report_copy(&mut app, "password", "s3cret", 5_000, Ok(()));
    assert_eq!(app.status, None);
    let timer = app.clipboard_timer.as_ref().expect("timer");
    assert_eq!((timer.label.as_str(), timer.expected.as_str(), timer.clear_at), ("password", "s3cret", 5_000));

    assert_eq!(maybe_clear_clipboard(&mut app, 4_999), None);
    assert!(app.clipboard_timer.is_some());

    assert_eq!(maybe_clear_clipboard(&mut app, 5_000), Some(String::from("s3cret")));
    assert!(app.clipboard_timer.is_none());
    assert_eq!(maybe_clear_clipboard(&mut app, 9_000), None);

    report_clear(&mut app, Ok(()));
    assert_eq!(app.status.as_deref(), Some("Clipboard cleared"));
    report_clear(&mut app, Err(String::from("busy")));
    assert_eq!(app.status.as_deref(), Some("Couldn't clear clipboard: busy"));
}

#[test]
fn failed_copy_is_reported() {
    let mut app = app_with("");
    report_copy(&mut app, "user", "alice", 1, Ok(()));

    report_copy(&mut app, "URL", "x", 2, Err(String::from("no display")));

    assert!(app.clipboard_timer.is_none());
    assert_eq!(app.status.as_deref(), Some("Failed to copy URL: no display"));
}
