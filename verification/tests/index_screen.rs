use kptui::app::{App, Effect, Screen};
use kptui::config::Config;
use kptui::db::Entry;
use kptui::input::index::{finish_index_delete, handle_index_input};
use kptui::input::{KeyCode, KeyEvent, KeyModifiers};

fn entry(id: Option<u128>, name: &str, user: &str) -> Entry {
    Entry {
        id,
        name: name.to_string(),
        user: user.to_string(),
        password: String::from("pw"),
        url: String::new(),
        totp: String::new(),
        notes: String::new(),
        date_last_modify: String::new(),
    }
}

fn unlocked_app(entries: Vec<Entry>) -> App {
    let mut config = Config::default();
    config.default_database = Some(String::from("/tmp/vault.kdbx"));
    let mut app = App::new(config, false, String::new());
    app.entries = entries;
    app.vault_open = true;
    app.screen = Screen::Index;
    app.max_len = 64;
    app.refresh_filter();
    app
}

fn names(app: &App) -> Vec<String> {
    app.filtered.iter().map(|&i| app.entries[i].name.clone()).collect()
}

fn key(code: KeyCode) -> KeyEvent {
    KeyEvent::from(code)
}

fn ctrl(c: char) -> KeyEvent {
    KeyEvent::new(KeyCode::Char(c), KeyModifiers::CONTROL)
}

#[test]
fn list_is_sorted_by_name_ignoring_case() {
    let app = unlocked_app(vec![
        entry(Some(1), "beta", "x"),
        entry(Some(2), "Alpha", "y"),
        entry(Some(3), "alpha", "z"),
        entry(Some(4), "Gamma", "w"),
    ]);

    assert_eq!(names(&app), ["Alpha", "alpha", "beta", "Gamma"]);
    assert_eq!(app.index_selected, Some(0));
}

#[test]
fn typing_filters_by_name_or_user() {
    let mut app = unlocked_app(vec![
        entry(Some(1), "Mail", "bob"),
        entry(Some(2), "Bank", "alice"),
        entry(Some(3), "Shop", "BOBBY"),
    ]);

    for c in "bob".chars() {
        assert_eq!(handle_index_input(&mut app, key(KeyCode::Char(c))), Effect::Nothing);
    }

    assert_eq!(app.query, "bob");
    assert_eq!(names(&app), ["Mail", "Shop"]);

    handle_index_input(&mut app, key(KeyCode::Backspace));
    assert_eq!(app.query, "bo");
    handle_index_input(&mut app, key(KeyCode::Char('x')));
    assert!(app.filtered.is_empty());
    assert_eq!(app.index_selected, None);
}

#[test]
fn typing_stops_at_the_length_limit() {
    let mut app = unlocked_app(vec![entry(Some(1), "a", "")]);
    app.max_len = 2;

    handle_index_input(&mut app, key(KeyCode::Char('a')));
    handle_index_input(&mut app, key(KeyCode::Char('b')));
    handle_index_input(&mut app, key(KeyCode::Char('c')));

    assert_eq!(app.query, "ab");
}

#[test]
fn arrows_wrap_and_pages_stop_at_the_ends() {
    let mut app = unlocked_app(vec![
        entry(Some(1), "a", ""),
        entry(Some(2), "b", ""),
        entry(Some(3), "c", ""),
        entry(Some(4), "d", ""),
    ]);
    app.index_page_size = 2;

    handle_index_input(&mut app, key(KeyCode::Up));
    assert_eq!(app.index_selected, Some(3));
    handle_index_input(&mut app, key(KeyCode::Down));
    assert_eq!(app.index_selected, Some(0));
    handle_index_input(&mut app, key(KeyCode::PageDown));
    assert_eq!(app.index_selected, Some(2));
    handle_index_input(&mut app, key(KeyCode::PageDown));
    assert_eq!(app.index_selected, Some(3));
    handle_index_input(&mut app, key(KeyCode::PageUp));
    assert_eq!(app.index_selected, Some(1));
    handle_index_input(&mut app, key(KeyCode::Home));
    assert_eq!(app.index_selected, Some(0));
    handle_index_input(&mut app, key(KeyCode::End));
    assert_eq!(app.index_selected, Some(3));
}

#[test]
fn down_then_up_returns_to_the_row() {
    let mut app = unlocked_app(vec![entry(Some(1), "a", ""), entry(Some(2), "b", ""), entry(Some(3), "c", "")]);

    for _ in 0..3 {
        let before = app.index_selected;
        handle_index_input(&mut app, key(KeyCode::Down));
        handle_index_input(&mut app, key(KeyCode::Up));
        assert_eq!(app.index_selected, before);
        handle_index_input(&mut app, key(KeyCode::Down));
    }
}

#[test]
fn enter_opens_the_selected_entry() {
    let mut app = unlocked_app(vec![entry(Some(1), "b", "u1"), entry(Some(2), "a", "u2")]);

    handle_index_input(&mut app, key(KeyCode::Enter));

    assert_eq!(app.screen, Screen::Edit);
    assert_eq!(app.edit.target, Some(1));
    assert_eq!(app.edit.entry.as_ref().map(|e| e.name.clone()), Some(String::from("a")));
    assert_eq!(app.edit.selected, Some(0));
}

#[test]
fn escape_quits() {
    let mut app = unlocked_app(vec![]);

    handle_index_input(&mut app, key(KeyCode::Esc));

    assert!(app.should_quit);
}

#[test]
fn ctrl_d_asks_and_y_requests_the_deletion() {
    let mut app = unlocked_app(vec![entry(Some(7), "a", ""), entry(Some(9), "b", "")]);
    handle_index_input(&mut app, key(KeyCode::Down));

    assert_eq!(handle_index_input(&mut app, ctrl('d')), Effect::Nothing);
    assert_eq!(app.confirm_index_delete, Some(1));
    assert_eq!(app.status.as_deref(), Some("Delete this entry? [y] Confirm  [any other key] Cancel"));

    let effect = handle_index_input(&mut app, key(KeyCode::Char('Y')));
    assert_eq!(effect, Effect::DeleteEntry { index: 1, id: 9 });
    assert_eq!(app.confirm_index_delete, None);
    assert_eq!(app.status, None);

    finish_index_delete(&mut app, 1, Ok(()));
    assert_eq!(names(&app), ["a"]);
    assert_eq!(app.status.as_deref(), Some("Entry deleted"));
}

#[test]
fn other_key_cancels_the_deletion() {
    let mut app = unlocked_app(vec![entry(Some(7), "a", "")]);

    handle_index_input(&mut app, ctrl('d'));
    let effect = handle_index_input(&mut app, key(KeyCode::Char('n')));

    assert_eq!(effect, Effect::Nothing);
    assert_eq!(app.confirm_index_delete, None);
    assert_eq!(app.entries.len(), 1);
}

#[test]
fn deleting_from_a_locked_vault_is_refused() {
    let mut app = unlocked_app(vec![entry(Some(7), "a", "")]);
    app.vault_open = false;

    handle_index_input(&mut app, ctrl('d'));
    let effect = handle_index_input(&mut app, key(KeyCode::Char('y')));

    assert_eq!(effect, Effect::Nothing);
    assert_eq!(app.status.as_deref(), Some("Not deleted: database is locked"));
}

#[test]
fn failed_deletion_keeps_the_entry() {
    let mut app = unlocked_app(vec![entry(Some(7), "a", "")]);

    finish_index_delete(&mut app, 0, Err(String::from("disk full")));

    assert_eq!(app.entries.len(), 1);
    assert_eq!(app.status.as_deref(), Some("Failed to delete: disk full"));
}

#[test]
fn unsaved_entry_is_not_sent_for_deletion() {
    let mut app = unlocked_app(vec![entry(None, "draft", "")]);

    handle_index_input(&mut app, ctrl('d'));
    let effect = handle_index_input(&mut app, key(KeyCode::Char('y')));

    assert_eq!(effect, Effect::Nothing);
    assert_eq!(app.entries.len(), 1);
}

#[test]
fn ctrl_a_adds_and_ctrl_c_opens_settings() {
    let mut app = unlocked_app(vec![]);

    assert_eq!(handle_index_input(&mut app, ctrl('c')), Effect::OpenSettings);
    assert_eq!(handle_index_input(&mut app, ctrl('A')), Effect::Nothing);
    assert_eq!(app.screen, Screen::Edit);
    assert!(app.edit.editing_field);
    assert_eq!(app.edit.target, None);
    assert_eq!(app.edit.field_editor.as_ref().map(|f| f.text().to_string()), Some(String::new()));
}
