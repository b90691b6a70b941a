use kptui::app::{App, Effect, Screen};
use kptui::config::Config;
use kptui::db::Entry;
use kptui::input::edit::{finish_edit_delete, finish_save, handle_edit_input};
use kptui::input::index::handle_index_input;
use kptui::input::{KeyCode, KeyEvent, KeyModifiers};

fn entry(id: Option<u128>, name: &str) -> Entry {
    Entry {
        id,
        name: name.to_string(),
        user: String::from("user"),
        password: String::from("secret"),
        url: String::from("https://example.org"),
        totp: String::new(),
        notes: String::from("line one"),
        date_last_modify: String::from("2024-01-01 10:00:00"),
    }
}

fn opened(entries: Vec<Entry>) -> App {
    let mut config = Config::default();
    config.default_database = Some(String::from("/tmp/vault.kdbx"));
    let mut app = App::new(config, false, String::new());
    app.entries = entries;
    app.vault_open = true;
    app.screen = Screen::Index;
    app.max_len = 64;
    app.refresh_filter();
    handle_index_input(&mut app, KeyEvent::from(KeyCode::Enter));
    app
}

fn press(app: &mut App, code: KeyCode) -> Effect {
    handle_edit_input(app, KeyEvent::from(code))
}

fn type_text(app: &mut App, text: &str) {
    for c in text.chars() {
        press(app, KeyCode::Char(c));
    }
}

#[test]
fn escape_without_changes_closes_at_once() {
    let mut app = opened(vec![entry(Some(1), "mail")]);

    assert_eq!(press(&mut app, KeyCode::Esc), Effect::Nothing);

    assert_eq!(app.screen, Screen::Index);
    assert!(app.edit.entry.is_none());
    assert!(!app.edit.confirm_exit);
}

#[test]
fn edited_field_is_saved_on_confirmation() {
    let mut app = opened(vec![entry(Some(1), "mail")]);

    press(&mut app, KeyCode::Enter);
    assert!(app.edit.editing_field);
    press(&mut app, KeyCode::End);
    type_text(&mut app, "box");
    press(&mut app, KeyCode::Enter);
    assert!(!app.edit.editing_field);
    assert_eq!(app.edit.entry.as_ref().unwrap().name, "mailbox");

    press(&mut app, KeyCode::Esc);
    assert!(app.edit.confirm_exit);
    assert_eq!(app.status.as_deref(), Some("Save changes? [y] yes  [n] no"));

    let effect = press(&mut app, KeyCode::Char('y'));
    assert_eq!(effect, Effect::SaveEntry { index: 0 });
    assert_eq!(app.screen, Screen::Index);
    assert_eq!(app.entries[0].name, "mailbox");

    finish_save(&mut app, 0, Some((1, String::from("2024-02-02 12:00:00"))), Ok(()));
    assert_eq!(app.status.as_deref(), Some("Saved"));
    assert_eq!(app.entries[0].date_last_modify, "2024-02-02 12:00:00");
}

#[test]
fn discarded_changes_leave_the_list_alone() {
    let mut app = opened(vec![entry(Some(1), "mail")]);

    press(&mut app, KeyCode::Down);
    press(&mut app, KeyCode::Enter);
    type_text(&mut app, "x");
    press(&mut app, KeyCode::Enter);
    press(&mut app, KeyCode::Esc);
    let effect = press(&mut app, KeyCode::Char('n'));

    assert_eq!(effect, Effect::Nothing);
    assert_eq!(app.screen, Screen::Index);
    assert_eq!(app.entries[0].user, "user");
    assert_eq!(app.status.as_deref(), Some("Changes discarded"));
}

#[test]
fn escape_in_the_save_question_goes_back() {
    let mut app = opened(vec![entry(Some(1), "mail")]);

    press(&mut app, KeyCode::Enter);
    type_text(&mut app, "x");
    press(&mut app, KeyCode::Enter);
    press(&mut app, KeyCode::Esc);
    press(&mut app, KeyCode::Esc);

    assert_eq!(app.screen, Screen::Edit);
    assert!(!app.edit.confirm_exit);
    assert_eq!(app.status, None);
}

#[test]
fn escape_in_a_field_keeps_the_old_value() {
    let mut app = opened(vec![entry(Some(1), "mail")]);

    press(&mut app, KeyCode::Enter);
    type_text(&mut app, "zzz");
    press(&mut app, KeyCode::Esc);

    assert!(!app.edit.editing_field);
    assert!(app.edit.field_editor.is_none());
    assert_eq!(app.edit.entry.as_ref().unwrap().name, "mail");
}

#[test]
fn rows_wrap_around_and_modified_is_not_editable() {
    let mut app = opened(vec![entry(Some(1), "mail")]);

    press(&mut app, KeyCode::Up);
    assert_eq!(app.edit.selected, Some(6));
    press(&mut app, KeyCode::Down);
    assert_eq!(app.edit.selected, Some(0));

    for _ in 0..5 {
        press(&mut app, KeyCode::Down);
    }
    press(&mut app, KeyCode::Enter);
    assert!(!app.edit.editing_field);
    assert_eq!(app.status.as_deref(), Some("Last modified is set automatically"));
}

#[test]
fn password_opens_revealed_and_notes_are_multiline() {
    let mut app = opened(vec![entry(Some(1), "mail")]);

    press(&mut app, KeyCode::Down);
    press(&mut app, KeyCode::Down);
    press(&mut app, KeyCode::Enter);
    assert!(app.edit.reveal_password);
    assert_eq!(app.edit.field_editor.as_ref().unwrap().text(), "secret");
    press(&mut app, KeyCode::Esc);

    press(&mut app, KeyCode::Up);
    press(&mut app, KeyCode::Up);
    press(&mut app, KeyCode::Up);
    assert_eq!(app.edit.selected, Some(6));
    press(&mut app, KeyCode::Enter);
    assert!(app.edit.field_editor.as_ref().unwrap().is_multiline());
    press(&mut app, KeyCode::End);
    press(&mut app, KeyCode::Enter);
    type_text(&mut app, "two");
    let effect = handle_edit_input(&mut app, KeyEvent::new(KeyCode::Char('s'), KeyModifiers::CONTROL));
    assert_eq!(effect, Effect::Nothing);
    assert_eq!(app.edit.entry.as_ref().unwrap().notes, "line one\ntwo");
}

#[test]
fn v_toggles_password_visibility() {
    let mut app = opened(vec![entry(Some(1), "mail")]);

    press(&mut app, KeyCode::Char('v'));
    assert!(app.edit.reveal_password);
    press(&mut app, KeyCode::Char('V'));
    assert!(!app.edit.reveal_password);
}

#[test]
fn new_entry_with_blank_name_is_dropped() {
    let mut app = opened(vec![]);
    handle_index_input(&mut app, KeyEvent::new(KeyCode::Char('a'), KeyModifiers::CONTROL));
    type_text(&mut app, "   ");
    press(&mut app, KeyCode::Enter);
    press(&mut app, KeyCode::Esc);
    let effect = press(&mut app, KeyCode::Char('y'));

    assert_eq!(effect, Effect::Nothing);
    assert!(app.entries.is_empty());
    assert_eq!(app.screen, Screen::Index);
}

#[test]
fn new_entry_with_a_name_is_appended_and_saved() {
    let mut app = opened(vec![entry(Some(1), "zeta")]);
    press(&mut app, KeyCode::Esc);
    handle_index_input(&mut app, KeyEvent::new(KeyCode::Char('a'), KeyModifiers::CONTROL));
    type_text(&mut app, "alpha");
    press(&mut app, KeyCode::Enter);
    press(&mut app, KeyCode::Esc);
    let effect = press(&mut app, KeyCode::Char('y'));

    assert_eq!(effect, Effect::SaveEntry { index: 1 });
    assert_eq!(app.entries.len(), 2);
    assert_eq!(app.filtered, vec![1, 0]);
}

#[test]
fn saving_into_a_locked_vault_says_so() {
    let mut app = opened(vec![entry(Some(1), "mail")]);
    app.vault_open = false;

    press(&mut app, KeyCode::Enter);
    type_text(&mut app, "x");
    press(&mut app, KeyCode::Enter);
    press(&mut app, KeyCode::Esc);
    let effect = press(&mut app, KeyCode::Char('y'));

    assert_eq!(effect, Effect::Nothing);
    assert_eq!(app.status.as_deref(), Some("Not saved: database is locked"));
}

#[test]
fn failed_save_is_reported() {
    let mut app = opened(vec![entry(Some(1), "mail")]);

    finish_save(&mut app, 0, None, Err(String::from("entry no longer exists in the database")));

    assert_eq!(
        app.status.as_deref(),
        Some("Failed to save: entry no longer exists in the database")
    );
    assert_eq!(app.entries[0].date_last_modify, "2024-01-01 10:00:00");
}

#[test]
fn delete_asks_then_requests_removal() {
    let mut app = opened(vec![entry(Some(5), "mail")]);

    press(&mut app, KeyCode::Char('d'));
    assert!(app.edit.confirm_delete);
    assert_eq!(app.status.as_deref(), Some("Delete this entry? [y] confirm  [any other key] cancel"));

    let effect = press(&mut app, KeyCode::Char('y'));
    assert_eq!(effect, Effect::DeleteEditedEntry { id: 5 });

    finish_edit_delete(&mut app, Ok(()));
    assert!(app.entries.is_empty());
    assert_eq!(app.screen, Screen::Index);
    assert_eq!(app.status.as_deref(), Some("Entry deleted"));
}

#[test]
fn delete_is_cancelled_by_another_key() {
    let mut app = opened(vec![entry(Some(5), "mail")]);

    press(&mut app, KeyCode::Char('d'));
    let effect = press(&mut app, KeyCode::Char('q'));

    assert_eq!(effect, Effect::Nothing);
    assert!(!app.edit.confirm_delete);
    assert_eq!(app.status, None);
    assert_eq!(app.screen, Screen::Edit);
}

#[test]
fn failed_delete_keeps_the_entry_open() {
    let mut app = opened(vec![entry(Some(5), "mail")]);

    press(&mut app, KeyCode::Char('d'));
    press(&mut app, KeyCode::Char('y'));
    finish_edit_delete(&mut app, Err(String::from("io error")));

    assert_eq!(app.status.as_deref(), Some("Failed to delete: io error"));
    assert_eq!(app.screen, Screen::Edit);
    assert_eq!(app.entries.len(), 1);
}

#[test]
fn deleting_from_a_locked_vault_in_the_editor_is_refused() {
    let mut app = opened(vec![entry(Some(5), "mail")]);
    app.vault_open = false;

    press(&mut app, KeyCode::Char('d'));
    let effect = press(&mut app, KeyCode::Char('y'));

    assert_eq!(effect, Effect::Nothing);
    assert_eq!(app.status.as_deref(), Some("Not deleted: database is locked"));
    assert!(app.edit.entry.is_some());
}

#[test]
fn deleting_an_unsaved_entry_needs_no_vault() {
    let mut app = opened(vec![entry(None, "draft"), entry(Some(2), "kept")]);

    press(&mut app, KeyCode::Char('d'));
    let effect = press(&mut app, KeyCode::Char('y'));

    assert_eq!(effect, Effect::Nothing);
    assert_eq!(app.entries.len(), 1);
    assert_eq!(app.entries[0].name, "kept");
    assert_eq!(app.status.as_deref(), Some("Entry deleted"));
}
