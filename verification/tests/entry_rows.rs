use kptui::app::{App, Screen};
use kptui::config::Config;
use kptui::db::Entry;
use kptui::input::edit::NOTES_INDEX;
use kptui::input::fieldedit::FieldEditor;
use kptui::input::index::handle_index_input;
use kptui::input::{KeyCode, KeyEvent};
use kptui::ui::edit::{edit_rows, edit_title, follow_notes_cursor, notes_cursor, notes_scroll};
use kptui::warnings::{reuse_counts, reuse_of_entry};

fn entry(name: &str, user: &str, password: &str) -> Entry {
    Entry {
        id: Some(1),
        name: name.to_string(),
        user: user.to_string(),
        password: password.to_string(),
        url: String::from("https://example.org"),
        totp: String::new(),
        notes: String::new(),
        date_last_modify: String::from("2024-01-01 10:00:00"),
    }
}

fn opened(entries: Vec<Entry>) -> App {
    let mut app = App::new(Config::default(), false, String::new());
    app.entries = entries;
    app.vault_open = true;
    app.screen = Screen::Index;
    app.max_len = 64;
    app.refresh_filter();
    handle_index_input(&mut app, KeyEvent::from(KeyCode::Enter));
    app
}

#[test]
fn reuse_is_counted_per_entry() {
    let entries = vec![
        entry("a", "u", "p"),
        entry("b", "u", "q"),
        entry("c", "", ""),
        entry("d", "", "p"),
    ];
    assert_eq!(reuse_counts(&entries), vec![(2, 2), (2, 1), (0, 0), (0, 2)]);
    assert_eq!(reuse_of_entry(&entries, &entry("x", "u", "z")), (2, 0));
    assert_eq!(reuse_counts(&Vec::new()), Vec::<(usize, usize)>::new());
}

#[test]
fn rows_mark_shared_user_names_and_passwords() {
    let app = opened(vec![entry("mail", "user", "secret"), entry("shop", "user", "secret")]);
    let rows = edit_rows(&app, None);
    assert_eq!(
        rows,
        vec![
            "Name: mail",
            "User: user [2]",
            "Password: •••••••• [2]",
            "URL: https://example.org",
            "TOTP: (empty)",
            "Modified: 2024-01-01 10:00:00",
        ]
    );
    assert_eq!(edit_title(&app), " Entry ");
}

#[test]
fn revealed_password_is_flagged_visible() {
    let mut app = opened(vec![entry("mail", "me", "a-long-password")]);
    app.edit.reveal_password = true;
    let rows = edit_rows(&app, None);
    assert_eq!(rows[1], "User: me");
    assert_eq!(rows[2], "Password: a-long-password  [visible]");
}

#[test]
fn empty_fields_and_totp_codes_are_shown() {
    let mut blank = entry("", "", "");
    blank.url = String::new();
    blank.totp = String::from("otpauth://totp/x?secret=JBSWY3DPEHPK3PXP");
    let app = opened(vec![blank]);
    let rows = edit_rows(&app, Some((String::from("123456"), 29)));
    assert_eq!(rows[0], "Name: (empty)");
    assert_eq!(rows[1], "User: (empty)");
    assert_eq!(rows[2], "Password: (empty)");
    assert_eq!(rows[3], "URL: (empty)");
    assert_eq!(rows[4], "TOTP: 123456 (30s)");
    let rows = edit_rows(&app, None);
    assert_eq!(rows[4], "TOTP: couldn't generate a code");
}

#[test]
fn no_open_entry_has_no_rows() {
    let app = App::new(Config::default(), false, String::new());
    assert!(edit_rows(&app, None).is_empty());
    assert_eq!(edit_title(&app), " New Entry ");
}

#[test]
fn notes_scroll_keeps_the_cursor_row_in_view() {
    assert_eq!(notes_scroll(5, 0, 3), 3);
    assert_eq!(notes_scroll(1, 3, 3), 1);
    assert_eq!(notes_scroll(4, 3, 3), 3);
    assert_eq!(notes_scroll(0, 0, 3), 0);
}

#[test]
fn notes_cursor_counts_wrapped_rows_and_columns() {
    let mut editor = FieldEditor::with_multiline_text("ab\ncd");
    assert_eq!(notes_cursor(&editor, 10), (0, 0));
    editor.handle_key(KeyEvent::from(KeyCode::Down));
    editor.handle_key(KeyEvent::from(KeyCode::End));
    assert_eq!(notes_cursor(&editor, 10), (1, 2));
}

#[test]
fn notes_editor_scroll_follows_the_cursor() {
    let mut app = opened(vec![entry("mail", "me", "pw")]);
    let mut editor = FieldEditor::with_multiline_text("a\nb\nc\nd\ne");
    for _ in 0..4 {
        editor.handle_key(KeyEvent::from(KeyCode::Down));
    }
    app.edit.field_editor = Some(editor);
    app.edit.editing_field = true;
    app.edit.selected = Some(NOTES_INDEX);
    follow_notes_cursor(&mut app, 20, 2);
    assert_eq!(app.edit.field_editor_scroll, 3);

    app.edit.selected = Some(0);
    app.edit.field_editor_scroll = 0;
    follow_notes_cursor(&mut app, 20, 2);
    assert_eq!(app.edit.field_editor_scroll, 0);
}
