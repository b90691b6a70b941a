use kptui::app::{App, Effect, ExportStep, ImportStep, PasswordChangeStep, Screen};
use kptui::config::Config;
use kptui::db::Entry;
use kptui::input::command::open_settings;
use kptui::input::settings::{
    finish_config_save, finish_export, finish_import, finish_password_change, handle_settings_input,
};
use kptui::input::{KeyCode, KeyEvent};
use kptui::ui::settings::{dialog_input, dialog_view, settings_rows, theme_list};

fn settings_app(themes: &[&str]) -> App {
    let mut config = Config::default();
    config.default_database = Some(String::from("/tmp/vault.kdbx"));
    let mut app = App::new(config, false, String::new());
    app.vault_open = true;
    app.screen = Screen::Index;
    app.max_len = 64;
    open_settings(&mut app, themes.iter().map(|t| t.to_string()).collect(), None);
    app
}

fn press(app: &mut App, code: KeyCode) -> Effect {
    handle_settings_input(app, KeyEvent::from(code))
}

fn type_text(app: &mut App, text: &str) {
    for c in text.chars() {
        assert_eq!(press(app, KeyCode::Char(c)), Effect::Nothing);
    }
}

fn go_to_row(app: &mut App, row: usize) {
    app.settings.selected = Some(row);
}

fn entry(name: &str) -> Entry {
    Entry { id: Some(7), name: name.to_string(), ..Entry::default() }
}

#[test]
fn rows_show_each_setting() {
    let app = settings_app(&["dark.toml"]);
    let rows = settings_rows(&app);
    let expected = [
        ("Default database", "/tmp/vault.kdbx"),
        ("Keyfile (optional)", "(not set)"),
        ("Auto-lock (seconds)", "300"),
        ("Theme", "(not set)"),
        ("Change master password", "[Enter] to change"),
        ("Import database", "[Enter] to import"),
        ("Export database", "[Enter] to export"),
    ];
    assert_eq!(rows.len(), expected.len());
    for (row, (label, value)) in rows.iter().zip(expected) {
        assert_eq!(row.0, label);
        assert_eq!(row.1, value);
    }
}

#[test]
fn theme_row_says_when_there_are_no_themes() {
    let mut app = settings_app(&[]);
    assert_eq!(settings_rows(&app)[3].1, "no themes found in ~/.config/kptui/themes");
    go_to_row(&mut app, 3);
    assert_eq!(press(&mut app, KeyCode::Enter), Effect::Nothing);
    assert!(!app.settings.choosing_theme);
}

#[test]
fn arrows_wrap_around_the_settings_and_escape_leaves() {
    let mut app = settings_app(&[]);
    go_to_row(&mut app, 0);
    press(&mut app, KeyCode::Up);
    assert_eq!(app.settings.selected, Some(6));
    press(&mut app, KeyCode::Down);
    assert_eq!(app.settings.selected, Some(0));
    press(&mut app, KeyCode::Down);
    assert_eq!(app.settings.selected, Some(1));

    assert_eq!(press(&mut app, KeyCode::Esc), Effect::Nothing);
    assert_eq!(app.screen, Screen::Index);
    assert!(app.status.is_none());
}

#[test]
fn keyfile_path_is_set_and_saved() {
    let mut app = settings_app(&[]);
    go_to_row(&mut app, 1);
    assert_eq!(press(&mut app, KeyCode::Enter), Effect::Nothing);
    assert!(app.settings.editing);
    assert_eq!(app.settings.field_editor.as_ref().map(|e| e.text().to_string()), Some(String::new()));

    type_text(&mut app, "/tmp/key.keyx");
    assert_eq!(press(&mut app, KeyCode::Enter), Effect::SaveConfig);
    assert_eq!(app.config.keyfile.as_deref(), Some("/tmp/key.keyx"));
    assert!(!app.settings.editing);
    assert!(app.settings.field_editor.is_none());
}

#[test]
fn blank_vault_path_unsets_it() {
    let mut app = settings_app(&[]);
    go_to_row(&mut app, 0);
    press(&mut app, KeyCode::Enter);
    for _ in 0.."/tmp/vault.kdbx".len() {
        press(&mut app, KeyCode::Delete);
    }
    type_text(&mut app, "  ");
    assert_eq!(press(&mut app, KeyCode::Enter), Effect::SaveConfig);
    assert_eq!(app.config.default_database, None);
}

#[test]
fn escape_closes_the_setting_editor_unchanged() {
    let mut app = settings_app(&[]);
    go_to_row(&mut app, 1);
    press(&mut app, KeyCode::Enter);
    type_text(&mut app, "/x");
    assert_eq!(press(&mut app, KeyCode::Esc), Effect::Nothing);
    assert!(!app.settings.editing);
    assert_eq!(app.config.keyfile, None);
    assert_eq!(app.screen, Screen::Settings);
}

#[test]
fn auto_lock_must_be_a_number() {
    let mut app = settings_app(&[]);
    go_to_row(&mut app, 2);
    press(&mut app, KeyCode::Enter);
    type_text(&mut app, "x");
    assert_eq!(press(&mut app, KeyCode::Enter), Effect::Nothing);
    assert_eq!(app.status.as_deref(), Some("Auto-lock must be a whole number of seconds"));
    assert!(app.settings.editing);
    assert_eq!(app.settings.field_editor.as_ref().map(|e| e.text().to_string()), Some(String::from("x300")));
    assert_eq!(app.config.auto_lock, 300);

    press(&mut app, KeyCode::Home);
    press(&mut app, KeyCode::Delete);
    type_text(&mut app, " 6");
    assert_eq!(press(&mut app, KeyCode::Enter), Effect::SaveConfig);
    assert_eq!(app.config.auto_lock, 6300);
    assert!(app.status.is_none());
    assert!(!app.settings.editing);
}

#[test]
fn theme_is_chosen_from_the_list() {
    let mut app = settings_app(&["a.toml", "b.toml"]);
    go_to_row(&mut app, 3);
    assert_eq!(press(&mut app, KeyCode::Enter), Effect::Nothing);
    assert!(app.settings.choosing_theme);
    assert_eq!(app.settings.theme_selected, Some(0));
    press(&mut app, KeyCode::Up);
    assert_eq!(app.settings.theme_selected, Some(1));
    press(&mut app, KeyCode::Down);
    assert_eq!(app.settings.theme_selected, Some(0));
    press(&mut app, KeyCode::Down);
    assert_eq!(press(&mut app, KeyCode::Enter), Effect::SaveConfig);
    assert_eq!(app.config.theme.as_deref(), Some("b.toml"));
    assert!(!app.settings.choosing_theme);
    assert_eq!(settings_rows(&app)[3].1, "b.toml");
}

#[test]
fn escape_leaves_the_theme_list_unchanged() {
    let mut app = settings_app(&["a.toml"]);
    go_to_row(&mut app, 3);
    press(&mut app, KeyCode::Enter);
    assert_eq!(press(&mut app, KeyCode::Esc), Effect::Nothing);
    assert!(!app.settings.choosing_theme);
    assert_eq!(app.config.theme, None);
}

#[test]
fn password_change_walks_through_its_steps() {
    let mut app = settings_app(&[]);
    go_to_row(&mut app, 4);
    press(&mut app, KeyCode::Enter);
    assert!(app.settings.changing_password);
    assert_eq!(app.settings.password_change_step, PasswordChangeStep::Current);
    let (title, hint) = dialog_view(&app, false).expect("the dialog is open");
    assert_eq!(title, " Current master password ");
    assert_eq!(hint, "verify current master password");

    assert_eq!(press(&mut app, KeyCode::Enter), Effect::Nothing);
    assert_eq!(app.status.as_deref(), Some("Master password can't be empty"));
    assert_eq!(dialog_view(&app, false).map(|d| d.1), Some(String::from("Master password can't be empty")));

    type_text(&mut app, "old");
    assert!(app.status.is_none());
    assert_eq!(dialog_input(&app), "•••");
    press(&mut app, KeyCode::Enter);
    assert_eq!(app.settings.password_change_step, PasswordChangeStep::New);

    type_text(&mut app, "new1");
    press(&mut app, KeyCode::Enter);
    assert_eq!(app.settings.password_change_step, PasswordChangeStep::ConfirmNew);
    type_text(&mut app, "new2");
    assert_eq!(press(&mut app, KeyCode::Enter), Effect::Nothing);
    assert_eq!(app.status.as_deref(), Some("Passwords don't match"));
    assert_eq!(app.settings.password_change_step, PasswordChangeStep::New);
    assert_eq!(app.settings.new_password_confirm, "");

    press(&mut app, KeyCode::Enter);
    type_text(&mut app, "new1");
    assert_eq!(press(&mut app, KeyCode::Enter), Effect::ChangePassword);
    assert_eq!(app.settings.current_password_buffer, "old");
    assert_eq!(app.settings.new_password_buffer, "new1");

    finish_password_change(&mut app, Ok(()));
    assert_eq!(app.status.as_deref(), Some("Master password changed"));
    assert!(!app.settings.changing_password);
    assert_eq!(app.settings.current_password_buffer, "");
    assert_eq!(app.settings.new_password_buffer, "");
    assert_eq!(app.settings.new_password_confirm, "");
}

#[test]
fn failed_password_change_starts_over() {
    let mut app = settings_app(&[]);
    go_to_row(&mut app, 4);
    press(&mut app, KeyCode::Enter);
    type_text(&mut app, "wrong");
    press(&mut app, KeyCode::Enter);
    type_text(&mut app, "n");
    press(&mut app, KeyCode::Enter);
    type_text(&mut app, "n");
    assert_eq!(press(&mut app, KeyCode::Enter), Effect::ChangePassword);

    finish_password_change(&mut app, Err(String::from("Current password is incorrect")));
    assert_eq!(app.status.as_deref(), Some("Current password is incorrect"));
    assert!(app.settings.changing_password);
    assert_eq!(app.settings.password_change_step, PasswordChangeStep::Current);
    assert_eq!(app.settings.current_password_buffer, "");
}

#[test]
fn escape_wipes_the_password_dialog() {
    let mut app = settings_app(&[]);
    go_to_row(&mut app, 4);
    press(&mut app, KeyCode::Enter);
    type_text(&mut app, "secret");
    assert_eq!(press(&mut app, KeyCode::Esc), Effect::Nothing);
    assert!(!app.settings.changing_password);
    assert_eq!(app.settings.current_password_buffer, "");
    assert!(dialog_view(&app, false).is_none());
}

#[test]
fn import_refuses_unknown_extensions() {
    let mut app = settings_app(&[]);
    go_to_row(&mut app, 5);
    press(&mut app, KeyCode::Enter);
    assert!(app.settings.importing_database);
    assert_eq!(press(&mut app, KeyCode::Enter), Effect::Nothing);
    assert!(app.status.is_none());

    type_text(&mut app, "notes.txt");
    assert_eq!(press(&mut app, KeyCode::Enter), Effect::Nothing);
    assert_eq!(app.status.as_deref(), Some("unrecognized file extension, expected .kdbx, .csv, or .json"));
    assert_eq!(app.settings.import_step, ImportStep::Path);
}

#[test]
fn kdbx_import_asks_for_that_vaults_password() {
    let mut app = settings_app(&[]);
    go_to_row(&mut app, 5);
    press(&mut app, KeyCode::Enter);
    let (title, hint) = dialog_view(&app, false).expect("the dialog is open");
    assert_eq!(title, " Import from file (.kdbx / .csv / .json) ");
    assert_eq!(hint, "only Name, User, Password, URL, TOTP and Notes are imported");

    type_text(&mut app, "other.kdbx");
    assert_eq!(dialog_input(&app), "other.kdbx");
    assert_eq!(press(&mut app, KeyCode::Enter), Effect::Nothing);
    assert_eq!(app.settings.import_step, ImportStep::KdbxPassword);
    assert_eq!(app.settings.pending_import_path.as_deref(), Some("other.kdbx"));
    assert_eq!(dialog_view(&app, false).map(|d| d.0), Some(String::from(" Password for that vault ")));

    type_text(&mut app, "pw");
    assert_eq!(dialog_input(&app), "••");
    assert_eq!(press(&mut app, KeyCode::Enter), Effect::Import);
}

#[test]
fn csv_import_goes_ahead_at_once() {
    let mut app = settings_app(&[]);
    go_to_row(&mut app, 5);
    press(&mut app, KeyCode::Enter);
    type_text(&mut app, "export.CSV");
    assert_eq!(press(&mut app, KeyCode::Enter), Effect::Import);
    assert_eq!(app.settings.pending_import_path.as_deref(), Some("export.CSV"));
}

#[test]
fn finished_import_adds_the_entries_and_counts_them() {
    let mut app = settings_app(&[]);
    app.entries = vec![entry("bank")];
    app.refresh_filter();
    go_to_row(&mut app, 5);
    press(&mut app, KeyCode::Enter);
    type_text(&mut app, "in.json");
    assert_eq!(press(&mut app, KeyCode::Enter), Effect::Import);

    finish_import(&mut app, Ok(vec![entry("alpha"), entry("mail")]));
    assert_eq!(app.entries.len(), 3);
    assert_eq!(app.entries[1].name, "alpha");
    assert_eq!(app.filtered, vec![1, 0, 2]);
    assert_eq!(app.status.as_deref(), Some("Imported 2 entries"));
    assert!(!app.settings.importing_database);
    assert_eq!(app.settings.pending_import_path, None);
    assert_eq!(app.settings.import_path_buffer, "");
}

#[test]
fn failed_import_is_reported_and_starts_over() {
    let mut app = settings_app(&[]);
    go_to_row(&mut app, 5);
    press(&mut app, KeyCode::Enter);
    type_text(&mut app, "in.csv");
    press(&mut app, KeyCode::Enter);

    finish_import(&mut app, Err(String::from("couldn't open in.csv")));
    assert_eq!(app.status.as_deref(), Some("Import failed: couldn't open in.csv"));
    assert!(app.settings.importing_database);
    assert_eq!(app.settings.import_step, ImportStep::Path);
    assert!(app.entries.is_empty());
}

#[test]
fn export_confirms_before_writing_plain_text() {
    let mut app = settings_app(&[]);
    go_to_row(&mut app, 6);
    press(&mut app, KeyCode::Enter);
    assert!(app.settings.exporting_database);
    assert_eq!(
        dialog_view(&app, false),
        Some((
            String::from(" Export to file (.kdbx / .csv / .json) "),
            String::from("only Name, User, Password, URL, and TOTP are exported")
        ))
    );
    type_text(&mut app, "out.csv");
    assert_eq!(press(&mut app, KeyCode::Enter), Effect::Nothing);
    assert_eq!(app.settings.export_step, ExportStep::Confirm);
    assert_eq!(app.settings.pending_export_path.as_deref(), Some("out.csv"));
    assert_eq!(
        dialog_view(&app, false).map(|d| d.1),
        Some(String::from("writing all passwords in PLAINTEXT to disk — press Enter to confirm"))
    );
    assert_eq!(
        dialog_view(&app, true).map(|d| d.1),
        Some(String::from("overwriting an existing file with all passwords in PLAINTEXT — press Enter to confirm"))
    );
    assert_eq!(press(&mut app, KeyCode::Enter), Effect::Export);

    finish_export(&mut app, "out.csv", Ok(()));
    assert_eq!(app.status.as_deref(), Some("Exported to out.csv"));
    assert!(!app.settings.exporting_database);
    assert_eq!(app.settings.pending_export_path, None);
}

#[test]
fn vault_export_warns_only_of_overwriting() {
    let mut app = settings_app(&[]);
    go_to_row(&mut app, 6);
    press(&mut app, KeyCode::Enter);
    type_text(&mut app, "copy.kdbx");
    press(&mut app, KeyCode::Enter);
    assert_eq!(dialog_view(&app, false).map(|d| d.1), Some(String::from("press Enter to confirm")));
    assert_eq!(
        dialog_view(&app, true).map(|d| d.1),
        Some(String::from("overwriting an existing file — press Enter to confirm"))
    );
    assert_eq!(press(&mut app, KeyCode::Esc), Effect::Nothing);
    assert!(!app.settings.exporting_database);
}

#[test]
fn failed_export_is_reported() {
    let mut app = settings_app(&[]);
    go_to_row(&mut app, 6);
    press(&mut app, KeyCode::Enter);
    type_text(&mut app, "out.json");
    press(&mut app, KeyCode::Enter);
    finish_export(&mut app, "out.json", Err(String::from("a file already exists")));
    assert_eq!(app.status.as_deref(), Some("Export failed: a file already exists"));
    assert!(!app.settings.exporting_database);
}

#[test]
fn config_save_failures_are_reported() {
    let mut app = settings_app(&[]);
    app.status = Some(String::from("kept"));
    finish_config_save(&mut app, Ok(()));
    assert_eq!(app.status.as_deref(), Some("kept"));
    finish_config_save(&mut app, Err(String::from("disk full")));
    assert_eq!(app.status.as_deref(), Some("Couldn't save config: disk full"));
}

#[test]
fn theme_list_marks_the_configured_theme() {
    let mut app = settings_app(&["a.toml", "b.toml"]);
    assert_eq!(theme_list(&app), vec![(String::from("a.toml"), false), (String::from("b.toml"), false)]);
    app.config.theme = Some(String::from("b.toml"));
    assert_eq!(theme_list(&app), vec![(String::from("a.toml"), false), (String::from("b.toml"), true)]);
}

#[test]
fn settings_keys_leave_the_entries_alone() {
    let mut app = settings_app(&["a.toml"]);
    app.entries = vec![entry("mail"), entry("bank")];
    app.refresh_filter();
    let filtered = app.filtered.clone();
    let keys = [
        KeyCode::Down,
        KeyCode::Enter,
        KeyCode::Char('x'),
        KeyCode::Enter,
        KeyCode::Esc,
        KeyCode::Down,
        KeyCode::Down,
        KeyCode::Enter,
        KeyCode::Char('p'),
        KeyCode::Enter,
        KeyCode::Esc,
        KeyCode::Up,
        KeyCode::Enter,
        KeyCode::Char('f'),
        KeyCode::Esc,
    ];
    for key in keys {
        press(&mut app, key);
        assert_eq!(app.entries.len(), 2);
        assert_eq!(app.entries[0].name, "mail");
        assert_eq!(app.filtered, filtered);
        assert!(app.vault_open);
    }
}
