//! Keys on the settings screen: moving between the settings, editing the
//! vault and keyfile paths and the auto-lock delay, choosing a theme, and
//! the dialogs that change the master password, import entries and export
//! them.

use vstd::prelude::*;

use crate::app::{
    list_refreshed, message, message_with, says, App, Effect, ExportStep, ImportStep,
    PasswordChangeStep, Screen, SettingsState,
};
use crate::config::Config;
use crate::db::{decimal, parse_u32, parsed_u32, push_decimal_wide, trim, trimmed, Entry};
use crate::export::{detect_format, extension_of, format_for, ExportFormat};
use crate::input::fieldedit::{close_editor, EditAction, FieldEditor, FieldMode, FieldState};
use crate::input::index::{row_above, row_below};
use crate::input::login::{popped, push_limited, push_limited_char};
use crate::input::{normalize_shortcut, secret_pop, shortcut_of, KeyCode, KeyEvent};
use crate::text::{chars_of, push_str, wipe, wipe_chars};

verus! {

pub const DATABASE_ROW: usize = 0;

pub const KEYFILE_ROW: usize = 1;

pub const AUTO_LOCK_ROW: usize = 2;

pub const THEME_ROW: usize = 3;

pub const PASSWORD_ROW: usize = 4;

pub const IMPORT_ROW: usize = 5;

pub const EXPORT_ROW: usize = 6;

pub const SETTINGS_ROWS: usize = 7;

/// The selected settings row, reading no selection as the first.
pub open spec fn settings_row(st: SettingsState) -> usize {
    match st.selected {
        Some(s) => s,
        None => 0,
    }
}

/// The row Down (`down`) or Up selects among the seven settings, wrapping
/// around.
pub open spec fn next_setting(sel: usize, down: bool) -> usize {
    if down {
        ((sel as int + 1) % (SETTINGS_ROWS as int)) as usize
    } else {
        ((sel as int + SETTINGS_ROWS - 1) % (SETTINGS_ROWS as int)) as usize
    }
}

/// A buffer after a key: a typed character goes in while the buffer's
/// UTF-8 encoding is shorter than `max` bytes, Backspace takes the last
/// one out, and other keys leave it.
pub open spec fn typed(s: Seq<char>, code: KeyCode, max: usize) -> Seq<char> {
    match code {
        KeyCode::Char(c) => push_limited(s, c, max),
        KeyCode::Backspace => popped(s),
        _ => s,
    }
}

/// Whether a key types into a dialog's buffer.
pub open spec fn types(code: KeyCode) -> bool {
    code is Char || code is Backspace
}

fn type_into(buf: &mut String, code: KeyCode, max: usize)
    ensures
        final(buf)@ == typed(old(buf)@, code, max),
{
    match code {
        KeyCode::Char(c) => push_limited_char(buf, c, max),
        KeyCode::Backspace => secret_pop(buf),
        _ => {},
    }
}

/// What an editable setting shows: the vault path, the keyfile path (empty
/// when not set), or the auto-lock delay in seconds.
pub open spec fn setting_text(config: Config, row: usize) -> Seq<char> {
    if row == DATABASE_ROW {
        match config.default_database {
            Some(p) => p@,
            None => Seq::empty(),
        }
    } else if row == KEYFILE_ROW {
        match config.keyfile {
            Some(p) => p@,
            None => Seq::empty(),
        }
    } else {
        decimal(config.auto_lock as nat)
    }
}

fn setting_string(config: &Config, row: usize) -> (r: String)
    ensures
        r@ == setting_text(*config, row),
{
    let mut r = String::new();
    if row == DATABASE_ROW {
        if let Some(p) = &config.default_database {
            push_str(&mut r, p.as_str());
        }
    } else if row == KEYFILE_ROW {
        if let Some(p) = &config.keyfile {
            push_str(&mut r, p.as_str());
        }
    } else {
        push_decimal_wide(&mut r, config.auto_lock as u128);
    }
    r
}

/// The message for an auto-lock delay that is not a number.
pub open spec fn bad_delay() -> Seq<char> {
    "Auto-lock must be a whole number of seconds"@
}

/// The message for an empty new password.
pub open spec fn empty_password() -> Seq<char> {
    "Master password can't be empty"@
}

/// The message for a file name whose extension names no format.
pub open spec fn unknown_format() -> Seq<char> {
    "unrecognized file extension, expected .kdbx, .csv, or .json"@
}

/// The state after Enter on a row of the main list: the first three open
/// in an editor; the theme row opens the theme list, when there are
/// themes; the last three open their dialogs, empty.
pub open spec fn row_opened(old: App, new: App, row: usize) -> bool {
    let st = old.settings;
    if row <= AUTO_LOCK_ROW {
        &&& new.settings.field_editor matches Some(f) && f@ == (FieldState {
            text: setting_text(old.config, row),
            cursor: 0,
            preferred_column: None,
            mode: FieldMode::SingleLine,
        })
        &&& new == (App {
            settings: SettingsState { editing: true, field_editor: new.settings.field_editor, ..st },
            status: None,
            ..old
        })
    } else if row == THEME_ROW {
        if st.available_themes@.len() == 0 {
            new == old
        } else {
            new == (App {
                settings: SettingsState { choosing_theme: true, theme_selected: Some(0), ..st },
                status: None,
                ..old
            })
        }
    } else if row == PASSWORD_ROW {
        &&& new.settings.current_password_buffer@.len() == 0
        &&& new.settings.new_password_buffer@.len() == 0
        &&& new.settings.new_password_confirm@.len() == 0
        &&& new == (App {
            settings: SettingsState {
                changing_password: true,
                password_change_step: PasswordChangeStep::Current,
                current_password_buffer: new.settings.current_password_buffer,
                new_password_buffer: new.settings.new_password_buffer,
                new_password_confirm: new.settings.new_password_confirm,
                ..st
            },
            status: None,
            ..old
        })
    } else if row == IMPORT_ROW {
        import_reset(old, new, true) && new.status is None
    } else if row == EXPORT_ROW {
        export_reset(old, new, true) && new.status is None
    } else {
        new == old
    }
}

/// The import dialog opened (`open`) or closed, with nothing typed or
/// pending.
pub open spec fn import_reset(old: App, new: App, open: bool) -> bool {
    &&& new.settings.import_path_buffer@.len() == 0
    &&& new.settings.import_kdbx_password_buffer@.len() == 0
    &&& new == (App {
        settings: SettingsState {
            importing_database: open,
            import_step: ImportStep::Path,
            import_path_buffer: new.settings.import_path_buffer,
            import_kdbx_password_buffer: new.settings.import_kdbx_password_buffer,
            pending_import_path: None,
            ..old.settings
        },
        status: new.status,
        ..old
    })
}

/// The export dialog opened (`open`) or closed, with nothing typed or
/// pending.
pub open spec fn export_reset(old: App, new: App, open: bool) -> bool {
    &&& new.settings.export_path_buffer@.len() == 0
    &&& new == (App {
        settings: SettingsState {
            exporting_database: open,
            export_step: ExportStep::Path,
            export_path_buffer: new.settings.export_path_buffer,
            pending_export_path: None,
            ..old.settings
        },
        status: new.status,
        ..old
    })
}

/// The password dialog closed, with everything typed wiped.
pub open spec fn password_reset(old: App, new: App) -> bool {
    &&& new.settings.current_password_buffer@.len() == 0
    &&& new.settings.new_password_buffer@.len() == 0
    &&& new.settings.new_password_confirm@.len() == 0
    &&& new == (App {
        settings: SettingsState {
            changing_password: false,
            password_change_step: PasswordChangeStep::Current,
            current_password_buffer: new.settings.current_password_buffer,
            new_password_buffer: new.settings.new_password_buffer,
            new_password_confirm: new.settings.new_password_confirm,
            ..old.settings
        },
        status: new.status,
        ..old
    })
}

fn reset_import(app: &mut App, open: bool)
    ensures
        import_reset(*old(app), *final(app), open),
        final(app).status == old(app).status,
{
    app.settings.importing_database = open;
    app.settings.import_step = ImportStep::Path;
    wipe(&mut app.settings.import_path_buffer);
    wipe(&mut app.settings.import_kdbx_password_buffer);
    app.settings.pending_import_path = None;
}

fn reset_export(app: &mut App, open: bool)
    ensures
        export_reset(*old(app), *final(app), open),
        final(app).status == old(app).status,
{
    app.settings.exporting_database = open;
    app.settings.export_step = ExportStep::Path;
    wipe(&mut app.settings.export_path_buffer);
    app.settings.pending_export_path = None;
}

fn reset_password(app: &mut App)
    ensures
        password_reset(*old(app), *final(app)),
        final(app).status == old(app).status,
{
    app.settings.changing_password = false;
    app.settings.password_change_step = PasswordChangeStep::Current;
    wipe(&mut app.settings.current_password_buffer);
    wipe(&mut app.settings.new_password_buffer);
    wipe(&mut app.settings.new_password_confirm);
}

fn open_editor(app: &mut App, row: usize)
    requires
        row <= AUTO_LOCK_ROW,
    ensures
        row_opened(*old(app), *final(app), row),
{
    let text = setting_string(&app.config, row);
    close_editor(&mut app.settings.field_editor);
    app.settings.field_editor = Some(FieldEditor::with_text(text.as_str()));
    app.settings.editing = true;
    app.status = None;
}

fn open_password(app: &mut App)
    ensures
        row_opened(*old(app), *final(app), PASSWORD_ROW),
{
    reset_password(app);
    app.settings.changing_password = true;
    app.status = None;
}

fn open_row(app: &mut App, row: usize)
    ensures
        row_opened(*old(app), *final(app), row),
{
    if row <= AUTO_LOCK_ROW {
        open_editor(app, row);
    } else if row == THEME_ROW {
        if app.settings.available_themes.len() > 0 {
            app.settings.choosing_theme = true;
            app.settings.theme_selected = Some(0);
            app.status = None;
        }
    } else if row == PASSWORD_ROW {
        open_password(app);
    } else if row == IMPORT_ROW {
        reset_import(app, true);
        app.status = None;
    } else if row == EXPORT_ROW {
        reset_export(app, true);
        app.status = None;
    }
}

/// What a key does on the main settings list.
pub open spec fn main_step(old: App, new: App, code: KeyCode, effect: Effect) -> bool {
    let st = old.settings;
    let row = settings_row(st);
    effect == Effect::Nothing && match shortcut_of(code) {
        KeyCode::Esc => new == (App { screen: Screen::Index, status: None, ..old }),
        KeyCode::Down => new == (App {
            settings: SettingsState { selected: Some(next_setting(row, true)), ..st },
            ..old
        }),
        KeyCode::Up => new == (App {
            settings: SettingsState { selected: Some(next_setting(row, false)), ..st },
            ..old
        }),
        KeyCode::Enter => row_opened(old, new, row),
        _ => new == old,
    }
}

fn main_key(app: &mut App, code: KeyCode) -> (effect: Effect)
    ensures
        main_step(*old(app), *final(app), code, effect),
{
    let row = match app.settings.selected {
        Some(s) => s,
        None => 0,
    };
    match normalize_shortcut(code) {
        KeyCode::Esc => {
            app.screen = Screen::Index;
            app.status = None;
        },
        KeyCode::Down | KeyCode::Up => {
            let down = match normalize_shortcut(code) {
                KeyCode::Down => true,
                _ => false,
            };
            let within = row % SETTINGS_ROWS;
            let next = if down {
                if within == SETTINGS_ROWS - 1 {
                    0
                } else {
                    within + 1
                }
            } else {
                if within == 0 {
                    SETTINGS_ROWS - 1
                } else {
                    within - 1
                }
            };
            assert(next == next_setting(row, down)) by (nonlinear_arith)
                requires
                    within == row % 7,
                    next == if down {
                        if within == 6 {
                            0
                        } else {
                            within + 1
                        }
                    } else {
                        if within == 0 {
                            6
                        } else {
                            within - 1
                        }
                    },
                    SETTINGS_ROWS == 7,
            ;
            app.settings.selected = Some(next);
        },
        KeyCode::Enter => open_row(app, row),
        _ => {},
    }
    Effect::Nothing
}

/// The settings after an accepted delay editor in state `fs`: a delay that
/// reads as a number of seconds is taken and written, or else the editor
/// stays open and says so.
pub open spec fn delay_committed(old: App, new: App, fs: FieldState, effect: Effect) -> bool {
    let st = old.settings;
    match parsed_u32(trimmed(fs.text)) {
        Some(n) => new == (App {
            settings: SettingsState { editing: false, field_editor: None, ..st },
            config: Config { auto_lock: n as u64, ..old.config },
            status: None,
            ..old
        }) && effect == Effect::SaveConfig,
        None => new.settings.field_editor matches Some(f) && f@ == fs && new == (App {
            settings: SettingsState { field_editor: new.settings.field_editor, ..st },
            status: new.status,
            ..old
        }) && says(new.status, bad_delay()) && effect == Effect::Nothing,
    }
}

/// The settings after an accepted path editor holding `text` in row `row`:
/// a blank path unsets the vault or keyfile path, any other sets it, and
/// the settings are written.
pub open spec fn path_committed(old: App, new: App, text: Seq<char>, row: usize, effect: Effect) -> bool {
    let closed = SettingsState { editing: false, field_editor: None, ..old.settings };
    let path = if row == DATABASE_ROW {
        new.config.default_database
    } else {
        new.config.keyfile
    };
    &&& effect == Effect::SaveConfig
    &&& (trimmed(text).len() == 0 ==> path is None)
    &&& (trimmed(text).len() > 0 ==> (path matches Some(p) && p@ == text))
    &&& if row == DATABASE_ROW {
        new == (App {
            settings: closed,
            config: Config { default_database: new.config.default_database, ..old.config },
            status: None,
            ..old
        })
    } else {
        new == (App {
            settings: closed,
            config: Config { keyfile: new.config.keyfile, ..old.config },
            status: None,
            ..old
        })
    }
}

/// The settings after the editor of the selected setting, in state `fs`,
/// is accepted.
pub open spec fn setting_committed(old: App, new: App, fs: FieldState, effect: Effect) -> bool {
    let row = settings_row(old.settings);
    if row == AUTO_LOCK_ROW {
        delay_committed(old, new, fs, effect)
    } else {
        path_committed(old, new, fs.text, row, effect)
    }
}

/// What a key does while a setting is being edited: the editor takes it;
/// Enter puts the text into the setting, and Esc closes the editor.
pub open spec fn setting_edit_step(old: App, new: App, key: KeyEvent, effect: Effect) -> bool {
    let st = old.settings;
    match st.field_editor {
        None => new == (App { settings: SettingsState { editing: false, ..st }, ..old }) && effect
            == Effect::Nothing,
        Some(ed) => {
            let (fs, action) = ed@.after_key(key);
            match action {
                EditAction::Continue => new.settings.field_editor matches Some(f) && f@ == fs
                    && new == (App {
                    settings: SettingsState { field_editor: new.settings.field_editor, ..st },
                    ..old
                }) && effect == Effect::Nothing,
                EditAction::Cancel => new == (App {
                    settings: SettingsState { editing: false, field_editor: None, ..st },
                    ..old
                }) && effect == Effect::Nothing,
                EditAction::Accept => setting_committed(old, new, fs, effect),
            }
        },
    }
}

#[verifier::rlimit(60)]
fn commit_delay(app: &mut App, editor: FieldEditor) -> (effect: Effect)
    ensures
        delay_committed(*old(app), *final(app), editor@, effect),
{
    let trimmed_text = trim(editor.text());
    let mut digits = chars_of(trimmed_text.as_str());
    let n = digits.len();
    let parsed = parse_u32(&digits, 0, n);
    assert(digits@.subrange(0, n as int) == digits@);
    wipe_chars(&mut digits);
    match parsed {
        Some(secs) => {
            app.config.auto_lock = secs as u64;
            editor.discard();
            close_editor(&mut app.settings.field_editor);
            app.settings.editing = false;
            app.status = None;
            Effect::SaveConfig
        },
        None => {
            close_editor(&mut app.settings.field_editor);
            app.settings.field_editor = Some(editor);
            app.status = message("Auto-lock must be a whole number of seconds");
            Effect::Nothing
        },
    }
}

#[verifier::rlimit(60)]
fn commit_path(app: &mut App, editor: FieldEditor, row: usize) -> (effect: Effect)
    ensures
        path_committed(*old(app), *final(app), editor@.text, row, effect),
{
    let blank = trim(editor.text()).as_str().is_empty();
    let text = editor.into_text();
    let value = if blank {
        None
    } else {
        Some(text)
    };
    if row == DATABASE_ROW {
        app.config.default_database = value;
    } else {
        app.config.keyfile = value;
    }
    close_editor(&mut app.settings.field_editor);
    app.settings.editing = false;
    app.status = None;
    Effect::SaveConfig
}

fn commit_setting(app: &mut App, editor: FieldEditor) -> (effect: Effect)
    ensures
        setting_committed(*old(app), *final(app), editor@, effect),
{
    let row = match app.settings.selected {
        Some(s) => s,
        None => 0,
    };
    if row == AUTO_LOCK_ROW {
        commit_delay(app, editor)
    } else {
        commit_path(app, editor, row)
    }
}

fn edit_setting(app: &mut App, key: KeyEvent) -> (effect: Effect)
    ensures
        setting_edit_step(*old(app), *final(app), key, effect),
{
    let mut editor = match app.settings.field_editor.take() {
        Some(e) => e,
        None => {
            app.settings.editing = false;
            return Effect::Nothing;
        },
    };
    let ghost mid = *app;
    match editor.handle_key(key) {
        EditAction::Continue => {
            app.settings.field_editor = Some(editor);
            Effect::Nothing
        },
        EditAction::Cancel => {
            editor.discard();
            app.settings.editing = false;
            Effect::Nothing
        },
        EditAction::Accept => {
            let ghost fs = editor@;
            let effect = commit_setting(app, editor);
            assert(setting_committed(mid, *app, fs, effect));
            effect
        },
    }
}

/// What a key does in the theme list: the arrows move through it, wrapping
/// around, Enter makes the selected theme the configured one, and Esc goes
/// back to the settings.
pub open spec fn theme_step(old: App, new: App, code: KeyCode, effect: Effect) -> bool {
    let st = old.settings;
    let n = st.available_themes@.len();
    let sel = match st.theme_selected {
        Some(s) => s,
        None => 0,
    };
    match shortcut_of(code) {
        KeyCode::Esc => new == (App { settings: SettingsState { choosing_theme: false, ..st }, ..old })
            && effect == Effect::Nothing,
        KeyCode::Down => effect == Effect::Nothing && if n == 0 {
            new == old
        } else {
            new == (App {
                settings: SettingsState { theme_selected: Some(row_below(sel, n as usize)), ..st },
                ..old
            })
        },
        KeyCode::Up => effect == Effect::Nothing && if n == 0 {
            new == old
        } else {
            new == (App {
                settings: SettingsState { theme_selected: Some(row_above(sel, n as usize)), ..st },
                ..old
            })
        },
        KeyCode::Enter => if sel < n {
            new.config.theme matches Some(t) && t@ == st.available_themes@[sel as int]@ && new == (
            App {
                settings: SettingsState { choosing_theme: false, ..st },
                config: Config { theme: new.config.theme, ..old.config },
                ..old
            }) && effect == Effect::SaveConfig
        } else {
            new == old && effect == Effect::Nothing
        },
        _ => new == old && effect == Effect::Nothing,
    }
}

fn theme_key(app: &mut App, code: KeyCode) -> (effect: Effect)
    ensures
        theme_step(*old(app), *final(app), code, effect),
{
    let n = app.settings.available_themes.len();
    let sel = match app.settings.theme_selected {
        Some(s) => s,
        None => 0,
    };
    match normalize_shortcut(code) {
        KeyCode::Esc => {
            app.settings.choosing_theme = false;
            Effect::Nothing
        },
        KeyCode::Down => {
            if n > 0 {
                app.settings.theme_selected = Some(
                    if sel >= n - 1 {
                        0
                    } else {
                        sel + 1
                    },
                );
            }
            Effect::Nothing
        },
        KeyCode::Up => {
            if n > 0 {
                app.settings.theme_selected = Some(
                    if sel == 0 {
                        n - 1
                    } else {
                        sel - 1
                    },
                );
            }
            Effect::Nothing
        },
        KeyCode::Enter => {
            if sel < n {
                let mut name = String::new();
                push_str(&mut name, app.settings.available_themes[sel].as_str());
                app.config.theme = Some(name);
                app.settings.choosing_theme = false;
                Effect::SaveConfig
            } else {
                Effect::Nothing
            }
        },
        _ => Effect::Nothing,
    }
}

/// A key typed into the buffer of the password dialog's current step.
pub open spec fn password_typed(old: App, new: App, code: KeyCode) -> bool {
    let st = old.settings;
    match st.password_change_step {
        PasswordChangeStep::Current => new.settings.current_password_buffer@ == typed(
            st.current_password_buffer@,
            code,
            old.max_len,
        ) && new == (App {
            settings: SettingsState {
                current_password_buffer: new.settings.current_password_buffer,
                ..st
            },
            status: None,
            ..old
        }),
        PasswordChangeStep::New => new.settings.new_password_buffer@ == typed(
            st.new_password_buffer@,
            code,
            old.max_len,
        ) && new == (App {
            settings: SettingsState { new_password_buffer: new.settings.new_password_buffer, ..st },
            status: None,
            ..old
        }),
        PasswordChangeStep::ConfirmNew => new.settings.new_password_confirm@ == typed(
            st.new_password_confirm@,
            code,
            old.max_len,
        ) && new == (App {
            settings: SettingsState { new_password_confirm: new.settings.new_password_confirm, ..st },
            status: None,
            ..old
        }),
    }
}

/// Enter in the password dialog: each step moves on once it holds
/// something, and the last asks for the change once the two new passwords
/// are the same, or else asks for the new one again.
pub open spec fn password_entered(old: App, new: App, effect: Effect) -> bool {
    let st = old.settings;
    match st.password_change_step {
        PasswordChangeStep::Current => effect == Effect::Nothing && if st.current_password_buffer@.len()
            == 0 {
            new == (App { status: new.status, ..old }) && says(new.status, empty_password())
        } else {
            new == (App {
                settings: SettingsState { password_change_step: PasswordChangeStep::New, ..st },
                status: None,
                ..old
            })
        },
        PasswordChangeStep::New => effect == Effect::Nothing && if st.new_password_buffer@.len()
            == 0 {
            new == (App { status: new.status, ..old }) && says(new.status, empty_password())
        } else {
            new == (App {
                settings: SettingsState {
                    password_change_step: PasswordChangeStep::ConfirmNew,
                    ..st
                },
                status: None,
                ..old
            })
        },
        PasswordChangeStep::ConfirmNew => if st.new_password_confirm@ != st.new_password_buffer@ {
            &&& says(new.status, "Passwords don't match"@)
            &&& new.settings.new_password_confirm@.len() == 0
            &&& new == (App {
                settings: SettingsState {
                    password_change_step: PasswordChangeStep::New,
                    new_password_confirm: new.settings.new_password_confirm,
                    ..st
                },
                status: new.status,
                ..old
            })
            &&& effect == Effect::Nothing
        } else {
            new == old && effect == Effect::ChangePassword
        },
    }
}

/// What a key does in the master password dialog: the current password,
/// then the new one, then the new one again. Esc closes the dialog, wiping
/// what was typed.
pub open spec fn password_step(old: App, new: App, code: KeyCode, effect: Effect) -> bool {
    if types(code) {
        password_typed(old, new, code) && effect == Effect::Nothing
    } else {
        match code {
            KeyCode::Esc => password_reset(old, new) && new.status is None && effect
                == Effect::Nothing,
            KeyCode::Enter => password_entered(old, new, effect),
            _ => new == old && effect == Effect::Nothing,
        }
    }
}

fn password_type(app: &mut App, code: KeyCode)
    ensures
        password_typed(*old(app), *final(app), code),
{
    let max = app.max_len;
    match app.settings.password_change_step {
        PasswordChangeStep::Current => type_into(&mut app.settings.current_password_buffer, code, max),
        PasswordChangeStep::New => type_into(&mut app.settings.new_password_buffer, code, max),
        PasswordChangeStep::ConfirmNew => type_into(&mut app.settings.new_password_confirm, code, max),
    }
    app.status = None;
}

fn password_enter(app: &mut App) -> (effect: Effect)
    ensures
        password_entered(*old(app), *final(app), effect),
{
    match app.settings.password_change_step {
        PasswordChangeStep::Current => {
            if app.settings.current_password_buffer.as_str().is_empty() {
                app.status = message("Master password can't be empty");
            } else {
                app.settings.password_change_step = PasswordChangeStep::New;
                app.status = None;
            }
            Effect::Nothing
        },
        PasswordChangeStep::New => {
            if app.settings.new_password_buffer.as_str().is_empty() {
                app.status = message("Master password can't be empty");
            } else {
                app.settings.password_change_step = PasswordChangeStep::ConfirmNew;
                app.status = None;
            }
            Effect::Nothing
        },
        PasswordChangeStep::ConfirmNew => {
            if !(app.settings.new_password_confirm == app.settings.new_password_buffer) {
                app.status = message("Passwords don't match");
                wipe(&mut app.settings.new_password_confirm);
                app.settings.password_change_step = PasswordChangeStep::New;
                Effect::Nothing
            } else {
                Effect::ChangePassword
            }
        },
    }
}

fn password_key(app: &mut App, code: KeyCode) -> (effect: Effect)
    ensures
        password_step(*old(app), *final(app), code, effect),
{
    match code {
        KeyCode::Char(_) | KeyCode::Backspace => {
            password_type(app, code);
            Effect::Nothing
        },
        KeyCode::Esc => {
            reset_password(app);
            app.status = None;
            Effect::Nothing
        },
        KeyCode::Enter => password_enter(app),
        _ => Effect::Nothing,
    }
}

/// Takes the outcome of changing the master password: on success the
/// dialog closes; otherwise the error is shown and it starts over. Either
/// way everything typed is wiped.
pub fn finish_password_change(app: &mut App, outcome: Result<(), String>)
    ensures
        final(app).settings.current_password_buffer@.len() == 0,
        final(app).settings.new_password_buffer@.len() == 0,
        final(app).settings.new_password_confirm@.len() == 0,
        final(app).settings.password_change_step == PasswordChangeStep::Current,
        match outcome {
            Ok(()) => password_reset(*old(app), *final(app)) && says(
                final(app).status,
                "Master password changed"@,
            ),
            Err(e) => final(app).status == Some(e) && *final(app) == (App {
                settings: SettingsState {
                    password_change_step: PasswordChangeStep::Current,
                    current_password_buffer: final(app).settings.current_password_buffer,
                    new_password_buffer: final(app).settings.new_password_buffer,
                    new_password_confirm: final(app).settings.new_password_confirm,
                    ..old(app).settings
                },
                status: final(app).status,
                ..*old(app)
            }),
        },
{
    match outcome {
        Ok(()) => {
            reset_password(app);
            app.status = message("Master password changed");
        },
        Err(e) => {
            app.settings.password_change_step = PasswordChangeStep::Current;
            wipe(&mut app.settings.current_password_buffer);
            wipe(&mut app.settings.new_password_buffer);
            wipe(&mut app.settings.new_password_confirm);
            app.status = Some(e);
        },
    }
}

/// What a key does in the import dialog: first the file to import from,
/// whose extension must name a format, then, for a KeePass vault, its
/// master password; Enter then asks for the import. Esc closes the dialog,
/// wiping what was typed.
pub open spec fn import_key_step(old: App, new: App, code: KeyCode, effect: Effect) -> bool {
    let st = old.settings;
    if types(code) {
        effect == Effect::Nothing && match st.import_step {
            ImportStep::Path => new.settings.import_path_buffer@ == typed(
                st.import_path_buffer@,
                code,
                old.max_len,
            ) && new == (App {
                settings: SettingsState { import_path_buffer: new.settings.import_path_buffer, ..st },
                status: None,
                ..old
            }),
            ImportStep::KdbxPassword => new.settings.import_kdbx_password_buffer@ == typed(
                st.import_kdbx_password_buffer@,
                code,
                old.max_len,
            ) && new == (App {
                settings: SettingsState {
                    import_kdbx_password_buffer: new.settings.import_kdbx_password_buffer,
                    ..st
                },
                status: None,
                ..old
            }),
        }
    } else {
        match code {
            KeyCode::Esc => import_reset(old, new, false) && new.status is None && effect
                == Effect::Nothing,
            KeyCode::Enter => match st.import_step {
                ImportStep::KdbxPassword => new == old && effect == Effect::Import,
                ImportStep::Path => {
                    let path = st.import_path_buffer@;
                    if trimmed(path).len() == 0 {
                        new == old && effect == Effect::Nothing
                    } else {
                        match format_for(extension_of(path)) {
                            Err(_) => new == (App { status: new.status, ..old }) && says(
                                new.status,
                                unknown_format(),
                            ) && effect == Effect::Nothing,
                            Ok(ExportFormat::Kdbx) => new.settings.pending_import_path matches Some(
                                p,
                            ) && p@ == path && new == (App {
                                settings: SettingsState {
                                    import_step: ImportStep::KdbxPassword,
                                    pending_import_path: new.settings.pending_import_path,
                                    ..st
                                },
                                status: None,
                                ..old
                            }) && effect == Effect::Nothing,
                            Ok(_) => new.settings.pending_import_path matches Some(p) && p@ == path
                                && new == (App {
                                settings: SettingsState {
                                    pending_import_path: new.settings.pending_import_path,
                                    ..st
                                },
                                status: None,
                                ..old
                            }) && effect == Effect::Import,
                        }
                    }
                },
            },
            _ => new == old && effect == Effect::Nothing,
        }
    }
}

fn copy_string(s: &String) -> (r: String)
    ensures
        r@ == s@,
{
    let mut r = String::new();
    push_str(&mut r, s.as_str());
    r
}

fn import_key(app: &mut App, code: KeyCode) -> (effect: Effect)
    ensures
        import_key_step(*old(app), *final(app), code, effect),
{
    let max = app.max_len;
    match code {
        KeyCode::Char(_) | KeyCode::Backspace => {
            match app.settings.import_step {
                ImportStep::Path => type_into(&mut app.settings.import_path_buffer, code, max),
                ImportStep::KdbxPassword => type_into(
                    &mut app.settings.import_kdbx_password_buffer,
                    code,
                    max,
                ),
            }
            app.status = None;
            Effect::Nothing
        },
        KeyCode::Esc => {
            reset_import(app, false);
            app.status = None;
            Effect::Nothing
        },
        KeyCode::Enter => match app.settings.import_step {
            ImportStep::KdbxPassword => Effect::Import,
            ImportStep::Path => {
                let blank = trim(app.settings.import_path_buffer.as_str()).as_str().is_empty();
                if blank {
                    return Effect::Nothing;
                }
                match detect_format(app.settings.import_path_buffer.as_str()) {
                    Err(_) => {
                        app.status = message(
                            "unrecognized file extension, expected .kdbx, .csv, or .json",
                        );
                        Effect::Nothing
                    },
                    Ok(ExportFormat::Kdbx) => {
                        app.settings.pending_import_path = Some(
                            copy_string(&app.settings.import_path_buffer),
                        );
                        app.settings.import_step = ImportStep::KdbxPassword;
                        app.status = None;
                        Effect::Nothing
                    },
                    Ok(_) => {
                        app.settings.pending_import_path = Some(
                            copy_string(&app.settings.import_path_buffer),
                        );
                        app.status = None;
                        Effect::Import
                    },
                }
            },
        },
        _ => Effect::Nothing,
    }
}

/// Takes the outcome of importing: on success the imported entries, as
/// the vault now holds them, join the list and the dialog closes with a
/// count; otherwise the error is shown and the dialog starts over. Either
/// way the password typed for the other vault is wiped.
pub fn finish_import(app: &mut App, outcome: Result<Vec<Entry>, String>)
    ensures
        final(app).settings.import_kdbx_password_buffer@.len() == 0,
        match outcome {
            Ok(imported) => {
                &&& final(app).entries@ == old(app).entries@ + imported@
                &&& list_refreshed(*final(app))
                &&& says(final(app).status, "Imported "@ + decimal(imported@.len()) + " entries"@)
                &&& import_reset(
                    App {
                        entries: final(app).entries,
                        filtered: final(app).filtered,
                        index_selected: final(app).index_selected,
                        ..*old(app)
                    },
                    *final(app),
                    false,
                )
            },
            Err(e) => {
                &&& says(final(app).status, "Import failed: "@ + e@)
                &&& import_reset(*old(app), *final(app), true)
            },
        },
{
    match outcome {
        Ok(imported) => {
            let mut imported = imported;
            let count = imported.len();
            app.entries.append(&mut imported);
            app.refresh_filter();
            reset_import(app, false);
            let mut m = String::new();
            push_str(&mut m, "Imported ");
            push_decimal_wide(&mut m, count as u128);
            push_str(&mut m, " entries");
            app.status = Some(m);
        },
        Err(e) => {
            reset_import(app, true);
            app.status = message_with("Import failed: ", e.as_str());
        },
    }
}

/// What a key does in the export dialog: first the file to export to,
/// whose extension must name a format, then a confirmation; Enter on the
/// confirmation asks for the export. Esc closes the dialog.
pub open spec fn export_key_step(old: App, new: App, code: KeyCode, effect: Effect) -> bool {
    let st = old.settings;
    match st.export_step {
        ExportStep::Confirm => match code {
            KeyCode::Enter => new == old && effect == Effect::Export,
            KeyCode::Esc => export_reset(old, new, false) && new.status is None && effect
                == Effect::Nothing,
            _ => new == old && effect == Effect::Nothing,
        },
        ExportStep::Path => if types(code) {
            new.settings.export_path_buffer@ == typed(st.export_path_buffer@, code, old.max_len)
                && new == (App {
                settings: SettingsState { export_path_buffer: new.settings.export_path_buffer, ..st },
                status: None,
                ..old
            }) && effect == Effect::Nothing
        } else {
            match code {
                KeyCode::Esc => export_reset(old, new, false) && new.status is None && effect
                    == Effect::Nothing,
                KeyCode::Enter => {
                    let path = st.export_path_buffer@;
                    effect == Effect::Nothing && if trimmed(path).len() == 0 {
                        new == old
                    } else {
                        match format_for(extension_of(path)) {
                            Err(_) => new == (App { status: new.status, ..old }) && says(
                                new.status,
                                unknown_format(),
                            ),
                            Ok(_) => new.settings.pending_export_path matches Some(p) && p@ == path
                                && new == (App {
                                settings: SettingsState {
                                    export_step: ExportStep::Confirm,
                                    pending_export_path: new.settings.pending_export_path,
                                    ..st
                                },
                                status: None,
                                ..old
                            }),
                        }
                    }
                },
                _ => new == old && effect == Effect::Nothing,
            }
        },
    }
}

fn export_key(app: &mut App, code: KeyCode) -> (effect: Effect)
    ensures
        export_key_step(*old(app), *final(app), code, effect),
{
    let max = app.max_len;
    match app.settings.export_step {
        ExportStep::Confirm => match code {
            KeyCode::Enter => Effect::Export,
            KeyCode::Esc => {
                reset_export(app, false);
                app.status = None;
                Effect::Nothing
            },
            _ => Effect::Nothing,
        },
        ExportStep::Path => match code {
            KeyCode::Char(_) | KeyCode::Backspace => {
                type_into(&mut app.settings.export_path_buffer, code, max);
                app.status = None;
                Effect::Nothing
            },
            KeyCode::Esc => {
                reset_export(app, false);
                app.status = None;
                Effect::Nothing
            },
            KeyCode::Enter => {
                let blank = trim(app.settings.export_path_buffer.as_str()).as_str().is_empty();
                if blank {
                    return Effect::Nothing;
                }
                match detect_format(app.settings.export_path_buffer.as_str()) {
                    Err(_) => {
                        app.status = message(
                            "unrecognized file extension, expected .kdbx, .csv, or .json",
                        );
                    },
                    Ok(_) => {
                        app.settings.pending_export_path = Some(
                            copy_string(&app.settings.export_path_buffer),
                        );
                        app.settings.export_step = ExportStep::Confirm;
                        app.status = None;
                    },
                }
                Effect::Nothing
            },
            _ => Effect::Nothing,
        },
    }
}

/// Takes the outcome of exporting to `path`; either way the dialog closes
/// and a message says how it went.
pub fn finish_export(app: &mut App, path: &str, outcome: Result<(), String>)
    ensures
        export_reset(*old(app), *final(app), false),
        match outcome {
            Ok(()) => says(final(app).status, "Exported to "@ + path@),
            Err(e) => says(final(app).status, "Export failed: "@ + e@),
        },
{
    reset_export(app, false);
    app.status = match outcome {
        Ok(()) => message_with("Exported to ", path),
        Err(e) => message_with("Export failed: ", e.as_str()),
    };
}

/// Takes the outcome of writing the settings to the configuration file.
pub fn finish_config_save(app: &mut App, outcome: Result<(), String>)
    ensures
        match outcome {
            Ok(()) => final(app).status == old(app).status,
            Err(e) => says(final(app).status, "Couldn't save config: "@ + e@),
        },
        *final(app) == (App { status: final(app).status, ..*old(app) }),
{
    if let Err(e) = outcome {
        app.status = message_with("Couldn't save config: ", e.as_str());
    }
}

/// What one key does on the settings screen: in the open dialog, if any,
/// else in the theme list, else in the open setting editor, else on the
/// main list.
pub open spec fn settings_step(old: App, new: App, key: KeyEvent, effect: Effect) -> bool {
    let st = old.settings;
    if st.exporting_database {
        export_key_step(old, new, key.code, effect)
    } else if st.importing_database {
        import_key_step(old, new, key.code, effect)
    } else if st.changing_password {
        password_step(old, new, key.code, effect)
    } else if st.choosing_theme {
        theme_step(old, new, key.code, effect)
    } else if st.editing {
        setting_edit_step(old, new, key, effect)
    } else {
        main_step(old, new, key.code, effect)
    }
}

/// Applies one key on the settings screen and says what work it asks for.
pub fn handle_settings_input(app: &mut App, key: KeyEvent) -> (effect: Effect)
    ensures
        settings_step(*old(app), *final(app), key, effect),
{
    if app.settings.exporting_database {
        export_key(app, key.code)
    } else if app.settings.importing_database {
        import_key(app, key.code)
    } else if app.settings.changing_password {
        password_key(app, key.code)
    } else if app.settings.choosing_theme {
        theme_key(app, key.code)
    } else if app.settings.editing {
        edit_setting(app, key)
    } else {
        main_key(app, key.code)
    }
}

/// The settings screen works on the settings alone: whatever key comes,
/// the entries and their order, the open vault, the login and the entry
/// screens stay as they were, and the screen stays the settings unless Esc
/// on the main list goes back to the index.
pub proof fn lemma_settings_keep_the_vault(old: App, new: App, key: KeyEvent, effect: Effect)
    requires
        settings_step(old, new, key, effect),
    ensures
        new.entries == old.entries,
        new.filtered == old.filtered,
        new.vault_open == old.vault_open,
        new.login == old.login,
        new.edit == old.edit,
        new.query == old.query,
        new.screen == old.screen || new.screen == Screen::Index,
{
}

} // verus!
