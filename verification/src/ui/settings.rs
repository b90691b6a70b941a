//! What the settings screen shows: its rows, the theme list, the dialogs
//! and the key hints.

use vstd::prelude::*;

use crate::app::{App, ExportStep, ImportStep, PasswordChangeStep};
use crate::db::{decimal, push_decimal_wide};
use crate::export::{detect_format, extension_of, format_for, ExportFormat};
use crate::text::{chars_of, push_str, wipe_chars};

verus! {

/// The key hints on the main settings list; slim mode shows the keys alone.
pub fn nav_help_items(slim_mode: bool) -> (r: Vec<&'static str>)
    ensures
        r@.map_values(|s: &str| s@) == if slim_mode {
            seq!["[↑↓]"@, "[Enter]"@, "[Esc]"@]
        } else {
            seq!["[↑↓] navigate"@, "[Enter] edit / choose theme"@, "[Esc] back"@]
        },
{
    let r = if slim_mode {
        vec!["[↑↓]", "[Enter]", "[Esc]"]
    } else {
        vec!["[↑↓] navigate", "[Enter] edit / choose theme", "[Esc] back"]
    };
    assert(r@.map_values(|s: &str| s@) =~= if slim_mode {
        seq!["[↑↓]"@, "[Enter]"@, "[Esc]"@]
    } else {
        seq!["[↑↓] navigate"@, "[Enter] edit / choose theme"@, "[Esc] back"@]
    });
    r
}

/// The key hints of a dialog with one line to confirm: Enter does
/// `enter_hint`, Esc cancels.
fn enter_esc_items(slim_mode: bool, enter_hint: &'static str) -> (r: Vec<&'static str>)
    ensures
        r@.map_values(|s: &str| s@) == if slim_mode {
            seq!["[Enter]"@, "[Esc]"@]
        } else {
            seq![enter_hint@, "[Esc] cancel"@]
        },
{
    let r = if slim_mode {
        vec!["[Enter]", "[Esc]"]
    } else {
        vec![enter_hint, "[Esc] cancel"]
    };
    assert(r@.map_values(|s: &str| s@) =~= if slim_mode {
        seq!["[Enter]"@, "[Esc]"@]
    } else {
        seq![enter_hint@, "[Esc] cancel"@]
    });
    r
}

/// The key hints while a setting is being edited.
pub fn field_help_items(slim_mode: bool) -> (r: Vec<&'static str>)
    ensures
        r@.map_values(|s: &str| s@) == if slim_mode {
            seq!["[Enter]"@, "[Esc]"@]
        } else {
            seq!["[Enter] save"@, "[Esc] cancel"@]
        },
{
    enter_esc_items(slim_mode, "[Enter] save")
}

/// The key hints while the master password is changed.
pub fn change_password_help_items(slim_mode: bool) -> (r: Vec<&'static str>)
    ensures
        r@.map_values(|s: &str| s@) == if slim_mode {
            seq!["[Enter]"@, "[Esc]"@]
        } else {
            seq!["[Enter] confirm"@, "[Esc] cancel"@]
        },
{
    enter_esc_items(slim_mode, "[Enter] confirm")
}

/// The key hints of the export dialog.
pub fn export_help_items(slim_mode: bool) -> (r: Vec<&'static str>)
    ensures
        r@.map_values(|s: &str| s@) == if slim_mode {
            seq!["[Enter]"@, "[Esc]"@]
        } else {
            seq!["[Enter] continue"@, "[Esc] cancel"@]
        },
{
    enter_esc_items(slim_mode, "[Enter] continue")
}

/// The key hints of the import dialog.
pub fn import_help_items(slim_mode: bool) -> (r: Vec<&'static str>)
    ensures
        r@.map_values(|s: &str| s@) == if slim_mode {
            seq!["[Enter]"@, "[Esc]"@]
        } else {
            seq!["[Enter] continue"@, "[Esc] cancel"@]
        },
{
    enter_esc_items(slim_mode, "[Enter] continue")
}

/// A setting's value as the list shows it: "(not set)" when empty.
pub open spec fn or_not_set(v: Seq<char>) -> Seq<char> {
    if v.len() == 0 {
        "(not set)"@
    } else {
        v
    }
}

/// The text of an optional path or name.
pub open spec fn opt_text(o: Option<String>) -> Seq<char> {
    match o {
        Some(s) => s@,
        None => Seq::empty(),
    }
}

/// The seven rows of the main settings list: each label and the value
/// line under it.
pub open spec fn settings_row_texts(app: App) -> Seq<(Seq<char>, Seq<char>)> {
    seq![
        ("Default database"@, or_not_set(opt_text(app.config.default_database))),
        ("Keyfile (optional)"@, or_not_set(opt_text(app.config.keyfile))),
        ("Auto-lock (seconds)"@, decimal(app.config.auto_lock as nat)),
        (
            "Theme"@,
            if app.settings.available_themes@.len() == 0 {
                "no themes found in ~/.config/kptui/themes"@
            } else {
                or_not_set(opt_text(app.config.theme))
            },
        ),
        ("Change master password"@, "[Enter] to change"@),
        ("Import database"@, "[Enter] to import"@),
        ("Export database"@, "[Enter] to export"@),
    ]
}

fn value_or_not_set(o: &Option<String>) -> (r: String)
    ensures
        r@ == or_not_set(opt_text(*o)),
{
    let mut r = String::new();
    match o {
        Some(s) => push_str(&mut r, s.as_str()),
        None => {},
    }
    if r.as_str().is_empty() {
        push_str(&mut r, "(not set)");
    }
    proof {
        reveal_strlit("(not set)");
    }
    r
}

fn owned(s: &str) -> (r: String)
    ensures
        r@ == s@,
{
    let mut r = String::new();
    push_str(&mut r, s);
    r
}

/// The rows of the main settings list.
pub fn settings_rows(app: &App) -> (r: Vec<(String, String)>)
    ensures
        r@.map_values(|p: (String, String)| (p.0@, p.1@)) == settings_row_texts(*app),
{
    let mut rows: Vec<(String, String)> = Vec::new();
    rows.push((owned("Default database"), value_or_not_set(&app.config.default_database)));
    rows.push((owned("Keyfile (optional)"), value_or_not_set(&app.config.keyfile)));
    let mut delay = String::new();
    push_decimal_wide(&mut delay, app.config.auto_lock as u128);
    rows.push((owned("Auto-lock (seconds)"), delay));
    let theme = if app.settings.available_themes.len() == 0 {
        owned("no themes found in ~/.config/kptui/themes")
    } else {
        value_or_not_set(&app.config.theme)
    };
    rows.push((owned("Theme"), theme));
    rows.push((owned("Change master password"), owned("[Enter] to change")));
    rows.push((owned("Import database"), owned("[Enter] to import")));
    rows.push((owned("Export database"), owned("[Enter] to export")));
    assert(rows@.map_values(|p: (String, String)| (p.0@, p.1@)) =~= settings_row_texts(*app));
    rows
}

/// The warning under the export confirmation: whether the passwords go to
/// disk in plain text (a CSV or JSON file) and whether a file is replaced.
pub open spec fn export_warning(plaintext: bool, overwrite: bool) -> Seq<char> {
    if plaintext && overwrite {
        "overwriting an existing file with all passwords in PLAINTEXT — press Enter to confirm"@
    } else if plaintext {
        "writing all passwords in PLAINTEXT to disk — press Enter to confirm"@
    } else if overwrite {
        "overwriting an existing file — press Enter to confirm"@
    } else {
        "press Enter to confirm"@
    }
}

/// Whether an export to `path` writes plain text.
pub open spec fn plaintext_export(path: Option<String>) -> bool {
    match path {
        Some(p) => format_for(extension_of(p@)) == Ok::<ExportFormat, crate::export::FormatError>(
            ExportFormat::Csv,
        ) || format_for(extension_of(p@)) == Ok::<ExportFormat, crate::export::FormatError>(
            ExportFormat::Json,
        ),
        None => false,
    }
}

/// The title and the hint of the open settings dialog, if one is open; the
/// hint is the message of the moment, if there is one, and otherwise says
/// what the step is about. `target_exists` says whether the file an export
/// is about to write exists already.
pub open spec fn dialog_texts(app: App, target_exists: bool) -> Option<(Seq<char>, Seq<char>)> {
    let st = app.settings;
    let hint = |default: Seq<char>|
        match app.status {
            Some(m) => m@,
            None => default,
        };
    if st.exporting_database {
        Some(
            match st.export_step {
                ExportStep::Path => (
                    " Export to file (.kdbx / .csv / .json) "@,
                    hint("only Name, User, Password, URL, and TOTP are exported"@),
                ),
                ExportStep::Confirm => (
                    " Confirm export "@,
                    hint(
                        export_warning(
                            plaintext_export(st.pending_export_path),
                            st.pending_export_path is Some && target_exists,
                        ),
                    ),
                ),
            },
        )
    } else if st.importing_database {
        Some(
            match st.import_step {
                ImportStep::Path => (
                    " Import from file (.kdbx / .csv / .json) "@,
                    hint("only Name, User, Password, URL, TOTP and Notes are imported"@),
                ),
                ImportStep::KdbxPassword => (
                    " Password for that vault "@,
                    hint("that file's master password (not for this vault!)"@),
                ),
            },
        )
    } else if st.changing_password {
        Some(
            match st.password_change_step {
                PasswordChangeStep::Current => (
                    " Current master password "@,
                    hint("verify current master password"@),
                ),
                PasswordChangeStep::New => (
                    " New master password "@,
                    hint("this re-encrypts the vault with the new password"@),
                ),
                PasswordChangeStep::ConfirmNew => (
                    " Confirm new master password "@,
                    hint("this re-encrypts the vault with the new password"@),
                ),
            },
        )
    } else {
        None
    }
}

fn hint_or(app: &App, default: &str) -> (r: String)
    ensures
        r@ == match app.status {
            Some(m) => m@,
            None => default@,
        },
{
    match &app.status {
        Some(m) => owned(m.as_str()),
        None => owned(default),
    }
}

fn is_plaintext(path: &Option<String>) -> (r: bool)
    ensures
        r == plaintext_export(*path),
{
    match path {
        Some(p) => match detect_format(p.as_str()) {
            Ok(ExportFormat::Csv) | Ok(ExportFormat::Json) => true,
            _ => false,
        },
        None => false,
    }
}

fn warning_text(plaintext: bool, overwrite: bool) -> (r: &'static str)
    ensures
        r@ == export_warning(plaintext, overwrite),
{
    if plaintext && overwrite {
        "overwriting an existing file with all passwords in PLAINTEXT — press Enter to confirm"
    } else if plaintext {
        "writing all passwords in PLAINTEXT to disk — press Enter to confirm"
    } else if overwrite {
        "overwriting an existing file — press Enter to confirm"
    } else {
        "press Enter to confirm"
    }
}

/// The title and hint of the open settings dialog.
pub fn dialog_view(app: &App, target_exists: bool) -> (r: Option<(String, String)>)
    ensures
        match dialog_texts(*app, target_exists) {
            Some((t, h)) => r matches Some(p) && p.0@ == t && p.1@ == h,
            None => r is None,
        },
{
    let st = &app.settings;
    if st.exporting_database {
        match st.export_step {
            ExportStep::Path => Some((
                owned(" Export to file (.kdbx / .csv / .json) "),
                hint_or(app, "only Name, User, Password, URL, and TOTP are exported"),
            )),
            ExportStep::Confirm => {
                let plaintext = is_plaintext(&st.pending_export_path);
                let overwrite = st.pending_export_path.is_some() && target_exists;
                Some((owned(" Confirm export "), hint_or(app, warning_text(plaintext, overwrite))))
            },
        }
    } else if st.importing_database {
        match st.import_step {
            ImportStep::Path => Some((
                owned(" Import from file (.kdbx / .csv / .json) "),
                hint_or(app, "only Name, User, Password, URL, TOTP and Notes are imported"),
            )),
            ImportStep::KdbxPassword => Some((
                owned(" Password for that vault "),
                hint_or(app, "that file's master password (not for this vault!)"),
            )),
        }
    } else if st.changing_password {
        match st.password_change_step {
            PasswordChangeStep::Current => Some((
                owned(" Current master password "),
                hint_or(app, "verify current master password"),
            )),
            PasswordChangeStep::New => Some((
                owned(" New master password "),
                hint_or(app, "this re-encrypts the vault with the new password"),
            )),
            PasswordChangeStep::ConfirmNew => Some((
                owned(" Confirm new master password "),
                hint_or(app, "this re-encrypts the vault with the new password"),
            )),
        }
    } else {
        None
    }
}

/// What the input box of the open dialog shows: passwords as one bullet
/// per character, paths as typed.
pub open spec fn dialog_input_text(app: App) -> Seq<char> {
    let st = app.settings;
    let bullets = |s: Seq<char>| Seq::new(s.len(), |i: int| '•');
    if st.exporting_database {
        st.export_path_buffer@
    } else if st.importing_database {
        match st.import_step {
            ImportStep::Path => st.import_path_buffer@,
            ImportStep::KdbxPassword => bullets(st.import_kdbx_password_buffer@),
        }
    } else {
        match st.password_change_step {
            PasswordChangeStep::Current => bullets(st.current_password_buffer@),
            PasswordChangeStep::New => bullets(st.new_password_buffer@),
            PasswordChangeStep::ConfirmNew => bullets(st.new_password_confirm@),
        }
    }
}

fn bullets_for(s: &String) -> (r: String)
    ensures
        r@ == Seq::new(s@.len(), |i: int| '•'),
{
    let mut chars = chars_of(s.as_str());
    let n = chars.len();
    wipe_chars(&mut chars);
    let mut r = String::new();
    let mut i: usize = 0;
    while i < n
        invariant
            i <= n,
            n == s@.len(),
            r@ == Seq::new(i as nat, |k: int| '•'),
        decreases n - i,
    {
        r.push('•');
        i = i + 1;
        assert(r@ =~= Seq::new(i as nat, |k: int| '•'));
    }
    r
}

/// The input box of the open dialog.
pub fn dialog_input(app: &App) -> (r: String)
    ensures
        r@ == dialog_input_text(*app),
{
    let st = &app.settings;
    if st.exporting_database {
        owned(st.export_path_buffer.as_str())
    } else if st.importing_database {
        match st.import_step {
            ImportStep::Path => owned(st.import_path_buffer.as_str()),
            ImportStep::KdbxPassword => bullets_for(&st.import_kdbx_password_buffer),
        }
    } else {
        match st.password_change_step {
            PasswordChangeStep::Current => bullets_for(&st.current_password_buffer),
            PasswordChangeStep::New => bullets_for(&st.new_password_buffer),
            PasswordChangeStep::ConfirmNew => bullets_for(&st.new_password_confirm),
        }
    }
}

/// The theme list: each theme's name, and whether it is the configured
/// theme.
pub open spec fn theme_rows(app: App) -> Seq<(Seq<char>, bool)> {
    app.settings.available_themes@.map_values(
        |t: String| (t@, app.config.theme matches Some(c) && c@ == t@),
    )
}

/// The rows of the theme list.
pub fn theme_list(app: &App) -> (r: Vec<(String, bool)>)
    ensures
        r@.map_values(|p: (String, bool)| (p.0@, p.1)) == theme_rows(*app),
{
    let themes = &app.settings.available_themes;
    let mut r: Vec<(String, bool)> = Vec::new();
    let mut i: usize = 0;
    while i < themes.len()
        invariant
            i <= themes@.len(),
            themes == &app.settings.available_themes,
            r@.len() == i,
            forall|k: int|
                0 <= k < i ==> (#[trigger] r@[k]).0@ == themes@[k]@ && r@[k].1 == (
                app.config.theme matches Some(c) && c@ == themes@[k]@),
        decreases themes@.len() - i,
    {
        let active = match &app.config.theme {
            Some(c) => *c == themes[i],
            None => false,
        };
        r.push((owned(themes[i].as_str()), active));
        i = i + 1;
    }
    assert(r@.map_values(|p: (String, bool)| (p.0@, p.1)) =~= theme_rows(*app));
    r
}

} // verus!
