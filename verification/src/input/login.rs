//! Keys on the login screen: typing the master password and unlocking the
//! vault, or creating a new vault when none exists yet.

use vstd::prelude::*;
use vstd::utf8::encode_utf8;

use crate::app::{list_refreshed, message, message_with, says, App, Effect, LoginState, Screen};
use crate::db::{wipe_entries, Entry};
use crate::input::{normalize_shortcut, secret_pop, shortcut_of, KeyCode};
use crate::text::wipe;

verus! {

/// A secret after typing `c`: it takes the character while its UTF-8
/// encoding is shorter than `max` bytes.
pub open spec fn push_limited(s: Seq<char>, c: char, max: usize) -> Seq<char> {
    if (encode_utf8(s).len() as usize) < max {
        s.push(c)
    } else {
        s
    }
}

/// A secret after Backspace: its last character goes.
pub open spec fn popped(s: Seq<char>) -> Seq<char> {
    if s.len() > 0 {
        s.drop_last()
    } else {
        s
    }
}

pub(crate) fn push_limited_char(s: &mut String, c: char, max: usize)
    ensures
        final(s)@ == push_limited(old(s)@, c, max),
{
    if s.as_str().len() < max {
        s.push(c);
    }
}

/// Whether the configured vault is missing: none is configured, or the
/// configured path is not a file (`vault_file_exists` says whether it is).
pub fn database_missing(app: &App, vault_file_exists: bool) -> (r: bool)
    ensures
        r == (app.config.default_database is None || !vault_file_exists),
{
    app.config.default_database.is_none() || !vault_file_exists
}

/// The outcome of Enter on the login screen: the request to unlock the
/// configured vault, or a message when none is configured.
pub open spec fn unlock_requested(old: App, new: App, effect: Effect) -> bool {
    if old.config.default_database is None {
        new == (App { login: LoginState { error: new.login.error, ..old.login }, ..old }) && says(
            new.login.error,
            "No default_database set in configfile"@,
        ) && effect == Effect::Nothing
    } else {
        new == old && effect == Effect::Unlock
    }
}

/// Asks to unlock the configured vault with the typed password.
pub fn attempt_unlock(app: &mut App) -> (effect: Effect)
    ensures
        unlock_requested(*old(app), *final(app), effect),
{
    if app.config.default_database.is_none() {
        app.login.error = message("No default_database set in configfile");
        return Effect::Nothing;
    }
    Effect::Unlock
}

/// Takes the outcome of unlocking the vault: its entries on success, and
/// the error otherwise. Either way the typed password is wiped.
pub fn finish_unlock(app: &mut App, outcome: Result<Vec<Entry>, String>)
    ensures
        final(app).login.password@.len() == 0,
        match outcome {
            Ok(entries) => {
                &&& final(app).entries@ == entries@
                &&& list_refreshed(*final(app))
                &&& *final(app) == (App {
                    login: LoginState {
                        password: final(app).login.password,
                        error: None,
                        ..old(app).login
                    },
                    entries: final(app).entries,
                    filtered: final(app).filtered,
                    index_selected: final(app).index_selected,
                    vault_open: true,
                    screen: Screen::Index,
                    ..*old(app)
                })
            },
            Err(e) => {
                &&& final(app).login.error == Some(e)
                &&& *final(app) == (App {
                    login: LoginState {
                        password: final(app).login.password,
                        error: final(app).login.error,
                        ..old(app).login
                    },
                    ..*old(app)
                })
            },
        },
{
    match outcome {
        Ok(entries) => {
            wipe_entries(&mut app.entries);
            app.entries = entries;
            app.vault_open = true;
            wipe(&mut app.login.password);
            app.login.error = None;
            app.refresh_filter();
            app.screen = Screen::Index;
        },
        Err(e) => {
            wipe(&mut app.login.password);
            app.login.error = Some(e);
        },
    }
}

/// Takes the outcome of creating a vault at `path`. On success the
/// configuration points at it, its entries are listed and the index opens,
/// and `true` says that the configuration should now be written; on
/// failure the error is shown. Either way the typed passwords are wiped.
pub fn finish_create(app: &mut App, path: String, outcome: Result<Vec<Entry>, String>) -> (created: bool)
    ensures
        created == outcome is Ok,
        final(app).login.password@.len() == 0,
        final(app).login.new_db_confirm@.len() == 0,
        !final(app).login.confirming_new_db_password,
        match outcome {
            Ok(entries) => {
                &&& final(app).entries@ == entries@
                &&& final(app).config.default_database == Some(path)
                &&& list_refreshed(*final(app))
                &&& *final(app) == (App {
                    login: LoginState {
                        password: final(app).login.password,
                        new_db_confirm: final(app).login.new_db_confirm,
                        creating_database: false,
                        confirming_new_db_password: false,
                        error: None,
                    },
                    config: final(app).config,
                    entries: final(app).entries,
                    filtered: final(app).filtered,
                    index_selected: final(app).index_selected,
                    vault_open: true,
                    screen: Screen::Index,
                    ..*old(app)
                })
                &&& final(app).config == (crate::config::Config {
                    default_database: Some(path),
                    ..old(app).config
                })
            },
            Err(e) => {
                &&& says(final(app).login.error, "Couldn't create database: "@ + e@)
                &&& *final(app) == (App {
                    login: LoginState {
                        password: final(app).login.password,
                        new_db_confirm: final(app).login.new_db_confirm,
                        confirming_new_db_password: false,
                        error: final(app).login.error,
                        ..old(app).login
                    },
                    ..*old(app)
                })
            },
        },
{
    match outcome {
        Ok(entries) => {
            app.config.default_database = Some(path);
            wipe_entries(&mut app.entries);
            app.entries = entries;
            app.vault_open = true;
            wipe(&mut app.login.password);
            wipe(&mut app.login.new_db_confirm);
            app.login.creating_database = false;
            app.login.confirming_new_db_password = false;
            app.login.error = None;
            app.refresh_filter();
            app.screen = Screen::Index;
            true
        },
        Err(e) => {
            app.login.error = message_with("Couldn't create database: ", e.as_str());
            wipe(&mut app.login.password);
            wipe(&mut app.login.new_db_confirm);
            app.login.confirming_new_db_password = false;
            false
        },
    }
}

/// Reports, once a new vault exists at `path`, whether the configuration
/// that points at it could be written.
pub fn report_config_save(app: &mut App, path: &str, result: Result<(), String>)
    ensures
        match result {
            Ok(()) => says(final(app).status, "Created new database at "@ + path@),
            Err(e) => says(final(app).status, "Database created, but couldn't save config: "@ + e@),
        },
        *final(app) == (App { status: final(app).status, ..*old(app) }),
{
    app.status = match result {
        Ok(()) => message_with("Created new database at ", path),
        Err(e) => message_with("Database created, but couldn't save config: ", e.as_str()),
    };
}

/// The login screen after the creation of a vault starts (`creating`) or
/// is given up: nothing typed and no message.
pub open spec fn creation_reset(old: LoginState, new: LoginState, creating: bool) -> bool {
    &&& new.password@.len() == 0
    &&& new.new_db_confirm@.len() == 0
    &&& new == (LoginState {
        password: new.password,
        new_db_confirm: new.new_db_confirm,
        creating_database: creating,
        confirming_new_db_password: false,
        error: None,
    })
}

fn reset_creation(login: &mut LoginState, creating: bool)
    ensures
        creation_reset(*old(login), *final(login), creating),
{
    login.creating_database = creating;
    login.confirming_new_db_password = false;
    wipe(&mut login.password);
    wipe(&mut login.new_db_confirm);
    login.error = None;
}

/// What a key does when no vault exists yet: `c` creates one, with the
/// password already typed or else after asking for one, and Esc quits.
pub open spec fn missing_step(old: App, new: App, code: KeyCode, effect: Effect) -> bool {
    match shortcut_of(code) {
        KeyCode::Char('c') => if old.login.password@.len() == 0 {
            creation_reset(old.login, new.login, true) && new == (App { login: new.login, ..old })
                && effect == Effect::Nothing
        } else {
            new == old && effect == Effect::CreateDatabase
        },
        KeyCode::Esc => new == (App { should_quit: true, ..old }) && effect == Effect::Nothing,
        _ => new == old && effect == Effect::Nothing,
    }
}

fn handle_missing_database_input(app: &mut App, code: KeyCode) -> (effect: Effect)
    ensures
        missing_step(*old(app), *final(app), code, effect),
{
    match normalize_shortcut(code) {
        KeyCode::Char('c') => {
            if app.login.password.as_str().is_empty() {
                reset_creation(&mut app.login, true);
                Effect::Nothing
            } else {
                Effect::CreateDatabase
            }
        },
        KeyCode::Esc => {
            app.should_quit = true;
            Effect::Nothing
        },
        _ => Effect::Nothing,
    }
}

/// Enter once the new password was typed a second time: the two must be
/// the same, or the second is asked for again.
pub open spec fn confirmation_checked(old: App, new: App, effect: Effect) -> bool {
    if old.login.new_db_confirm@ != old.login.password@ {
        &&& says(new.login.error, "Passwords don't match"@)
        &&& new.login.new_db_confirm@.len() == 0
        &&& new == (App {
            login: LoginState {
                error: new.login.error,
                new_db_confirm: new.login.new_db_confirm,
                confirming_new_db_password: false,
                ..old.login
            },
            ..old
        })
        &&& effect == Effect::Nothing
    } else {
        new == old && effect == Effect::CreateDatabase
    }
}

fn finish_create_database(app: &mut App) -> (effect: Effect)
    ensures
        confirmation_checked(*old(app), *final(app), effect),
{
    if !(app.login.new_db_confirm == app.login.password) {
        app.login.error = message("Passwords don't match");
        wipe(&mut app.login.new_db_confirm);
        app.login.confirming_new_db_password = false;
        return Effect::Nothing;
    }
    Effect::CreateDatabase
}

/// What a key does while a new vault's password is typed: first the
/// password, then, after Enter, the same password again.
pub open spec fn create_step(old: App, new: App, code: KeyCode, effect: Effect) -> bool {
    let l = old.login;
    match code {
        KeyCode::Char(c) => effect == Effect::Nothing && if l.confirming_new_db_password {
            new.login.new_db_confirm@ == push_limited(l.new_db_confirm@, c, old.max_len) && new == (
            App {
                login: LoginState { new_db_confirm: new.login.new_db_confirm, error: None, ..l },
                ..old
            })
        } else {
            new.login.password@ == push_limited(l.password@, c, old.max_len) && new == (App {
                login: LoginState { password: new.login.password, error: None, ..l },
                ..old
            })
        },
        KeyCode::Backspace => effect == Effect::Nothing && if l.confirming_new_db_password {
            new.login.new_db_confirm@ == popped(l.new_db_confirm@) && new == (App {
                login: LoginState { new_db_confirm: new.login.new_db_confirm, error: None, ..l },
                ..old
            })
        } else {
            new.login.password@ == popped(l.password@) && new == (App {
                login: LoginState { password: new.login.password, error: None, ..l },
                ..old
            })
        },
        KeyCode::Enter => if l.confirming_new_db_password {
            confirmation_checked(old, new, effect)
        } else if l.password@.len() == 0 {
            new == (App { login: LoginState { error: new.login.error, ..l }, ..old }) && says(
                new.login.error,
                "Master password can't be empty"@,
            ) && effect == Effect::Nothing
        } else {
            new == (App { login: LoginState { confirming_new_db_password: true, ..l }, ..old })
                && effect == Effect::Nothing
        },
        KeyCode::Esc => creation_reset(l, new.login, false) && new == (App { login: new.login, ..old })
            && effect == Effect::Nothing,
        _ => new == old && effect == Effect::Nothing,
    }
}

fn handle_create_database_input(app: &mut App, code: KeyCode) -> (effect: Effect)
    ensures
        create_step(*old(app), *final(app), code, effect),
{
    match code {
        KeyCode::Char(c) => {
            app.login.error = None;
            let limit = app.max_len;
            if app.login.confirming_new_db_password {
                push_limited_char(&mut app.login.new_db_confirm, c, limit);
            } else {
                push_limited_char(&mut app.login.password, c, limit);
            }
            Effect::Nothing
        },
        KeyCode::Backspace => {
            app.login.error = None;
            if app.login.confirming_new_db_password {
                secret_pop(&mut app.login.new_db_confirm);
            } else {
                secret_pop(&mut app.login.password);
            }
            Effect::Nothing
        },
        KeyCode::Enter => {
            if app.login.confirming_new_db_password {
                finish_create_database(app)
            } else if app.login.password.as_str().is_empty() {
                app.login.error = message("Master password can't be empty");
                Effect::Nothing
            } else {
                app.login.confirming_new_db_password = true;
                Effect::Nothing
            }
        },
        KeyCode::Esc => {
            reset_creation(&mut app.login, false);
            Effect::Nothing
        },
        _ => Effect::Nothing,
    }
}

/// What a key does while the master password of an existing vault is
/// typed.
pub open spec fn password_step(old: App, new: App, code: KeyCode, effect: Effect) -> bool {
    let l = old.login;
    match code {
        KeyCode::Char(c) => effect == Effect::Nothing && new.login.password@ == push_limited(
            l.password@,
            c,
            old.max_len,
        ) && new == (App {
            login: LoginState { password: new.login.password, error: None, ..l },
            ..old
        }),
        KeyCode::Backspace => effect == Effect::Nothing && new.login.password@ == popped(
            l.password@,
        ) && new == (App {
            login: LoginState { password: new.login.password, error: None, ..l },
            ..old
        }),
        KeyCode::Enter => unlock_requested(old, new, effect),
        KeyCode::Esc => new == (App { should_quit: true, ..old }) && effect == Effect::Nothing,
        _ => new == old && effect == Effect::Nothing,
    }
}

/// What one key does on the login screen; `vault_file_exists` says whether
/// the configured vault is a file.
pub open spec fn login_step(
    old: App,
    new: App,
    code: KeyCode,
    vault_file_exists: bool,
    effect: Effect,
) -> bool {
    if old.login.creating_database {
        create_step(old, new, code, effect)
    } else if old.config.default_database is None || !vault_file_exists {
        missing_step(old, new, code, effect)
    } else {
        password_step(old, new, code, effect)
    }
}

/// Applies one key on the login screen and says what work it asks for.
pub fn handle_login_input(app: &mut App, code: KeyCode, vault_file_exists: bool) -> (effect: Effect)
    ensures
        login_step(*old(app), *final(app), code, vault_file_exists, effect),
{
    if app.login.creating_database {
        return handle_create_database_input(app, code);
    }
    if database_missing(app, vault_file_exists) {
        return handle_missing_database_input(app, code);
    }
    match code {
        KeyCode::Char(c) => {
            app.login.error = None;
            let limit = app.max_len;
            push_limited_char(&mut app.login.password, c, limit);
            Effect::Nothing
        },
        KeyCode::Backspace => {
            app.login.error = None;
            secret_pop(&mut app.login.password);
            Effect::Nothing
        },
        KeyCode::Enter => attempt_unlock(app),
        KeyCode::Esc => {
            app.should_quit = true;
            Effect::Nothing
        },
        _ => Effect::Nothing,
    }
}

/// What happens at start: with a password already handed in, the vault is
/// unlocked, or created when it is missing; otherwise nothing.
pub fn initialize_database(app: &mut App, vault_file_exists: bool) -> (effect: Effect)
    ensures
        if old(app).login.password@.len() == 0 {
            *final(app) == *old(app) && effect == Effect::Nothing
        } else if old(app).config.default_database is None || !vault_file_exists {
            *final(app) == *old(app) && effect == Effect::CreateDatabase
        } else {
            unlock_requested(*old(app), *final(app), effect)
        },
{
    if app.login.password.as_str().is_empty() {
        return Effect::Nothing;
    }
    if database_missing(app, vault_file_exists) {
        Effect::CreateDatabase
    } else {
        attempt_unlock(app)
    }
}

} // verus!
