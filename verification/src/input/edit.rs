//! Keys on the entry screen: moving between fields, editing one, revealing
//! the password, saving or discarding changes, and deleting the entry.

use vstd::prelude::*;

use crate::app::{list_refreshed, message, message_with, says, App, EditState, Effect, Screen};
use crate::db::{clear_entry, is_blank, remove_entry, replace_entry, trimmed, Entry};
use crate::input::command::previewing;
use crate::input::fieldedit::{close_editor, EditAction, FieldEditor, FieldMode, FieldState};
use crate::input::{normalize_shortcut, shortcut_of, KeyCode, KeyEvent};

verus! {

pub const FIELD_COUNT: usize = 7;

pub const NAME_INDEX: usize = 0;

pub const USER_INDEX: usize = 1;

pub const PASSWORD_INDEX: usize = 2;

pub const URL_INDEX: usize = 3;

pub const TOTP_INDEX: usize = 4;

pub const LAST_MODIFIED_INDEX: usize = 5;

pub const NOTES_INDEX: usize = 6;

/// The editable field shown in row `i`, if that row holds one.
#[verifier::opaque]
pub open spec fn field_of(e: Entry, i: usize) -> Option<Seq<char>> {
    if i == NAME_INDEX {
        Some(e.name@)
    } else if i == USER_INDEX {
        Some(e.user@)
    } else if i == PASSWORD_INDEX {
        Some(e.password@)
    } else if i == URL_INDEX {
        Some(e.url@)
    } else if i == TOTP_INDEX {
        Some(e.totp@)
    } else if i == NOTES_INDEX {
        Some(e.notes@)
    } else {
        None
    }
}

/// Whether `new` is `old` with the field in row `i` set to `text`; rows
/// without an editable field leave the entry as it is.
pub open spec fn field_set(old: Entry, new: Entry, i: usize, text: Seq<char>) -> bool {
    if i == NAME_INDEX {
        new == Entry { name: new.name, ..old } && new.name@ == text
    } else if i == USER_INDEX {
        new == Entry { user: new.user, ..old } && new.user@ == text
    } else if i == PASSWORD_INDEX {
        new == Entry { password: new.password, ..old } && new.password@ == text
    } else if i == URL_INDEX {
        new == Entry { url: new.url, ..old } && new.url@ == text
    } else if i == TOTP_INDEX {
        new == Entry { totp: new.totp, ..old } && new.totp@ == text
    } else if i == NOTES_INDEX {
        new == Entry { notes: new.notes, ..old } && new.notes@ == text
    } else {
        new == old
    }
}

/// The selected row, reading no selection as the first row.
pub open spec fn edit_row(edit: EditState) -> usize {
    match edit.selected {
        Some(s) => s,
        None => 0,
    }
}

/// The entry screen once it is left: no entry open, nothing pending.
pub open spec fn closed_edit(old: EditState) -> EditState {
    EditState {
        selected: None,
        entry: None,
        original: None,
        target: None,
        editing_field: false,
        field_editor: None,
        confirm_delete: false,
        confirm_exit: false,
        reveal_password: false,
        ..old
    }
}

/// The state after leaving the entry screen for the index.
pub open spec fn edit_closed(old: App) -> App {
    App { edit: closed_edit(old.edit), screen: Screen::Index, ..old }
}

/// Whether the entry differs from the one the screen opened with in a
/// field the user can edit.
pub open spec fn has_changes(edit: EditState) -> bool {
    match (edit.entry, edit.original) {
        (Some(e), Some(o)) => e.name@ != o.name@ || e.user@ != o.user@ || e.password@
            != o.password@ || e.url@ != o.url@ || e.totp@ != o.totp@ || e.notes@ != o.notes@,
        _ => false,
    }
}

fn reset_edit_state(app: &mut App)
    ensures
        *final(app) == edit_closed(*old(app)),
{
    clear_entry(&mut app.edit.entry);
    clear_entry(&mut app.edit.original);
    app.edit.target = None;
    app.edit.editing_field = false;
    close_editor(&mut app.edit.field_editor);
    app.edit.confirm_delete = false;
    app.edit.confirm_exit = false;
    app.edit.reveal_password = false;
    app.edit.selected = None;
    app.screen = Screen::Index;
}

fn has_unsaved_changes(edit: &EditState) -> (r: bool)
    ensures
        r == has_changes(*edit),
{
    match (&edit.entry, &edit.original) {
        (Some(entry), Some(original)) => !(entry.name == original.name) || !(entry.user
            == original.user) || !(entry.password == original.password) || !(entry.url
            == original.url) || !(entry.totp == original.totp) || !(entry.notes == original.notes),
        _ => false,
    }
}

/// The row Down (`down`) or Up selects: the next or previous field,
/// wrapping around the seven rows.
pub open spec fn row_after(sel: usize, down: bool) -> usize {
    if down {
        ((sel as int + 1) % (FIELD_COUNT as int)) as usize
    } else {
        ((sel as int + FIELD_COUNT - 1) % (FIELD_COUNT as int)) as usize
    }
}

fn move_selection(edit: &mut EditState, down: bool)
    ensures
        *final(edit) == (EditState { selected: Some(row_after(edit_row(*old(edit)), down)), ..*old(edit) }),
{
    let current = match edit.selected {
        Some(s) => s,
        None => 0,
    };
    let within = current % FIELD_COUNT;
    let next = if down {
        if within == FIELD_COUNT - 1 {
            0
        } else {
            within + 1
        }
    } else {
        if within == 0 {
            FIELD_COUNT - 1
        } else {
            within - 1
        }
    };
    assert(next == row_after(current, down)) by (nonlinear_arith)
        requires
            within == current % 7,
            next == if down {
                if within == 6 {
                    0
                } else {
                    within + 1
                }
            } else {
                if within == 0 {
                    6
                } else {
                    within - 1
                }
            },
            FIELD_COUNT == 7,
    ;
    edit.selected = Some(next);
}

/// The editor a field opens in: the notes in a multiline one, every other
/// field in a single-line one, with the cursor at the start.
pub open spec fn opened_on(text: Seq<char>, row: usize) -> FieldState {
    FieldState {
        text,
        cursor: 0,
        preferred_column: None,
        mode: if row == NOTES_INDEX {
            FieldMode::Multiline
        } else {
            FieldMode::SingleLine
        },
    }
}

/// An editor holding the text of the field in row `row`, if that row holds
/// an editable field.
fn editor_for(entry: &Entry, row: usize) -> (r: Option<FieldEditor>)
    ensures
        match field_of(*entry, row) {
            None => r is None,
            Some(text) => r matches Some(f) && f@ == opened_on(text, row),
        },
{
    reveal(field_of);
    if row == NAME_INDEX {
        Some(FieldEditor::with_text(entry.name.as_str()))
    } else if row == USER_INDEX {
        Some(FieldEditor::with_text(entry.user.as_str()))
    } else if row == PASSWORD_INDEX {
        Some(FieldEditor::with_text(entry.password.as_str()))
    } else if row == URL_INDEX {
        Some(FieldEditor::with_text(entry.url.as_str()))
    } else if row == TOTP_INDEX {
        Some(FieldEditor::with_text(entry.totp.as_str()))
    } else if row == NOTES_INDEX {
        Some(FieldEditor::with_multiline_text(entry.notes.as_str()))
    } else {
        None
    }
}

/// The state after Enter on a row: the row's field opens in an editor
/// holding its text (and the password is revealed); the last-modified row
/// only says it cannot be edited.
pub open spec fn editing_started(
    old: EditState,
    old_status: Option<String>,
    new: EditState,
    new_status: Option<String>,
) -> bool {
    let sel = edit_row(old);
    if sel == LAST_MODIFIED_INDEX {
        new == old && says(new_status, "Last modified is set automatically"@)
    } else {
        match old.entry {
            None => new == old && new_status == old_status,
            Some(e) => match field_of(e, sel) {
                None => new == old && new_status == old_status,
                Some(text) => {
                    &&& new.field_editor matches Some(f) && f@ == opened_on(text, sel)
                    &&& new == (EditState {
                        field_editor: new.field_editor,
                        reveal_password: sel == PASSWORD_INDEX || old.reveal_password,
                        editing_field: true,
                        ..old
                    })
                    &&& new_status is None
                },
            },
        }
    }
}

fn start_editing_field(edit: &mut EditState, status: &mut Option<String>)
    ensures
        editing_started(*old(edit), *old(status), *final(edit), *final(status)),
{
    let selected = match edit.selected {
        Some(s) => s,
        None => 0,
    };
    if selected == LAST_MODIFIED_INDEX {
        *status = message("Last modified is set automatically");
        return;
    }
    let editor = match &edit.entry {
        None => None,
        Some(entry) => editor_for(entry, selected),
    };
    if editor.is_some() {
        if selected == PASSWORD_INDEX {
            edit.reveal_password = true;
        }
        close_editor(&mut edit.field_editor);
        edit.field_editor = editor;
        edit.editing_field = true;
        *status = None;
    }
}

/// The state after the text of the open editor, `text`, is put into the
/// selected field of the entry and the editor closes.
pub open spec fn field_committed(old: EditState, new: EditState, text: Seq<char>) -> bool {
    &&& match old.entry {
        Some(e) => new.entry matches Some(n) && field_set(e, n, edit_row(old), text),
        None => new.entry is None,
    }
    &&& new == (EditState { entry: new.entry, field_editor: None, editing_field: false, ..old })
}

fn commit_field(edit: &mut EditState, value: String)
    ensures
        field_committed(*old(edit), *final(edit), value@),
{
    let selected = match edit.selected {
        Some(s) => s,
        None => 0,
    };
    edit.field_editor = None;
    if let Some(mut entry) = edit.entry.take() {
        if selected == NAME_INDEX {
            entry.name = value;
        } else if selected == USER_INDEX {
            entry.user = value;
        } else if selected == PASSWORD_INDEX {
            entry.password = value;
        } else if selected == URL_INDEX {
            entry.url = value;
        } else if selected == TOTP_INDEX {
            entry.totp = value;
        } else if selected == NOTES_INDEX {
            entry.notes = value;
        }
        edit.entry = Some(entry);
    }
    edit.editing_field = false;
}

/// What a key does while a field is being edited: the editor takes it, and
/// Enter (in a single-line field) or Ctrl-s puts the text into the entry,
/// while Esc closes the editor and keeps the field as it was.
pub open spec fn field_step(old: EditState, new: EditState, key: KeyEvent) -> bool {
    match old.field_editor {
        None => new == (EditState { editing_field: false, ..old }),
        Some(ed) => {
            let (st, action) = ed@.after_key(key);
            match action {
                EditAction::Continue => new.field_editor matches Some(f) && f@ == st && new == (
                EditState { field_editor: new.field_editor, ..old }),
                EditAction::Accept => field_committed(old, new, st.text),
                EditAction::Cancel => new == (EditState {
                    editing_field: false,
                    field_editor: None,
                    ..old
                }),
            }
        },
    }
}

fn handle_field_input(edit: &mut EditState, key: KeyEvent)
    ensures
        field_step(*old(edit), *final(edit), key),
{
    let mut editor = match edit.field_editor.take() {
        Some(e) => e,
        None => {
            edit.editing_field = false;
            return;
        },
    };
    let action = editor.handle_key(key);
    match action {
        EditAction::Continue => {
            edit.field_editor = Some(editor);
        },
        EditAction::Accept => {
            let value = editor.into_text();
            commit_field(edit, value);
        },
        EditAction::Cancel => {
            editor.discard();
            edit.editing_field = false;
        },
    }
}

/// The state after Esc on the entry screen: with unsaved changes the
/// screen asks whether to save them, otherwise it closes.
pub open spec fn close_requested(old: App, new: App) -> bool {
    if has_changes(old.edit) {
        new == (App {
            edit: EditState { confirm_exit: true, ..old.edit },
            status: new.status,
            ..old
        }) && says(new.status, "Save changes? [y] yes  [n] no"@)
    } else {
        new == edit_closed(old)
    }
}

fn request_close_edit(app: &mut App)
    ensures
        close_requested(*old(app), *final(app)),
{
    if has_unsaved_changes(&app.edit) {
        app.edit.confirm_exit = true;
        app.status = message("Save changes? [y] yes  [n] no");
    } else {
        reset_edit_state(app);
    }
}

/// Where the edited entry `e` goes when it is saved: over the entry it was
/// opened from, or, for a new entry with a name, at the end of the list; a
/// new entry whose name is blank is dropped.
pub open spec fn saved_slot(old: App, e: Entry) -> Option<usize> {
    match old.edit.target {
        Some(idx) => Some(idx),
        None => if trimmed(e.name@).len() == 0 {
            None
        } else {
            Some(old.entries@.len() as usize)
        },
    }
}

/// The entries once the edited entry `e` is saved into the list.
pub open spec fn entries_after_save(old: App, e: Entry) -> Seq<Entry> {
    match old.edit.target {
        Some(idx) => if idx < old.entries@.len() {
            old.entries@.update(idx as int, e)
        } else {
            old.entries@
        },
        None => if trimmed(e.name@).len() == 0 {
            old.entries@
        } else {
            old.entries@.push(e)
        },
    }
}

/// The state after the edited entry is put into the list, which is
/// computed again; `saved` is where it went.
pub open spec fn edit_saved(old: App, new: App, saved: Option<usize>) -> bool {
    match old.edit.entry {
        None => new == old && saved is None,
        Some(e) => {
            &&& saved == saved_slot(old, e)
            &&& new.entries@ == entries_after_save(old, e)
            &&& list_refreshed(new)
            &&& new == (App {
                edit: EditState { entry: None, ..old.edit },
                entries: new.entries,
                filtered: new.filtered,
                index_selected: new.index_selected,
                ..old
            })
        },
    }
}

fn save_edit(app: &mut App) -> (saved: Option<usize>)
    ensures
        edit_saved(*old(app), *final(app), saved),
{
    let entry = match app.edit.entry.take() {
        Some(e) => e,
        None => return None,
    };
    let saved = match app.edit.target {
        Some(idx) => {
            if idx < app.entries.len() {
                replace_entry(&mut app.entries, idx, entry);
            }
            Some(idx)
        },
        None => {
            if is_blank(entry.name.as_str()) {
                None
            } else {
                app.entries.push(entry);
                Some(app.entries.len() - 1)
            }
        },
    };
    app.refresh_filter();
    saved
}

/// Whether the vault and the path it is written to are at hand.
pub open spec fn vault_ready(app: App) -> bool {
    app.vault_open && app.config.default_database is Some
}

/// The outcome of asking to write the entry at `idx` to the vault: a
/// message when the vault is locked, nothing for a position past the list,
/// and otherwise the request to write it.
pub open spec fn save_requested(old: App, new: App, idx: usize, effect: Effect) -> bool {
    if !vault_ready(old) {
        new == (App { status: new.status, ..old }) && says(
            new.status,
            "Not saved: database is locked"@,
        ) && effect == Effect::Nothing
    } else if idx >= old.entries@.len() {
        new == old && effect == Effect::Nothing
    } else {
        new == old && effect == (Effect::SaveEntry { index: idx })
    }
}

fn persist_entry(app: &mut App, idx: usize) -> (effect: Effect)
    ensures
        save_requested(*old(app), *final(app), idx, effect),
{
    if !app.vault_open || app.config.default_database.is_none() {
        app.status = message("Not saved: database is locked");
        return Effect::Nothing;
    }
    if idx >= app.entries.len() {
        return Effect::Nothing;
    }
    Effect::SaveEntry { index: idx }
}

/// The state after the entry screen closes keeping its changes: the entry
/// goes into the list, is written to the vault, and the index shows again.
pub open spec fn saved_and_closed(old: App, new: App, effect: Effect) -> bool {
    exists|mid: App, saved: Option<usize>, last: App|
        #![trigger edit_saved(old, mid, saved), edit_closed(last)]
        {
            &&& edit_saved(old, mid, saved)
            &&& match saved {
                Some(idx) => save_requested(mid, last, idx, effect),
                None => last == mid && effect == Effect::Nothing,
            }
            &&& new == edit_closed(last)
        }
}

fn close_edit(app: &mut App) -> (effect: Effect)
    ensures
        saved_and_closed(*old(app), *final(app), effect),
{
    let ghost start = *app;
    let saved = save_edit(app);
    let ghost mid = *app;
    let effect = match saved {
        Some(idx) => persist_entry(app, idx),
        None => Effect::Nothing,
    };
    let ghost last = *app;
    reset_edit_state(app);
    assert(edit_saved(start, mid, saved) && edit_closed(last) == *app);
    effect
}

/// What a key does while the screen asks whether to save changes: `y`
/// saves and closes, `n` discards and closes, Esc goes back to editing.
pub open spec fn exit_step(old: App, new: App, code: KeyCode, effect: Effect) -> bool {
    match shortcut_of(code) {
        KeyCode::Char('y') => saved_and_closed(
            App { edit: EditState { confirm_exit: false, ..old.edit }, ..old },
            new,
            effect,
        ),
        KeyCode::Char('n') => new == (App { status: new.status, ..edit_closed(old) }) && says(
            new.status,
            "Changes discarded"@,
        ) && effect == Effect::Nothing,
        KeyCode::Esc => new == (App {
            edit: EditState { confirm_exit: false, ..old.edit },
            status: None,
            ..old
        }) && effect == Effect::Nothing,
        _ => new == old && effect == Effect::Nothing,
    }
}

fn handle_exit_confirmation(app: &mut App, code: KeyCode) -> (effect: Effect)
    ensures
        exit_step(*old(app), *final(app), code, effect),
{
    match normalize_shortcut(code) {
        KeyCode::Char('y') => {
            app.edit.confirm_exit = false;
            close_edit(app)
        },
        KeyCode::Char('n') => {
            app.edit.confirm_exit = false;
            reset_edit_state(app);
            app.status = message("Changes discarded");
            Effect::Nothing
        },
        KeyCode::Esc => {
            app.edit.confirm_exit = false;
            app.status = None;
            Effect::Nothing
        },
        _ => Effect::Nothing,
    }
}

/// Takes the outcome of writing the entry at `index` to the vault. When the
/// entry reached the vault, `stamp` holds the identifier the vault gave it
/// and its new modification time, which the list records.
pub fn finish_save(
    app: &mut App,
    index: usize,
    stamp: Option<(u128, String)>,
    outcome: Result<(), String>,
)
    ensures
        final(app).entries@ == match stamp {
            Some((id, date)) => if index < old(app).entries@.len() {
                old(app).entries@.update(
                    index as int,
                    Entry {
                        id: Some(id),
                        date_last_modify: date,
                        ..old(app).entries@[index as int]
                    },
                )
            } else {
                old(app).entries@
            },
            None => old(app).entries@,
        },
        match outcome {
            Ok(()) => says(final(app).status, "Saved"@),
            Err(e) => says(final(app).status, "Failed to save: "@ + e@),
        },
        *final(app) == (App { entries: final(app).entries, status: final(app).status, ..*old(app) }),
{
    if let Some((id, date)) = stamp {
        if index < app.entries.len() {
            let ghost stamped = date;
            let mut entry = app.entries.remove(index);
            entry.id = Some(id);
            entry.date_last_modify = date;
            app.entries.insert(index, entry);
            assert(app.entries@ =~= old(app).entries@.update(
                index as int,
                Entry { id: Some(id), date_last_modify: stamped, ..old(app).entries@[index as int] },
            ));
        }
    }
    app.status = match outcome {
        Ok(()) => message("Saved"),
        Err(e) => message_with("Failed to save: ", e.as_str()),
    };
}

/// The state after `d` on the entry screen: the deletion awaits
/// confirmation, unless no entry is open.
pub open spec fn deletion_asked(
    old: EditState,
    old_status: Option<String>,
    new: EditState,
    new_status: Option<String>,
) -> bool {
    if old.entry is None {
        new == old && new_status == old_status
    } else {
        new == (EditState { confirm_delete: true, ..old }) && says(
            new_status,
            "Delete this entry? [y] confirm  [any other key] cancel"@,
        )
    }
}

fn start_delete_confirmation(edit: &mut EditState, status: &mut Option<String>)
    ensures
        deletion_asked(*old(edit), *old(status), *final(edit), *final(status)),
{
    if edit.entry.is_none() {
        return;
    }
    edit.confirm_delete = true;
    *status = message("Delete this entry? [y] confirm  [any other key] cancel");
}

/// The entries once the edited entry leaves the list.
pub open spec fn entries_after_delete(old: App) -> Seq<Entry> {
    match old.edit.target {
        Some(idx) => if idx < old.entries@.len() {
            old.entries@.remove(idx as int)
        } else {
            old.entries@
        },
        None => old.entries@,
    }
}

/// The state after the edited entry is gone: out of the list, the screen
/// closed, and a message saying so.
pub open spec fn entry_removed(old: App, new: App) -> bool {
    &&& new.entries@ == entries_after_delete(old)
    &&& list_refreshed(new)
    &&& says(new.status, "Entry deleted"@)
    &&& new == (App {
        entries: new.entries,
        filtered: new.filtered,
        index_selected: new.index_selected,
        status: new.status,
        ..edit_closed(old)
    })
}

fn remove_edited_entry(app: &mut App)
    ensures
        entry_removed(*old(app), *final(app)),
{
    if let Some(idx) = app.edit.target {
        if idx < app.entries.len() {
            remove_entry(&mut app.entries, idx);
        }
    }
    app.refresh_filter();
    reset_edit_state(app);
    app.status = message("Entry deleted");
}

/// The outcome of confirming the deletion of the edited entry: an entry
/// that never reached the vault just leaves the list; a saved one is
/// removed from the vault first, unless the vault is locked.
pub open spec fn edited_delete_requested(old: App, new: App, effect: Effect) -> bool {
    match old.edit.entry {
        None => new == edit_closed(old) && effect == Effect::Nothing,
        Some(e) => match e.id {
            Some(id) => if !vault_ready(old) {
                new == (App { status: new.status, ..old }) && says(
                    new.status,
                    "Not deleted: database is locked"@,
                ) && effect == Effect::Nothing
            } else {
                new == old && effect == (Effect::DeleteEditedEntry { id })
            },
            None => entry_removed(old, new) && effect == Effect::Nothing,
        },
    }
}

fn delete_current_entry(app: &mut App) -> (effect: Effect)
    ensures
        edited_delete_requested(*old(app), *final(app), effect),
{
    let id = match &app.edit.entry {
        None => {
            reset_edit_state(app);
            return Effect::Nothing;
        },
        Some(entry) => entry.id,
    };
    match id {
        Some(id) => {
            if !app.vault_open || app.config.default_database.is_none() {
                app.status = message("Not deleted: database is locked");
                Effect::Nothing
            } else {
                Effect::DeleteEditedEntry { id }
            }
        },
        None => {
            remove_edited_entry(app);
            Effect::Nothing
        },
    }
}

/// Takes the outcome of removing the edited entry from the vault: on
/// success it leaves the list and the screen closes, otherwise the error
/// is shown and the entry stays open.
pub fn finish_edit_delete(app: &mut App, outcome: Result<(), String>)
    ensures
        match outcome {
            Ok(()) => entry_removed(*old(app), *final(app)),
            Err(e) => says(final(app).status, "Failed to delete: "@ + e@) && *final(app) == (App {
                status: final(app).status,
                ..*old(app)
            }),
        },
{
    match outcome {
        Ok(()) => remove_edited_entry(app),
        Err(e) => {
            app.status = message_with("Failed to delete: ", e.as_str());
        },
    }
}

/// What a key does while the deletion of the entry awaits confirmation:
/// `y` confirms it, any other key cancels it.
pub open spec fn delete_confirm_step(old: App, new: App, code: KeyCode, effect: Effect) -> bool {
    let cleared = App { edit: EditState { confirm_delete: false, ..old.edit }, status: None, ..old };
    if shortcut_of(code) == KeyCode::Char('y') {
        edited_delete_requested(cleared, new, effect)
    } else {
        new == cleared && effect == Effect::Nothing
    }
}

fn handle_delete_confirmation(app: &mut App, code: KeyCode) -> (effect: Effect)
    ensures
        delete_confirm_step(*old(app), *final(app), code, effect),
{
    app.edit.confirm_delete = false;
    app.status = None;
    match normalize_shortcut(code) {
        KeyCode::Char('y') => delete_current_entry(app),
        _ => Effect::Nothing,
    }
}

/// What a key does on the entry screen when no field is open and nothing
/// awaits confirmation.
pub open spec fn browse_step(old: App, new: App, code: KeyCode) -> bool {
    match shortcut_of(code) {
        KeyCode::Esc => close_requested(old, new),
        KeyCode::Enter => editing_started(old.edit, old.status, new.edit, new.status) && new == (
        App { edit: new.edit, status: new.status, ..old }),
        KeyCode::Char('v') => new == (App {
            edit: EditState { reveal_password: !old.edit.reveal_password, ..old.edit },
            ..old
        }),
        KeyCode::Char('d') => deletion_asked(old.edit, old.status, new.edit, new.status) && new == (
        App { edit: new.edit, status: new.status, ..old }),
        KeyCode::Down => new == (App {
            edit: EditState { selected: Some(row_after(edit_row(old.edit), true)), ..old.edit },
            ..old
        }),
        KeyCode::Up => new == (App {
            edit: EditState { selected: Some(row_after(edit_row(old.edit), false)), ..old.edit },
            ..old
        }),
        _ => new == old,
    }
}

/// What one key does on the entry screen.
pub open spec fn edit_step(old: App, new: App, key: KeyEvent, effect: Effect) -> bool {
    if old.edit.editing_field {
        field_step(old.edit, new.edit, key) && new == (App { edit: new.edit, ..old }) && effect
            == Effect::Nothing
    } else if old.edit.confirm_exit {
        exit_step(old, new, key.code, effect)
    } else if old.edit.confirm_delete {
        delete_confirm_step(old, new, key.code, effect)
    } else {
        browse_step(old, new, key.code) && effect == Effect::Nothing
    }
}

/// Applies one key on the entry screen and says what work it asks for.
pub fn handle_edit_input(app: &mut App, key: KeyEvent) -> (effect: Effect)
    ensures
        edit_step(*old(app), *final(app), key, effect),
{
    if app.edit.editing_field {
        handle_field_input(&mut app.edit, key);
        return Effect::Nothing;
    }
    if app.edit.confirm_exit {
        return handle_exit_confirmation(app, key.code);
    }
    if app.edit.confirm_delete {
        return handle_delete_confirmation(app, key.code);
    }
    match normalize_shortcut(key.code) {
        KeyCode::Esc => request_close_edit(app),
        KeyCode::Enter => start_editing_field(&mut app.edit, &mut app.status),
        KeyCode::Char('v') => {
            app.edit.reveal_password = !app.edit.reveal_password;
        },
        KeyCode::Char('d') => start_delete_confirmation(&mut app.edit, &mut app.status),
        KeyCode::Down => move_selection(&mut app.edit, true),
        KeyCode::Up => move_selection(&mut app.edit, false),
        _ => {},
    }
    Effect::Nothing
}

/// Down and then Up (or Up and then Down) between the seven field rows
/// come back to the row they started from.
pub proof fn lemma_field_rows_cycle(sel: usize)
    requires
        sel < FIELD_COUNT,
    ensures
        row_after(row_after(sel, true), false) == sel,
        row_after(row_after(sel, false), true) == sel,
        row_after(sel, true) < FIELD_COUNT,
        row_after(sel, false) < FIELD_COUNT,
{
}

/// What is written into a field is what the field then reads, and the
/// other fields read as before.
pub proof fn lemma_field_write_read(e: Entry, n: Entry, row: usize, text: Seq<char>, other: usize)
    requires
        field_set(e, n, row, text),
        field_of(e, row) is Some,
        other != row,
    ensures
        field_of(n, row) == Some(text),
        field_of(n, other) == field_of(e, other),
{
    reveal(field_of);
}

/// An entry just opened from the index has no unsaved changes, so Esc
/// closes it without asking.
pub proof fn lemma_opened_entry_unchanged(old: App, opened: App, row: usize)
    requires
        row < old.filtered@.len(),
        old.filtered@[row as int] < old.entries@.len(),
        previewing(old, opened, row),
    ensures
        !has_changes(opened.edit),
{
}

/// An entry saved when the screen closes is what the list then holds: in
/// the place it was opened from, or, when new and named, at the end.
pub proof fn lemma_saved_entry_reads_back(old: App, new: App, effect: Effect)
    requires
        saved_and_closed(old, new, effect),
        old.edit.entry is Some,
    ensures
        ({
            let e = old.edit.entry->0;
            match old.edit.target {
                Some(idx) => idx < old.entries@.len() ==> new.entries@.len() == old.entries@.len()
                    && new.entries@[idx as int] == e,
                None => trimmed(e.name@).len() > 0 ==> new.entries@.len() == old.entries@.len() + 1
                    && new.entries@[old.entries@.len() as int] == e,
            }
        }),
{
    let (mid, saved, last) = choose|mid: App, saved: Option<usize>, last: App|
        {
            &&& edit_saved(old, mid, saved)
            &&& match saved {
                Some(idx) => save_requested(mid, last, idx, effect),
                None => last == mid && effect == Effect::Nothing,
            }
            &&& new == edit_closed(last)
        };
    assert(last.entries == mid.entries);
}

/// Esc on the entry screen, with no field open and nothing awaiting an
/// answer: when the entry differs from the one the screen opened with in
/// any field the user can edit (name, user name, password, URL, TOTP or
/// notes), the screen stays and asks whether to save, and nothing is lost
/// yet; when it differs in none, the screen closes to the index at once.
pub proof fn lemma_escape_asks_before_losing_changes(
    old: App,
    new: App,
    key: KeyEvent,
    effect: Effect,
    e: Entry,
    o: Entry,
)
    requires
        edit_step(old, new, key, effect),
        key.code == KeyCode::Esc,
        !old.edit.editing_field,
        !old.edit.confirm_exit,
        !old.edit.confirm_delete,
        old.edit.entry == Some(e),
        old.edit.original == Some(o),
    ensures
        effect == Effect::Nothing,
        (e.name@ != o.name@ || e.user@ != o.user@ || e.password@ != o.password@ || e.url@ != o.url@
            || e.totp@ != o.totp@ || e.notes@ != o.notes@) ==> {
            &&& new.edit.confirm_exit
            &&& says(new.status, "Save changes? [y] yes  [n] no"@)
            &&& new.screen == old.screen
            &&& new.edit.entry == Some(e)
            &&& new.entries == old.entries
        },
        (e.name@ == o.name@ && e.user@ == o.user@ && e.password@ == o.password@ && e.url@ == o.url@
            && e.totp@ == o.totp@ && e.notes@ == o.notes@) ==> {
            &&& new.screen == Screen::Index
            &&& !new.edit.confirm_exit
            &&& new.edit.entry is None
            &&& new.entries == old.entries
        },
{
}

} // verus!
