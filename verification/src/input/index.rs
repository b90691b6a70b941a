//! Keys on the index screen: typing filters the list, the arrows move the
//! selection, Enter opens the entry, and Ctrl-d deletes it after a
//! confirmation.

use vstd::prelude::*;
use vstd::utf8::encode_utf8;

use crate::db::remove_entry;
use crate::app::{is_filter_of, message, message_with, says, App, Effect};
use crate::input::command::{adding_entry, handle_shortcut, preview_entry, previewing};
use crate::input::{ascii_lower, normalize_shortcut, secret_pop, shortcut_of, KeyCode, KeyEvent, KeyModifiers};

verus! {

/// The selected row, reading no selection as the first row.
pub open spec fn selected_row(app: App) -> usize {
    match app.index_selected {
        Some(s) => s,
        None => 0,
    }
}

/// The row below `sel` in a list of `count` rows, wrapping to the first.
pub open spec fn row_below(sel: usize, count: usize) -> usize {
    if sel >= count - 1 {
        0
    } else {
        (sel + 1) as usize
    }
}

/// The row above `sel` in a list of `count` rows, wrapping to the last.
pub open spec fn row_above(sel: usize, count: usize) -> usize {
    if sel == 0 {
        (count - 1) as usize
    } else {
        (sel - 1) as usize
    }
}

/// A page further down, stopping at the last row.
pub open spec fn page_below(sel: usize, page: usize, count: usize) -> usize {
    let further = if sel + page > usize::MAX {
        usize::MAX as int
    } else {
        sel + page
    };
    if further < count - 1 {
        further as usize
    } else {
        (count - 1) as usize
    }
}

/// A page further up, stopping at the first row.
pub open spec fn page_above(sel: usize, page: usize) -> usize {
    if sel >= page {
        (sel - page) as usize
    } else {
        0
    }
}

/// The state after the query changed to `new.query` and the list was
/// recomputed for it, with the first row selected.
pub open spec fn refiltered(old: App, new: App) -> bool {
    &&& is_filter_of(new.entries@, new.query@, new.filtered@)
    &&& new.index_selected == if new.filtered@.len() == 0 {
        None::<usize>
    } else {
        Some(0usize)
    }
    &&& new == (App {
        query: new.query,
        filtered: new.filtered,
        index_selected: new.index_selected,
        status: None,
        ..old
    })
}

/// The state after asking to delete the entry at `index`: the question is
/// shown, unless there is no such entry.
pub open spec fn delete_asked(old: App, new: App, index: usize) -> bool {
    if index < old.entries@.len() {
        new == (App { confirm_index_delete: Some(index), status: new.status, ..old }) && says(
            new.status,
            "Delete this entry? [y] Confirm  [any other key] Cancel"@,
        )
    } else {
        new == old
    }
}

/// The outcome of confirming the deletion of the entry at `index`: nothing
/// for an entry that is not there or was never saved, a message when the
/// vault is locked, and otherwise the request to remove it from the vault.
pub open spec fn delete_requested(old: App, new: App, index: usize, effect: Effect) -> bool {
    if index >= old.entries@.len() || old.entries@[index as int].id is None {
        new == old && effect == Effect::Nothing
    } else if !old.vault_open || old.config.default_database is None {
        new == (App { status: new.status, ..old }) && says(
            new.status,
            "Not deleted: database is locked"@,
        ) && effect == Effect::Nothing
    } else {
        new == old && effect == Effect::DeleteEntry {
            index,
            id: old.entries@[index as int].id->0,
        }
    }
}

/// What a key does while the deletion of an entry awaits confirmation: `y`
/// confirms it, any other key cancels it.
pub open spec fn confirm_step(old: App, new: App, key: KeyEvent, effect: Effect) -> bool {
    let cleared = App { confirm_index_delete: None, status: None, ..old };
    if shortcut_of(key.code) == KeyCode::Char('y') {
        delete_requested(cleared, new, old.confirm_index_delete->0, effect)
    } else {
        new == cleared && effect == Effect::Nothing
    }
}

/// What a key held with Control does: Ctrl-d asks to delete the selected
/// entry, and other letters are shortcuts.
pub open spec fn control_step(old: App, new: App, key: KeyEvent, effect: Effect) -> bool {
    let count = old.filtered@.len();
    match key.code {
        KeyCode::Char(c) => {
            let cleared = App { status: None, ..old };
            if ascii_lower(c) == 'd' {
                effect == Effect::Nothing && match old.index_selected {
                    Some(row) => if row < count {
                        delete_asked(cleared, new, old.filtered@[row as int])
                    } else {
                        new == cleared
                    },
                    None => new == cleared,
                }
            } else if ascii_lower(c) == 'a' {
                adding_entry(cleared, new) && effect == Effect::Nothing
            } else if ascii_lower(c) == 'c' {
                new == cleared && effect == Effect::OpenSettings
            } else {
                new == cleared && effect == Effect::Nothing
            }
        },
        _ => new == old && effect == Effect::Nothing,
    }
}

/// What typing, Backspace, Enter and Esc do: they change the query, open
/// the selected entry, or quit.
pub open spec fn typing_step(old: App, new: App, code: KeyCode) -> bool {
    let count = old.filtered@.len();
    match code {
        KeyCode::Char(c) => if (encode_utf8(old.query@).len() as usize) < old.max_len {
            refiltered(old, new) && new.query@ == old.query@.push(c)
        } else {
            new == (App { status: None, ..old })
        },
        KeyCode::Backspace => refiltered(old, new) && new.query@ == if old.query@.len() > 0 {
            old.query@.drop_last()
        } else {
            old.query@
        },
        KeyCode::Enter => {
            let cleared = App { status: None, ..old };
            match old.index_selected {
                Some(row) => if row < count && old.filtered@[row as int] < old.entries@.len() {
                    previewing(cleared, new, row)
                } else {
                    new == cleared
                },
                None => new == cleared,
            }
        },
        KeyCode::Esc => new == (App { should_quit: true, ..old }),
        _ => new == old,
    }
}

/// What the arrows, Page Up/Down, Home and End do to the selection; an
/// empty list leaves everything as it is. The arrows wrap around, the page
/// keys stop at the ends.
pub open spec fn moving_step(old: App, new: App, code: KeyCode) -> bool {
    let count = old.filtered@.len();
    if count == 0 {
        new == old
    } else {
        new == (App {
            status: None,
            index_selected: Some(
                movement_target(code, selected_row(old), old.index_page_size, count as usize),
            ),
            ..old
        })
    }
}

/// Whether a key moves the selection.
pub open spec fn is_movement(code: KeyCode) -> bool {
    code == KeyCode::Down || code == KeyCode::Up || code == KeyCode::PageDown || code
        == KeyCode::PageUp || code == KeyCode::Home || code == KeyCode::End
}

/// What one key does on the index screen.
pub open spec fn index_step(old: App, new: App, key: KeyEvent, effect: Effect) -> bool {
    if old.confirm_index_delete is Some {
        confirm_step(old, new, key, effect)
    } else if key.modifiers == KeyModifiers::CONTROL {
        control_step(old, new, key, effect)
    } else if is_movement(key.code) {
        moving_step(old, new, key.code) && effect == Effect::Nothing
    } else {
        typing_step(old, new, key.code) && effect == Effect::Nothing
    }
}

fn start_delete_confirmation(app: &mut App, index: usize)
    ensures
        delete_asked(*old(app), *final(app), index),
{
    if index >= app.entries.len() {
        return;
    }
    app.confirm_index_delete = Some(index);
    app.status = message("Delete this entry? [y] Confirm  [any other key] Cancel");
}

fn handle_delete_confirmation(app: &mut App, key: KeyCode) -> (effect: Effect)
    requires
        old(app).confirm_index_delete is Some,
    ensures
        confirm_step(*old(app), *final(app), KeyEvent { code: key, modifiers: KeyModifiers::NONE }, effect),
{
    let index = app.confirm_index_delete.take();
    app.status = None;
    match (index, normalize_shortcut(key)) {
        (Some(index), KeyCode::Char('y')) => delete_index_entry(app, index),
        _ => Effect::Nothing,
    }
}

fn delete_index_entry(app: &mut App, index: usize) -> (effect: Effect)
    ensures
        delete_requested(*old(app), *final(app), index, effect),
{
    if index >= app.entries.len() {
        return Effect::Nothing;
    }
    let id = match app.entries[index].id {
        Some(id) => id,
        None => return Effect::Nothing,
    };
    if !app.vault_open || app.config.default_database.is_none() {
        app.status = message("Not deleted: database is locked");
        return Effect::Nothing;
    }
    Effect::DeleteEntry { index, id }
}

/// Takes the outcome of removing the entry at `index` from the vault: on
/// success the entry leaves the list, otherwise the error is shown.
pub fn finish_index_delete(app: &mut App, index: usize, outcome: Result<(), String>)
    requires
        index < old(app).entries@.len(),
    ensures
        match outcome {
            Ok(()) => {
                &&& final(app).entries@ == old(app).entries@.remove(index as int)
                &&& is_filter_of(final(app).entries@, final(app).query@, final(app).filtered@)
                &&& final(app).index_selected == if final(app).filtered@.len() == 0 {
                    None::<usize>
                } else {
                    Some(0usize)
                }
                &&& says(final(app).status, "Entry deleted"@)
                &&& *final(app) == (App {
                    entries: final(app).entries,
                    filtered: final(app).filtered,
                    index_selected: final(app).index_selected,
                    status: final(app).status,
                    ..*old(app)
                })
            },
            Err(e) => {
                &&& says(final(app).status, "Failed to delete: "@ + e@)
                &&& *final(app) == (App { status: final(app).status, ..*old(app) })
            },
        },
{
    match outcome {
        Ok(()) => {
            remove_entry(&mut app.entries, index);
            app.refresh_filter();
            app.status = message("Entry deleted");
        },
        Err(e) => {
            app.status = message_with("Failed to delete: ", e.as_str());
        },
    }
}

#[verifier::rlimit(50)]
fn handle_control_key(app: &mut App, key: KeyEvent) -> (effect: Effect)
    requires
        key.modifiers == KeyModifiers::CONTROL,
    ensures
        control_step(*old(app), *final(app), key, effect),
{
    if let KeyCode::Char(c) = key.code {
        app.status = None;
        let lowered = crate::input::to_ascii_lowercase(c);
        if lowered == 'd' {
            if let Some(selected) = app.index_selected {
                if selected < app.filtered.len() {
                    let index = app.filtered[selected];
                    start_delete_confirmation(app, index);
                }
            }
            Effect::Nothing
        } else {
            handle_shortcut(app, lowered)
        }
    } else {
        Effect::Nothing
    }
}

#[verifier::rlimit(50)]
fn handle_typing(app: &mut App, code: KeyCode)
    ensures
        typing_step(*old(app), *final(app), code),
{
    match code {
        KeyCode::Char(c) => {
            app.status = None;
            if app.query.as_str().len() < app.max_len {
                app.query.push(c);
                app.refresh_filter();
            }
        },
        KeyCode::Backspace => {
            app.status = None;
            secret_pop(&mut app.query);
            app.refresh_filter();
        },
        KeyCode::Enter => {
            app.status = None;
            preview_entry(app);
        },
        KeyCode::Esc => {
            app.should_quit = true;
        },
        _ => {},
    }
}

/// The row a movement key selects in a non-empty list.
pub open spec fn movement_target(code: KeyCode, sel: usize, page: usize, count: usize) -> usize {
    match code {
        KeyCode::Down => row_below(sel, count),
        KeyCode::Up => row_above(sel, count),
        KeyCode::PageDown => page_below(sel, page, count),
        KeyCode::PageUp => page_above(sel, page),
        KeyCode::Home => 0,
        _ => (count - 1) as usize,
    }
}

fn target_row(code: KeyCode, selected: usize, page: usize, count: usize) -> (r: usize)
    requires
        count > 0,
    ensures
        r == movement_target(code, selected, page, count),
{
    match code {
        KeyCode::Down => if selected >= count - 1 {
            0
        } else {
            selected + 1
        },
        KeyCode::Up => if selected == 0 {
            count - 1
        } else {
            selected - 1
        },
        KeyCode::PageDown => {
            let further = selected.saturating_add(page);
            if further < count - 1 {
                further
            } else {
                count - 1
            }
        },
        KeyCode::PageUp => selected.saturating_sub(page),
        KeyCode::Home => 0,
        _ => count - 1,
    }
}

fn handle_movement(app: &mut App, code: KeyCode)
    requires
        is_movement(code),
    ensures
        moving_step(*old(app), *final(app), code),
{
    let count = app.filtered.len();
    if count == 0 {
        return;
    }
    let selected = match app.index_selected {
        Some(s) => s,
        None => 0,
    };
    let target = target_row(code, selected, app.index_page_size, count);
    app.status = None;
    app.index_selected = Some(target);
}

/// Applies one key on the index screen and says what work it asks for.
pub fn handle_index_input(app: &mut App, key: KeyEvent) -> (effect: Effect)
    ensures
        index_step(*old(app), *final(app), key, effect),
{
    if app.confirm_index_delete.is_some() {
        return handle_delete_confirmation(app, key.code);
    }
    if key.modifiers.contains_control() {
        return handle_control_key(app, key);
    }
    if is_movement_key(key.code) {
        handle_movement(app, key.code);
    } else {
        handle_typing(app, key.code);
    }
    Effect::Nothing
}

fn is_movement_key(code: KeyCode) -> (r: bool)
    ensures
        r == is_movement(code),
{
    match code {
        KeyCode::Down | KeyCode::Up | KeyCode::PageDown | KeyCode::PageUp | KeyCode::Home
        | KeyCode::End => true,
        _ => false,
    }
}

/// In a non-empty list, Down and then Up (or Up and then Down) come back
/// to the row they started from, wrapping at either end.
pub proof fn lemma_down_then_up_in_list(sel: usize, count: usize)
    requires
        sel < count,
    ensures
        row_above(row_below(sel, count), count) == sel,
        row_below(row_above(sel, count), count) == sel,
        row_below(sel, count) < count,
        row_above(sel, count) < count,
{
}

/// From a row of a list, a movement key selects a row of the list.
pub proof fn lemma_movement_stays_in_list(code: KeyCode, sel: usize, page: usize, count: usize)
    requires
        sel < count,
        is_movement(code),
    ensures
        movement_target(code, sel, page, count) < count,
{
}

/// Where each movement key takes the selection on the index, counted in
/// rows of the list: Down and Up go one row and wrap around at the ends,
/// Page Down and Page Up go a page and stop at the last and first rows
/// (Page Up never lands below the row it left, Page Down never above),
/// Home goes to the first row and End to the last. Nothing else changes
/// but the status, which is cleared.
pub proof fn lemma_index_movement(old: App, new: App, key: KeyEvent, effect: Effect)
    requires
        index_step(old, new, key, effect),
        old.confirm_index_delete is None,
        key.modifiers != KeyModifiers::CONTROL,
        is_movement(key.code),
        old.filtered@.len() > 0,
        selected_row(old) < old.filtered@.len(),
    ensures
        ({
            let s = selected_row(old) as int;
            let n = old.filtered@.len() as int;
            let p = old.index_page_size as int;
            new.index_selected matches Some(t) && {
                &&& 0 <= t < n
                &&& key.code == KeyCode::Down ==> t == if s + 1 < n {
                    s + 1
                } else {
                    0
                }
                &&& key.code == KeyCode::Up ==> t == if s > 0 {
                    s - 1
                } else {
                    n - 1
                }
                &&& key.code == KeyCode::PageDown ==> t == if s + p < n - 1 {
                    s + p
                } else {
                    n - 1
                }
                &&& key.code == KeyCode::PageDown ==> s <= t
                &&& key.code == KeyCode::PageUp ==> t == if s >= p {
                    s - p
                } else {
                    0
                }
                &&& key.code == KeyCode::PageUp ==> t <= s
                &&& key.code == KeyCode::Home ==> t == 0
                &&& key.code == KeyCode::End ==> t == n - 1
            }
        }),
        effect == Effect::Nothing,
        new.status is None,
        new.entries == old.entries,
        new.filtered == old.filtered,
        new.query == old.query,
        new.screen == old.screen,
{
    let n = old.filtered@.len();
    assert(old.filtered.len() == n);
}

} // verus!
