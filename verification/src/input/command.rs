//! Shortcuts reachable from the index: adding an entry, opening the
//! settings, and opening the selected entry.

use vstd::prelude::*;

use crate::app::{App, EditState, Effect, Screen, SettingsState};
use crate::db::Entry;
use crate::input::fieldedit::{FieldEditor, FieldMode, FieldState};

verus! {

/// Whether an entry is the blank one a new entry starts from.
pub open spec fn is_blank_entry(e: Entry) -> bool {
    &&& e.id is None
    &&& e.name@.len() == 0
    &&& e.user@.len() == 0
    &&& e.password@.len() == 0
    &&& e.url@.len() == 0
    &&& e.totp@.len() == 0
    &&& e.notes@.len() == 0
    &&& e.date_last_modify@.len() == 0
}

/// The state after starting a new entry: a blank entry in the editor, with
/// its name field open for typing.
pub open spec fn adding_entry(old: App, new: App) -> bool {
    &&& new.edit.entry matches Some(e) && is_blank_entry(e)
    &&& new.edit.original matches Some(e) && is_blank_entry(e)
    &&& new.edit.field_editor matches Some(f) && f@ == (FieldState {
        text: Seq::empty(),
        cursor: 0,
        preferred_column: None,
        mode: FieldMode::SingleLine,
    })
    &&& new == (App {
        edit: EditState {
            entry: new.edit.entry,
            original: new.edit.original,
            target: None,
            selected: Some(0),
            field_editor: new.edit.field_editor,
            editing_field: true,
            confirm_delete: false,
            confirm_exit: false,
            ..old.edit
        },
        screen: Screen::Edit,
        ..old
    })
}

/// What a shortcut does: `a` adds an entry, `c` opens the settings, and
/// anything else nothing.
pub fn handle_shortcut(app: &mut App, c: char) -> (effect: Effect)
    ensures
        c == 'a' ==> adding_entry(*old(app), *final(app)) && effect == Effect::Nothing,
        c == 'c' ==> *final(app) == *old(app) && effect == Effect::OpenSettings,
        c != 'a' && c != 'c' ==> *final(app) == *old(app) && effect == Effect::Nothing,
{
    match c {
        'a' => {
            add_entry(app);
            Effect::Nothing
        },
        'c' => Effect::OpenSettings,
        _ => Effect::Nothing,
    }
}

fn add_entry(app: &mut App)
    ensures
        adding_entry(*old(app), *final(app)),
{
    app.edit.entry = Some(Entry::default());
    app.edit.original = Some(Entry::default());
    app.edit.target = None;
    app.edit.selected = Some(0);
    app.edit.field_editor = Some(FieldEditor::with_text(""));
    app.edit.editing_field = true;
    app.edit.confirm_delete = false;
    app.edit.confirm_exit = false;
    app.screen = Screen::Edit;
    proof {
        reveal_strlit("");
        assert(""@ == Seq::<char>::empty());
    }
}

/// The state after opening the entry in row `row` of the index.
pub open spec fn previewing(old: App, new: App, row: usize) -> bool {
    let idx = old.filtered@[row as int];
    &&& new == (App {
        edit: EditState {
            entry: Some(old.entries@[idx as int]),
            original: Some(old.entries@[idx as int]),
            target: Some(idx),
            selected: Some(0),
            confirm_delete: false,
            confirm_exit: false,
            ..old.edit
        },
        screen: Screen::Edit,
        ..old
    })
}

/// Opens the selected entry for viewing and editing; nothing happens when
/// no existing entry is selected.
pub fn preview_entry(app: &mut App)
    ensures
        match old(app).index_selected {
            Some(row) => if row < old(app).filtered@.len() && old(app).filtered@[row as int]
                < old(app).entries@.len() {
                previewing(*old(app), *final(app), row)
            } else {
                *final(app) == *old(app)
            },
            None => *final(app) == *old(app),
        },
{
    let selected = match app.index_selected {
        Some(s) => s,
        None => return,
    };
    if selected >= app.filtered.len() {
        return;
    }
    let entry_idx = app.filtered[selected];
    if entry_idx >= app.entries.len() {
        return;
    }
    let entry = app.entries[entry_idx].clone();
    let original = app.entries[entry_idx].clone();
    app.edit.entry = Some(entry);
    app.edit.original = Some(original);
    app.edit.target = Some(entry_idx);
    app.edit.selected = Some(0);
    app.edit.confirm_delete = false;
    app.edit.confirm_exit = false;
    app.screen = Screen::Edit;
}

/// Opens the settings screen with the themes found, selecting the current
/// theme (`current`, its position among them, when it is one of them) or
/// else the first.
pub fn open_settings(app: &mut App, themes: Vec<String>, current: Option<usize>)
    ensures
        *final(app) == (App {
            status: None,
            settings: SettingsState {
                available_themes: themes,
                selected: match current {
                    Some(i) => Some(i),
                    None => if themes@.len() == 0 {
                        None
                    } else {
                        Some(0usize)
                    },
                },
                ..old(app).settings
            },
            screen: Screen::Settings,
            ..*old(app)
        }),
{
    app.status = None;
    let selected = match current {
        Some(i) => Some(i),
        None => if themes.len() == 0 {
            None
        } else {
            Some(0)
        },
    };
    app.settings.available_themes = themes;
    app.settings.selected = selected;
    app.screen = Screen::Settings;
}

} // verus!
