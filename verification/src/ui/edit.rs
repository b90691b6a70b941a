//! The entry screen's key hints and password mask.

use vstd::prelude::*;

use crate::app::App;
use crate::db::{decimal, push_decimal_wide, Entry};
use crate::input::edit::{NOTES_INDEX, TOTP_INDEX};
use crate::input::fieldedit::FieldEditor;
use crate::input::fieldview::{wrap_text, wrapped};
use crate::text::{chars_of, push_str};
use crate::warnings::{passwords_of, reuse_of, reuse_of_entry, users_of};
use crate::width::{str_display_width, str_width};

verus! {

/// The key hints while moving between the fields of an entry; slim mode
/// shows the keys alone.
pub fn nav_help_items(slim_mode: bool) -> (r: Vec<&'static str>)
    ensures
        r@.map_values(|s: &str| s@) == if slim_mode {
            seq!["[↑↓]"@, "[Enter]"@, "[v]"@, "[d]"@, "[Esc]"@]
        } else {
            seq![
                "[↑↓] navigate"@,
                "[Enter] edit field"@,
                "[v] toggle visibility"@,
                "[d] delete entry"@,
                "[Esc] close"@,
            ]
        },
{
    let r = if slim_mode {
        vec!["[↑↓]", "[Enter]", "[v]", "[d]", "[Esc]"]
    } else {
        vec![
            "[↑↓] navigate",
            "[Enter] edit field",
            "[v] toggle visibility",
            "[d] delete entry",
            "[Esc] close",
        ]
    };
    assert(r@.map_values(|s: &str| s@) =~= if slim_mode {
        seq!["[↑↓]"@, "[Enter]"@, "[v]"@, "[d]"@, "[Esc]"@]
    } else {
        seq![
            "[↑↓] navigate"@,
            "[Enter] edit field"@,
            "[v] toggle visibility"@,
            "[d] delete entry"@,
            "[Esc] close"@,
        ]
    });
    r
}

/// The key hints while a field is being edited.
pub fn field_help_items(slim_mode: bool) -> (r: Vec<&'static str>)
    ensures
        r@.map_values(|s: &str| s@) == if slim_mode {
            seq!["[Enter]"@, "[Esc]"@]
        } else {
            seq!["[^n] newline"@, "[Enter] save field"@, "[Esc] cancel"@]
        },
{
    let r = if slim_mode {
        vec!["[Enter]", "[Esc]"]
    } else {
        vec!["[^n] newline", "[Enter] save field", "[Esc] cancel"]
    };
    assert(r@.map_values(|s: &str| s@) =~= if slim_mode {
        seq!["[Enter]"@, "[Esc]"@]
    } else {
        seq!["[^n] newline"@, "[Enter] save field"@, "[Esc] cancel"@]
    });
    r
}

/// What the password row shows when the password is hidden: one bullet per
/// character, and at least eight, so that a short password does not show
/// its length; nothing for an empty or revealed password, which is shown
/// apart.
pub open spec fn masked(password: Seq<char>, reveal: bool) -> Seq<char> {
    if password.len() == 0 || reveal {
        Seq::empty()
    } else {
        Seq::new(
            if password.len() > 8 {
                password.len()
            } else {
                8
            },
            |i: int| '•',
        )
    }
}

/// The text of the password row.
pub fn password_text(password: &str, reveal: bool) -> (r: String)
    ensures
        r@ == masked(password@, reveal),
{
    let mut chars = chars_of(password);
    let count = chars.len();
    crate::text::wipe_chars(&mut chars);
    let mut r = String::new();
    if count == 0 || reveal {
        return r;
    }
    let n = if count > 8 {
        count
    } else {
        8
    };
    let mut i: usize = 0;
    while i < n
        invariant
            i <= n,
            r@ == Seq::new(i as nat, |k: int| '•'),
        decreases n - i,
    {
        r.push('•');
        i = i + 1;
        assert(r@ =~= Seq::new(i as nat, |k: int| '•'));
    }
    r
}

/// What a row shows after its label: the value and the marks after it, or
/// "(empty)" when both are empty.
pub open spec fn shown(value: Seq<char>, marks: Seq<char>) -> Seq<char> {
    if value.len() == 0 && marks.len() == 0 {
        "(empty)"@
    } else {
        value + marks
    }
}

/// The mark after a user name or password that `n` entries share: their
/// number in brackets, when more than one does.
pub open spec fn count_mark(n: nat) -> Seq<char> {
    if n > 1 {
        " ["@ + decimal(n) + "]"@
    } else {
        Seq::empty()
    }
}

/// What the TOTP row shows: the current code and the seconds it stays
/// valid; nothing while the TOTP field is being edited or holds nothing;
/// and a warning when its text gives no code.
pub open spec fn totp_text(raw: Seq<char>, editing_totp: bool, code: Option<(Seq<char>, u64)>) -> Seq<
    char,
> {
    if editing_totp {
        Seq::empty()
    } else {
        match code {
            Some((c, secs)) => c + " ("@ + decimal((secs + 1) as nat) + "s)"@,
            None => if raw.len() == 0 {
                Seq::empty()
            } else {
                "couldn't generate a code"@
            },
        }
    }
}

/// The six rows of the entry screen above the notes, for entry `e` among
/// `entries`: name, user, password, URL, TOTP and the last modification.
pub open spec fn entry_rows(
    e: Entry,
    entries: Seq<Entry>,
    reveal: bool,
    editing_totp: bool,
    code: Option<(Seq<char>, u64)>,
) -> Seq<Seq<char>> {
    let password_marks = count_mark(reuse_of(passwords_of(entries), e.password@)) + if e.password@.len()
        > 0 && reveal {
        "  [visible]"@
    } else {
        Seq::empty()
    };
    seq![
        "Name: "@ + shown(e.name@, Seq::empty()),
        "User: "@ + shown(e.user@, count_mark(reuse_of(users_of(entries), e.user@))),
        "Password: "@ + shown(
            if reveal {
                e.password@
            } else {
                masked(e.password@, false)
            },
            password_marks,
        ),
        "URL: "@ + shown(e.url@, Seq::empty()),
        "TOTP: "@ + shown(Seq::empty(), totp_text(e.totp@, editing_totp, code)),
        "Modified: "@ + shown(e.date_last_modify@, Seq::empty()),
    ]
}

fn push_shown(s: &mut String, value: &str, marks: &str)
    ensures
        final(s)@ == old(s)@ + shown(value@, marks@),
{
    if value.is_empty() && marks.is_empty() {
        push_str(s, "(empty)");
    } else {
        push_str(s, value);
        push_str(s, marks);
    }
    proof {
        reveal_strlit("(empty)");
    }
}

fn count_mark_text(n: usize) -> (r: String)
    ensures
        r@ == count_mark(n as nat),
{
    let mut r = String::new();
    if n > 1 {
        push_str(&mut r, " [");
        push_decimal_wide(&mut r, n as u128);
        push_str(&mut r, "]");
    }
    r
}

fn totp_row_text(raw: &str, editing_totp: bool, code: &Option<(String, u64)>) -> (r: String)
    ensures
        r@ == totp_text(
            raw@,
            editing_totp,
            match code {
                Some((c, secs)) => Some((c@, *secs)),
                None => None,
            },
        ),
{
    let mut r = String::new();
    if editing_totp {
        return r;
    }
    match code {
        Some((c, secs)) => {
            push_str(&mut r, c.as_str());
            push_str(&mut r, " (");
            push_decimal_wide(&mut r, *secs as u128 + 1);
            push_str(&mut r, "s)");
        },
        None => {
            if !raw.is_empty() {
                push_str(&mut r, "couldn't generate a code");
            }
        },
    }
    r
}

fn labelled(label: &str, value: &str, marks: &str) -> (r: String)
    ensures
        r@ == label@ + shown(value@, marks@),
{
    let mut r = String::new();
    push_str(&mut r, label);
    push_shown(&mut r, value, marks);
    r
}

/// The rows of the entry screen above the notes for the open entry (none
/// when no entry is open). `code` is the current one-time code of the
/// entry's TOTP and the seconds it stays valid, if there is one.
pub fn edit_rows(app: &App, code: Option<(String, u64)>) -> (r: Vec<String>)
    ensures
        match app.edit.entry {
            None => r@.len() == 0,
            Some(e) => r@.map_values(|s: String| s@) == entry_rows(
                e,
                app.entries@,
                app.edit.reveal_password,
                app.edit.editing_field && app.edit.selected == Some(TOTP_INDEX),
                match code {
                    Some((c, secs)) => Some((c@, secs)),
                    None => None,
                },
            ),
        },
{
    let e = match &app.edit.entry {
        Some(e) => e,
        None => return Vec::new(),
    };
    let reveal = app.edit.reveal_password;
    let editing_totp = app.edit.editing_field && match app.edit.selected {
        Some(s) => s == TOTP_INDEX,
        None => false,
    };
    let (users, passwords) = reuse_of_entry(&app.entries, e);
    let empty = String::new();
    let user_marks = count_mark_text(users);
    let mut password_marks = count_mark_text(passwords);
    if !e.password.as_str().is_empty() && reveal {
        push_str(&mut password_marks, "  [visible]");
    }
    let mut password_value = if reveal {
        e.password.clone()
    } else {
        password_text(e.password.as_str(), false)
    };
    let totp = totp_row_text(e.totp.as_str(), editing_totp, &code);
    let ghost gcode = match code {
        Some((c, secs)) => Some((c@, secs)),
        None => None::<(Seq<char>, u64)>,
    };
    let ghost want = entry_rows(*e, app.entries@, reveal, editing_totp, gcode);
    proof {
        reveal_strlit("");
        reveal_strlit("  [visible]");
    }
    assert(password_marks@ == count_mark(reuse_of(passwords_of(app.entries@), e.password@)) + if e.password@.len() > 0 && reveal {
        "  [visible]"@
    } else {
        Seq::empty()
    });
    let mut rows: Vec<String> = Vec::new();
    rows.push(labelled("Name: ", e.name.as_str(), empty.as_str()));
    rows.push(labelled("User: ", e.user.as_str(), user_marks.as_str()));
    rows.push(labelled("Password: ", password_value.as_str(), password_marks.as_str()));
    rows.push(labelled("URL: ", e.url.as_str(), empty.as_str()));
    rows.push(labelled("TOTP: ", empty.as_str(), totp.as_str()));
    rows.push(labelled("Modified: ", e.date_last_modify.as_str(), empty.as_str()));
    assert(rows@[0]@ == want[0]);
    assert(rows@[1]@ == want[1]);
    assert(rows@[2]@ == want[2]);
    assert(rows@[3]@ == want[3]);
    assert(rows@[4]@ == want[4]);
    assert(rows@[5]@ == want[5]);
    crate::text::wipe(&mut password_value);
    assert(rows@.map_values(|s: String| s@) =~= want);
    rows
}

/// The title of the entry screen.
pub fn edit_title(app: &App) -> (r: &'static str)
    ensures
        r@ == if app.edit.target is None {
            " New Entry "@
        } else {
            " Entry "@
        },
{
    if app.edit.target.is_none() {
        " New Entry "
    } else {
        " Entry "
    }
}

/// The first wrapped notes row shown, so that the cursor's row stays in a
/// window `height` rows tall that started at `scroll`: the window moves up
/// to a row above it and down to a row below it, and otherwise stays.
pub open spec fn scrolled_to(row: usize, scroll: usize, height: usize) -> usize {
    if row < scroll {
        row
    } else if row >= scroll + height {
        (row - height + 1) as usize
    } else {
        scroll
    }
}

pub fn notes_scroll(cursor_row: usize, scroll: usize, height: usize) -> (r: usize)
    requires
        cursor_row < usize::MAX,
    ensures
        r == scrolled_to(cursor_row, scroll, height),
        height > 0 ==> r <= cursor_row < r + height,
{
    if cursor_row < scroll {
        cursor_row
    } else if cursor_row - scroll >= height {
        cursor_row - height + 1
    } else {
        scroll
    }
}

/// Where the cursor of a notes editor sits among the notes wrapped to
/// `width` columns: the row, and the columns before it in that row.
pub open spec fn cursor_place(text_before: Seq<char>, width: usize) -> (usize, usize) {
    let rows = wrapped(text_before, width);
    if rows.len() == 0 {
        (0, 0)
    } else {
        ((rows.len() - 1) as usize, str_display_width(rows.last()))
    }
}

pub fn notes_cursor(editor: &FieldEditor, width: usize) -> (r: (usize, usize))
    ensures
        r == cursor_place(editor@.text.take(editor@.cursor as int), width),
        r.0 < usize::MAX,
{
    let mut before = editor.text_before_cursor();
    let mut rows = wrap_text(before.as_str(), width);
    crate::text::wipe(&mut before);
    let n = rows.len();
    let r = if n == 0 {
        (0, 0)
    } else {
        (n - 1, str_width(rows[n - 1].as_str()))
    };
    while rows.len() > 0
        invariant
            true,
        decreases rows@.len(),
    {
        if let Some(mut row) = rows.pop() {
            crate::text::wipe(&mut row);
        }
    }
    r
}

/// Keeps the cursor of the notes editor in view: while the notes are being
/// edited in a box `width` columns wide and `height` rows tall, the scroll
/// follows the cursor's row; otherwise nothing changes.
pub fn follow_notes_cursor(app: &mut App, width: usize, height: usize)
    ensures
        match old(app).edit.field_editor {
            Some(editor) => if old(app).edit.editing_field && old(app).edit.selected == Some(
                NOTES_INDEX,
            ) {
                final(app).edit.field_editor_scroll == scrolled_to(
                    cursor_place(editor@.text.take(editor@.cursor as int), width).0,
                    old(app).edit.field_editor_scroll,
                    height,
                ) && *final(app) == (App {
                    edit: crate::app::EditState {
                        field_editor_scroll: final(app).edit.field_editor_scroll,
                        ..old(app).edit
                    },
                    ..*old(app)
                })
            } else {
                *final(app) == *old(app)
            },
            None => *final(app) == *old(app),
        },
{
    let notes = app.edit.editing_field && match app.edit.selected {
        Some(s) => s == NOTES_INDEX,
        None => false,
    };
    if !notes {
        return;
    }
    let row = match &app.edit.field_editor {
        Some(editor) => notes_cursor(editor, width).0,
        None => return,
    };
    app.edit.field_editor_scroll = notes_scroll(row, app.edit.field_editor_scroll, height);
}

} // verus!
