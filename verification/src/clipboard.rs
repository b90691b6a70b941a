//! Copying an entry's fields to the clipboard, and wiping the copy once its
//! time is up. The program that runs the screens talks to the clipboard;
//! these functions decide what to copy and what to say.

use vstd::prelude::*;

use crate::app::{message, message_with, says, App};
use crate::db::{current_totp_code, Entry, TotpCode};

verus! {

/// A copy on the clipboard that is wiped at `clear_at`, in milliseconds on
/// the program's clock, if the clipboard still holds it then.
pub struct ClipboardTimer {
    /// What was copied, for messages.
    pub label: String,
    /// The text that was copied.
    pub expected: String,
    pub clear_at: u64,
}

/// Text to put on the clipboard, and what it is.
pub struct CopyRequest {
    pub label: String,
    pub text: String,
}

/// The position of the entry selected in the index, if a row is selected
/// and shows an entry.
pub open spec fn selected_index(app: App) -> Option<usize> {
    match app.index_selected {
        Some(row) => if row < app.filtered@.len() && app.filtered@[row as int] < app.entries@.len() {
            Some(app.filtered@[row as int])
        } else {
            None
        },
        None => None,
    }
}

impl App {
    /// The entry selected in the index.
    pub fn selected_entry(&self) -> (r: Option<&Entry>)
        ensures
            match selected_index(*self) {
                Some(i) => r == Some(&self.entries@[i as int]),
                None => r is None,
            },
    {
        let row = match self.index_selected {
            Some(row) => row,
            None => return None,
        };
        if row >= self.filtered.len() {
            return None;
        }
        let i = self.filtered[row];
        if i >= self.entries.len() {
            return None;
        }
        Some(&self.entries[i])
    }
}

/// Takes the outcome of putting `text`, which is the `label` of an entry,
/// on the clipboard: on success the copy is timed to be wiped at
/// `clear_at`; otherwise the error is shown.
pub fn report_copy(app: &mut App, label: &str, text: &str, clear_at: u64, result: Result<(), String>)
    ensures
        match result {
            Ok(()) => {
                &&& final(app).clipboard_timer matches Some(t) && t.label@ == label@ && t.expected@
                    == text@ && t.clear_at == clear_at
                &&& final(app).status is None
            },
            Err(e) => {
                &&& final(app).clipboard_timer is None
                &&& says(final(app).status, "Failed to copy "@ + label@ + ": "@ + e@)
            },
        },
        *final(app) == (App {
            clipboard_timer: final(app).clipboard_timer,
            status: final(app).status,
            ..*old(app)
        }),
{
    match result {
        Ok(()) => {
            let mut l = String::new();
            crate::text::push_str(&mut l, label);
            let mut t = String::new();
            crate::text::push_str(&mut t, text);
            app.clipboard_timer = Some(ClipboardTimer { label: l, expected: t, clear_at });
            app.status = None;
        },
        Err(e) => {
            app.clipboard_timer = None;
            let mut m = String::new();
            crate::text::push_str(&mut m, "Failed to copy ");
            crate::text::push_str(&mut m, label);
            crate::text::push_str(&mut m, ": ");
            crate::text::push_str(&mut m, e.as_str());
            app.status = Some(m);
        },
    }
}

/// Once the copy's time is up (`now`, on the same clock, is not before
/// `clear_at`), stops the timer and hands back the copied text: the caller
/// wipes the clipboard if it still holds that text and reports through
/// `report_clear`. Before that, and without a timer, nothing changes.
pub fn maybe_clear_clipboard(app: &mut App, now: u64) -> (due: Option<String>)
    ensures
        match old(app).clipboard_timer {
            Some(t) => if now < t.clear_at {
                due is None && *final(app) == *old(app)
            } else {
                due == Some(t.expected) && *final(app) == (App {
                    clipboard_timer: None,
                    ..*old(app)
                })
            },
            None => due is None && *final(app) == *old(app),
        },
{
    let clear_at = match &app.clipboard_timer {
        Some(t) => t.clear_at,
        None => return None,
    };
    if now < clear_at {
        return None;
    }
    match app.clipboard_timer.take() {
        Some(t) => Some(t.expected),
        None => None,
    }
}

/// Takes the outcome of wiping the clipboard.
pub fn report_clear(app: &mut App, result: Result<(), String>)
    ensures
        match result {
            Ok(()) => says(final(app).status, "Clipboard cleared"@),
            Err(e) => says(final(app).status, "Couldn't clear clipboard: "@ + e@),
        },
        *final(app) == (App { status: final(app).status, ..*old(app) }),
{
    app.status = match result {
        Ok(()) => message("Clipboard cleared"),
        Err(e) => message_with("Couldn't clear clipboard: ", e.as_str()),
    };
}

/// A request to copy `text` as `label`.
pub open spec fn copies(r: Option<CopyRequest>, label: Seq<char>, text: Seq<char>) -> bool {
    r matches Some(c) && c.label@ == label && c.text@ == text
}

fn request(label: &str, text: &str) -> (r: Option<CopyRequest>)
    ensures
        copies(r, label@, text@),
{
    let mut l = String::new();
    crate::text::push_str(&mut l, label);
    let mut t = String::new();
    crate::text::push_str(&mut t, text);
    Some(CopyRequest { label: l, text: t })
}

/// The user name of the selected entry, to copy.
pub fn cp_user(app: &App) -> (r: Option<CopyRequest>)
    ensures
        match selected_index(*app) {
            Some(i) => copies(r, "user"@, app.entries@[i as int].user@),
            None => r is None,
        },
{
    match app.selected_entry() {
        Some(entry) => request("user", entry.user.as_str()),
        None => None,
    }
}

/// The password of the selected entry, to copy.
pub fn cp_password(app: &App) -> (r: Option<CopyRequest>)
    ensures
        match selected_index(*app) {
            Some(i) => copies(r, "password"@, app.entries@[i as int].password@),
            None => r is None,
        },
{
    match app.selected_entry() {
        Some(entry) => request("password", entry.password.as_str()),
        None => None,
    }
}

/// The URL of the selected entry, to copy.
pub fn cp_url(app: &App) -> (r: Option<CopyRequest>)
    ensures
        match selected_index(*app) {
            Some(i) => copies(r, "URL"@, app.entries@[i as int].url@),
            None => r is None,
        },
{
    match app.selected_entry() {
        Some(entry) => request("URL", entry.url.as_str()),
        None => None,
    }
}

/// What copying a one-time code asks for, given the code the TOTP gave
/// (`None` when it gave none): exactly that code, labelled as a TOTP code;
/// without a code, any pending wipe is dropped and a message says there
/// is no usable TOTP.
pub fn copy_totp_code(app: &mut App, code: Option<TotpCode>) -> (r: Option<CopyRequest>)
    ensures
        match code {
            Some(t) => copies(r, "TOTP code"@, t.code@) && *final(app) == *old(app),
            None => r is None && final(app).clipboard_timer is None && says(
                final(app).status,
                "No valid TOTP configured for this entry"@,
            ) && *final(app) == (App {
                clipboard_timer: None,
                status: final(app).status,
                ..*old(app)
            }),
        },
{
    match code {
        Some(totp) => request("TOTP code", totp.code.as_str()),
        None => {
            app.clipboard_timer = None;
            app.status = message("No valid TOTP configured for this entry");
            None
        },
    }
}

/// The current one-time code of the selected entry, to copy: the code
/// `current_totp_code` gives for the entry's TOTP, handed to
/// `copy_totp_code`. When the entry has no usable TOTP settings, any
/// pending wipe is dropped and a message says so. Which code comes out
/// depends on the clock; it has as many digits as the settings ask for.
pub fn cp_totp(app: &mut App) -> (r: Option<CopyRequest>)
    ensures
        match selected_index(*old(app)) {
            None => r is None && *final(app) == *old(app),
            Some(i) => {
                let raw = old(app).entries@[i as int].totp@;
                match r {
                    Some(c) => c.label@ == "TOTP code"@ && *final(app) == *old(app)
                        && crate::db::trimmed(raw).len() > 0 && crate::db::totp_parses(raw)
                        && crate::db::totp_usable(raw) && crate::db::is_code(
                        c.text@,
                        crate::db::totp_digits(raw),
                    ),
                    None => final(app).clipboard_timer is None && says(
                        final(app).status,
                        "No valid TOTP configured for this entry"@,
                    ) && *final(app) == (App {
                        clipboard_timer: None,
                        status: final(app).status,
                        ..*old(app)
                    }),
                }
            },
        },
{
    let code = match app.selected_entry() {
        Some(entry) => current_totp_code(entry.totp.as_str()),
        None => return None,
    };
    copy_totp_code(app, code)
}

} // verus!
