//! The state of the application and how the list of entries is filtered.

use vstd::prelude::*;

use crate::clipboard::ClipboardTimer;
use crate::config::Config;
use crate::db::{clear_entry, wipe_entries, Entry};
use crate::input::fieldedit::{close_editor, FieldEditor};
use crate::text::{
    wipe, wipe_chars, chars_of, contains_chars, contains_run, lemma_lex_less_asymmetric, lemma_lex_less_irreflexive,
    lemma_lex_less_total, lemma_lex_less_transitive, lex_less, lex_less_chars, lowercase_of,
    to_lowercase,
};

verus! {

#[derive(Clone, Copy, PartialEq, Eq, Debug, Structural)]
pub enum Screen {
    Login,
    Index,
    Edit,
    Settings,
}

#[derive(Clone, Copy, PartialEq, Eq, Debug, Structural)]
pub enum PasswordChangeStep {
    Current,
    New,
    ConfirmNew,
}

#[derive(Clone, Copy, PartialEq, Eq, Debug, Structural)]
pub enum ImportStep {
    Path,
    KdbxPassword,
}

#[derive(Clone, Copy, PartialEq, Eq, Debug, Structural)]
pub enum ExportStep {
    Path,
    Confirm,
}

/// The login screen: the typed master password, and the steps of creating
/// a new vault when none exists yet.
pub struct LoginState {
    pub password: String,
    pub creating_database: bool,
    pub confirming_new_db_password: bool,
    pub new_db_confirm: String,
    pub error: Option<String>,
}

/// The entry screen: the entry being edited, the one it opened with, where
/// it sits in the list, and the field editor when a field is open.
pub struct EditState {
    /// The selected field row.
    pub selected: Option<usize>,
    pub entry: Option<Entry>,
    pub original: Option<Entry>,
    pub target: Option<usize>,
    pub editing_field: bool,
    pub field_editor: Option<FieldEditor>,
    pub field_editor_scroll: usize,
    pub confirm_delete: bool,
    pub confirm_exit: bool,
    pub reveal_password: bool,
}

/// The settings screen: the theme picker and the password change, import
/// and export dialogs.
pub struct SettingsState {
    pub available_themes: Vec<String>,
    pub selected: Option<usize>,
    pub choosing_theme: bool,
    pub theme_selected: Option<usize>,
    pub changing_password: bool,
    pub password_change_step: PasswordChangeStep,
    pub current_password_buffer: String,
    pub new_password_buffer: String,
    pub new_password_confirm: String,
    pub importing_database: bool,
    pub import_step: ImportStep,
    pub import_path_buffer: String,
    pub import_kdbx_password_buffer: String,
    pub pending_import_path: Option<String>,
    pub exporting_database: bool,
    pub export_step: ExportStep,
    pub export_path_buffer: String,
    pub pending_export_path: Option<String>,
    /// Whether one of the first three settings is being edited.
    pub editing: bool,
    /// The editor of the setting being edited.
    pub field_editor: Option<FieldEditor>,
}

/// Everything the screens know. The open vault and its key stay with the
/// program that runs the screens; `vault_open` records whether it holds
/// them.
pub struct App {
    pub screen: Screen,
    pub login: LoginState,
    pub query: String,
    pub max_len: usize,
    /// The selected row of the index.
    pub index_selected: Option<usize>,
    pub index_page_size: usize,
    pub confirm_index_delete: Option<usize>,
    pub edit: EditState,
    pub entries: Vec<Entry>,
    pub filtered: Vec<usize>,
    pub vault_open: bool,
    pub config: Config,
    pub settings: SettingsState,
    pub status: Option<String>,
    /// The copy to wipe from the clipboard once its time is up.
    pub clipboard_timer: Option<ClipboardTimer>,
    pub should_quit: bool,
    pub slim_mode: bool,
}

/// The key an entry is sorted by: its name in lowercase.
pub open spec fn sort_key(e: Entry) -> Seq<char> {
    lowercase_of(e.name@)
}

/// Whether an entry is listed for a query that is already in lowercase:
/// every entry is listed for an empty query, otherwise those whose name or
/// user name contains it, ignoring case.
pub open spec fn entry_matches(e: Entry, q: Seq<char>) -> bool {
    q.len() == 0 || contains_run(lowercase_of(e.name@), q) || contains_run(lowercase_of(e.user@), q)
}

/// Whether entry `i` is listed before entry `j`: by sort key, and by
/// position among equal keys, since the sort keeps their order.
pub open spec fn listed_before(entries: Seq<Entry>, i: usize, j: usize) -> bool {
    lex_less(sort_key(entries[i as int]), sort_key(entries[j as int])) || (sort_key(
        entries[i as int],
    ) == sort_key(entries[j as int]) && i < j)
}

/// Whether `r` is the index list for `query`: the positions of exactly the
/// entries that match the query, each once, ordered by name without regard
/// to case and, among equal names, by position.
#[verifier::opaque]
pub open spec fn is_filter_of(entries: Seq<Entry>, query: Seq<char>, r: Seq<usize>) -> bool {
    let q = lowercase_of(query);
    &&& forall|k: int|
        0 <= k < r.len() ==> #[trigger] r[k] < entries.len() && entry_matches(entries[r[k] as int], q)
    &&& forall|i: usize| i < entries.len() && entry_matches(entries[i as int], q) ==> #[trigger] r.contains(i)
    &&& forall|a: int, b: int| 0 <= a < b < r.len() ==> listed_before(entries, #[trigger] r[a], #[trigger] r[b])
}

/// The index list is determined by the entries and the query: two lists
/// that both meet `is_filter_of` are the same.
pub proof fn lemma_filter_unique(entries: Seq<Entry>, query: Seq<char>, r1: Seq<usize>, r2: Seq<usize>)
    requires
        is_filter_of(entries, query, r1),
        is_filter_of(entries, query, r2),
    ensures
        r1 == r2,
{
    reveal(is_filter_of);
    let q = lowercase_of(query);
    assert forall|i: usize| #[trigger] r1.contains(i) <==> r2.contains(i) by {
        if r1.contains(i) {
            let k = choose|k: int| 0 <= k < r1.len() && r1[k] == i;
            assert(i < entries.len() && entry_matches(entries[i as int], q));
        }
        if r2.contains(i) {
            let k = choose|k: int| 0 <= k < r2.len() && r2[k] == i;
            assert(i < entries.len() && entry_matches(entries[i as int], q));
        }
    }
    lemma_sorted_sets_equal(entries, r1, r2);
}

proof fn lemma_listed_before_asymmetric(entries: Seq<Entry>, x: usize, y: usize)
    requires
        listed_before(entries, x, y),
    ensures
        !listed_before(entries, y, x),
{
    let kx = sort_key(entries[x as int]);
    let ky = sort_key(entries[y as int]);
    if lex_less(kx, ky) {
        lemma_lex_less_asymmetric(kx, ky);
        if kx == ky {
            lemma_lex_less_irreflexive(kx);
        }
    } else if lex_less(ky, kx) {
        if kx == ky {
            lemma_lex_less_irreflexive(kx);
        }
    }
}

proof fn lemma_sorted_sets_equal(entries: Seq<Entry>, t1: Seq<usize>, t2: Seq<usize>)
    requires
        forall|a: int, b: int| 0 <= a < b < t1.len() ==> listed_before(entries, #[trigger] t1[a], #[trigger] t1[b]),
        forall|a: int, b: int| 0 <= a < b < t2.len() ==> listed_before(entries, #[trigger] t2[a], #[trigger] t2[b]),
        forall|k: int| 0 <= k < t1.len() ==> #[trigger] t1[k] < entries.len(),
        forall|k: int| 0 <= k < t2.len() ==> #[trigger] t2[k] < entries.len(),
        forall|i: usize| #[trigger] t1.contains(i) <==> t2.contains(i),
    ensures
        t1 == t2,
    decreases t1.len() + t2.len(),
{
    if t1.len() > 0 && t2.len() > 0 {
        let a = t1[0];
        let b = t2[0];
        assert(t1.contains(a));
        assert(t2.contains(a));
        assert(t2.contains(b));
        assert(t1.contains(b));
        if a != b {
            let ib = choose|k: int| 0 <= k < t1.len() && t1[k] == b;
            let ia = choose|k: int| 0 <= k < t2.len() && t2[k] == a;
            assert(ib > 0);
            assert(ia > 0);
            assert(listed_before(entries, t1[0], t1[ib]));
            assert(listed_before(entries, t2[0], t2[ia]));
            lemma_listed_before_asymmetric(entries, a, b);
            assert(false);
        }
        let u1 = t1.drop_first();
        let u2 = t2.drop_first();
        assert forall|i: usize| #[trigger] u1.contains(i) <==> u2.contains(i) by {
            if u1.contains(i) {
                let k = choose|k: int| 0 <= k < u1.len() && u1[k] == i;
                assert(t1[k + 1] == i);
                assert(listed_before(entries, t1[0], t1[k + 1]));
                assert(t1.contains(i));
                assert(t2.contains(i));
                let k2 = choose|k2: int| 0 <= k2 < t2.len() && t2[k2] == i;
                if k2 == 0 {
                    lemma_listed_before_asymmetric(entries, a, a);
                    assert(false);
                }
                assert(u2[k2 - 1] == i);
            }
            if u2.contains(i) {
                let k = choose|k: int| 0 <= k < u2.len() && u2[k] == i;
                assert(t2[k + 1] == i);
                assert(listed_before(entries, t2[0], t2[k + 1]));
                assert(t2.contains(i));
                assert(t1.contains(i));
                let k1 = choose|k1: int| 0 <= k1 < t1.len() && t1[k1] == i;
                if k1 == 0 {
                    lemma_listed_before_asymmetric(entries, a, a);
                    assert(false);
                }
                assert(u1[k1 - 1] == i);
            }
        }
        lemma_sorted_sets_equal(entries, u1, u2);
        assert(t1 == seq![a] + u1);
        assert(t2 == seq![a] + u2);
    } else if t1.len() > 0 {
        assert(t1.contains(t1[0]));
        assert(t2.contains(t1[0]));
    } else if t2.len() > 0 {
        assert(t2.contains(t2[0]));
        assert(t1.contains(t2[0]));
    } else {
        assert(t1 == t2);
    }
}


/// Whether position `i` comes before position `j` when listed by the keys:
/// by key, and by position among equal keys.
pub open spec fn key_before(keys: Seq<Seq<char>>, i: usize, j: usize) -> bool {
    lex_less(keys[i as int], keys[j as int]) || (keys[i as int] == keys[j as int] && i < j)
}

/// Whether the positions in `r` are listed in key order.
pub open spec fn sorted_by_keys(keys: Seq<Seq<char>>, r: Seq<usize>) -> bool {
    forall|a: int, b: int| 0 <= a < b < r.len() ==> key_before(keys, #[trigger] r[a], #[trigger] r[b])
}

/// The characters of each key.
pub open spec fn key_views(keys: Seq<Vec<char>>) -> Seq<Seq<char>> {
    keys.map_values(|k: Vec<char>| k@)
}

/// Puts position `x`, which is past every position in `r`, where it
/// belongs in key order.
fn insert_sorted(r: &mut Vec<usize>, keys: &Vec<Vec<char>>, x: usize)
    requires
        x < keys@.len(),
        forall|k: int| 0 <= k < old(r)@.len() ==> #[trigger] old(r)@[k] < x,
        sorted_by_keys(key_views(keys@), old(r)@),
    ensures
        sorted_by_keys(key_views(keys@), final(r)@),
        forall|k: int| 0 <= k < final(r)@.len() ==> #[trigger] final(r)@[k] <= x,
        forall|i: usize| #[trigger] final(r)@.contains(i) <==> (old(r)@.contains(i) || i == x),
{
    let ghost ks = key_views(keys@);
    let ghost kx = ks[x as int];
    let mut p: usize = 0;
    while p < r.len() && !lex_less_chars(&keys[x], &keys[r[p]])
        invariant
            p <= r@.len(),
            r@ == old(r)@,
            x < keys@.len(),
            ks == key_views(keys@),
            kx == ks[x as int],
            forall|k: int| 0 <= k < r@.len() ==> #[trigger] r@[k] < x,
            forall|q: int| 0 <= q < p ==> !lex_less(kx, ks[#[trigger] r@[q] as int]),
        decreases r@.len() - p,
    {
        assert(keys@[r@[p as int] as int]@ == ks[r@[p as int] as int]);
        p = p + 1;
    }
    let ghost old_r = r@;
    proof {
        assert forall|q: int| 0 <= q < p implies key_before(ks, #[trigger] old_r[q], x) by {
            lemma_lex_less_total(ks[old_r[q] as int], kx);
        }
        if p < old_r.len() {
            assert(lex_less(kx, ks[old_r[p as int] as int]));
            assert forall|q: int| p <= q < old_r.len() implies lex_less(kx, ks[#[trigger] old_r[q] as int]) by {
                if q > p {
                    assert(key_before(ks, old_r[p as int], old_r[q]));
                    if lex_less(ks[old_r[p as int] as int], ks[old_r[q] as int]) {
                        lemma_lex_less_transitive(kx, ks[old_r[p as int] as int], ks[old_r[q] as int]);
                    }
                }
            }
        }
    }
    r.insert(p, x);
    proof {
        let nr = r@;
        assert(nr == old_r.insert(p as int, x));
        assert forall|a: int, b: int| 0 <= a < b < nr.len() implies key_before(ks, #[trigger] nr[a], #[trigger] nr[b]) by {
            if a < p && b < p {
                assert(nr[a] == old_r[a] && nr[b] == old_r[b]);
            } else if a < p && b == p {
                assert(nr[a] == old_r[a]);
            } else if a < p && b > p {
                assert(nr[a] == old_r[a] && nr[b] == old_r[b - 1]);
            } else if a == p {
                assert(nr[b] == old_r[b - 1]);
            } else {
                assert(nr[a] == old_r[a - 1] && nr[b] == old_r[b - 1]);
            }
        }
        assert forall|i: usize| #[trigger] nr.contains(i) <==> (old_r.contains(i) || i == x) by {
            if nr.contains(i) {
                let k = choose|k: int| 0 <= k < nr.len() && nr[k] == i;
                if k < p {
                    assert(old_r[k] == i);
                } else if k > p {
                    assert(old_r[k - 1] == i);
                }
            }
            if old_r.contains(i) {
                let k = choose|k: int| 0 <= k < old_r.len() && old_r[k] == i;
                if k < p {
                    assert(nr[k] == i);
                } else {
                    assert(nr[k + 1] == i);
                }
            }
            if i == x {
                assert(nr[p as int] == x);
            }
        }
        assert forall|k: int| 0 <= k < nr.len() implies #[trigger] nr[k] <= x by {
            if k < p {
                assert(nr[k] == old_r[k]);
            } else if k > p {
                assert(nr[k] == old_r[k - 1]);
            }
        }
    }
}

/// Whether the list shows the entries that match the query, with its first
/// row selected.
pub open spec fn list_refreshed(app: App) -> bool {
    &&& is_filter_of(app.entries@, app.query@, app.filtered@)
    &&& app.index_selected == if app.filtered@.len() == 0 {
        None::<usize>
    } else {
        Some(0usize)
    }
}

impl App {
    /// The positions of the entries that match the query, in list order.
    fn compute_filtered(&self) -> (r: Vec<usize>)
        ensures
            is_filter_of(self.entries@, self.query@, r@),
            self.query@.len() == 0 ==> forall|i: usize| i < self.entries@.len() ==> #[trigger] r@.contains(i),
    {
        let mut lowered_query = to_lowercase(self.query.as_str());
        let mut q = chars_of(lowered_query.as_str());
        let ghost ql = lowercase_of(self.query@);
        let n = self.entries.len();
        let mut keys: Vec<Vec<char>> = Vec::new();
        let mut r: Vec<usize> = Vec::new();
        let mut i: usize = 0;
        while i < n
            invariant
                n == self.entries@.len(),
                q@ == ql,
                ql == lowercase_of(self.query@),
                i <= n,
                keys@.len() == i,
                forall|k: int| 0 <= k < i ==> #[trigger] key_views(keys@)[k] == sort_key(self.entries@[k]),
                forall|k: int| 0 <= k < r@.len() ==> #[trigger] r@[k] < i && entry_matches(self.entries@[r@[k] as int], ql),
                forall|j: usize| j < i && entry_matches(self.entries@[j as int], ql) ==> #[trigger] r@.contains(j),
                sorted_by_keys(key_views(keys@), r@),
            decreases n - i,
        {
            let e = &self.entries[i];
            let name_lower = to_lowercase(e.name.as_str());
            let user_lower = to_lowercase(e.user.as_str());
            let name_chars = chars_of(name_lower.as_str());
            let user_chars = chars_of(user_lower.as_str());
            let matched = q.len() == 0 || contains_chars(&name_chars, &q) || contains_chars(&user_chars, &q);
            let ghost old_keys = keys@;
            let ghost old_r = r@;
            keys.push(name_chars);
            proof {
                assert(key_views(keys@) == key_views(old_keys).push(keys@[i as int]@));
                assert forall|a: int, b: int| 0 <= a < b < r@.len() implies key_before(key_views(keys@), #[trigger] r@[a], #[trigger] r@[b]) by {
                    assert(key_before(key_views(old_keys), r@[a], r@[b]));
                }
            }
            if matched {
                insert_sorted(&mut r, &keys, i);
                proof {
                    assert forall|k: int| 0 <= k < r@.len() implies #[trigger] r@[k] < i + 1 && entry_matches(self.entries@[r@[k] as int], ql) by {
                        assert(r@.contains(r@[k]));
                        if r@[k] != i {
                            let k0 = choose|k0: int| 0 <= k0 < old_r.len() && old_r[k0] == r@[k];
                        }
                    }
                    assert forall|j: usize| j < i + 1 && entry_matches(self.entries@[j as int], ql) implies #[trigger] r@.contains(j) by {
                        if j < i {
                            assert(old_r.contains(j));
                        }
                    }
                }
            } else {
                proof {
                    assert forall|j: usize| j < i + 1 && entry_matches(self.entries@[j as int], ql) implies #[trigger] r@.contains(j) by {
                        if j == i {
                            assert(false);
                        }
                    }
                }
            }
            i = i + 1;
        }
        proof {
            reveal(is_filter_of);
            assert forall|a: int, b: int| 0 <= a < b < r@.len() implies listed_before(self.entries@, #[trigger] r@[a], #[trigger] r@[b]) by {
                assert(key_before(key_views(keys@), r@[a], r@[b]));
                assert(key_views(keys@)[r@[a] as int] == sort_key(self.entries@[r@[a] as int]));
                assert(key_views(keys@)[r@[b] as int] == sort_key(self.entries@[r@[b] as int]));
            }
        }
        wipe(&mut lowered_query);
        wipe_chars(&mut q);
        r
    }

    /// Recomputes the index list for the current query and selects its
    /// first row, or nothing when it is empty.
    pub fn refresh_filter(&mut self)
        ensures
            is_filter_of(final(self).entries@, final(self).query@, final(self).filtered@),
            final(self).query@.len() == 0 ==> forall|i: usize| i < final(self).entries@.len() ==> #[trigger] final(self).filtered@.contains(i),
            final(self).index_selected == if final(self).filtered@.len() == 0 {
                None::<usize>
            } else {
                Some(0usize)
            },
            *final(self) == (App {
                filtered: final(self).filtered,
                index_selected: final(self).index_selected,
                ..*old(self)
            }),
    {
        self.filtered = self.compute_filtered();
        let count = self.filtered.len();
        self.index_selected = if count == 0 {
            None
        } else {
            Some(0)
        };
    }
}


/// Work the screens hand to the program that runs them, which holds the
/// open vault: it does the work and reports back through the `finish_`
/// functions.
#[derive(Clone, Copy, PartialEq, Eq, Debug, Structural)]
pub enum Effect {
    /// Nothing to do.
    Nothing,
    /// Remove the entry at `index`, whose vault identifier is `id`, from the
    /// vault and write the vault.
    DeleteEntry { index: usize, id: u128 },
    /// Remove the entry being edited, whose vault identifier is `id`, from
    /// the vault and write the vault.
    DeleteEditedEntry { id: u128 },
    /// Write the entry at `index` into the vault and write the vault.
    SaveEntry { index: usize },
    /// List the themes and open the settings screen.
    OpenSettings,
    /// Unlock the configured vault with the typed password.
    Unlock,
    /// Create a new vault protected by the typed password.
    CreateDatabase,
    /// Write the settings to the configuration file.
    SaveConfig,
    /// Check the current master password typed in the settings and
    /// re-encrypt the vault with the new one.
    ChangePassword,
    /// Read the entries of the file the import dialog names and add them to
    /// the vault.
    Import,
    /// Write the entries to the file the export dialog names.
    Export,
}

/// Whether an optional message is present and reads `text`.
pub open spec fn says(o: Option<String>, text: Seq<char>) -> bool {
    o matches Some(m) && m@ == text
}

/// A message for the user.
pub fn message(text: &str) -> (r: Option<String>)
    ensures
        says(r, text@),
{
    let mut m = String::new();
    crate::text::push_str(&mut m, text);
    Some(m)
}

/// A message made of a fixed part and a detail.
pub fn message_with(text: &str, detail: &str) -> (r: Option<String>)
    ensures
        says(r, text@ + detail@),
{
    let mut m = String::new();
    crate::text::push_str(&mut m, text);
    crate::text::push_str(&mut m, detail);
    Some(m)
}

impl LoginState {
    /// Whether nothing is typed or pending on the login screen but the
    /// password `password`.
    pub open spec fn is_fresh(self, password: Seq<char>) -> bool {
        &&& self.password@ == password
        &&& !self.creating_database
        &&& !self.confirming_new_db_password
        &&& self.new_db_confirm@.len() == 0
    }
}

impl EditState {
    /// Whether no entry is open.
    pub open spec fn is_closed(self) -> bool {
        &&& self.selected is None
        &&& self.entry is None
        &&& self.original is None
        &&& self.target is None
        &&& !self.editing_field
        &&& self.field_editor is None
        &&& !self.confirm_delete
        &&& !self.confirm_exit
        &&& !self.reveal_password
    }
}

impl SettingsState {
    /// Whether no theme list is loaded and no dialog is open or holds
    /// anything typed.
    pub open spec fn is_cleared(self) -> bool {
        &&& self.available_themes@.len() == 0
        &&& self.selected is None
        &&& !self.choosing_theme
        &&& self.theme_selected is None
        &&& !self.changing_password
        &&& self.password_change_step == PasswordChangeStep::Current
        &&& self.current_password_buffer@.len() == 0
        &&& self.new_password_buffer@.len() == 0
        &&& self.new_password_confirm@.len() == 0
        &&& !self.importing_database
        &&& self.import_step == ImportStep::Path
        &&& self.import_path_buffer@.len() == 0
        &&& self.import_kdbx_password_buffer@.len() == 0
        &&& self.pending_import_path is None
        &&& !self.exporting_database
        &&& self.export_step == ExportStep::Path
        &&& self.export_path_buffer@.len() == 0
        &&& self.pending_export_path is None
        &&& !self.editing
        &&& self.field_editor is None
    }

    /// The state with nothing loaded, open or typed.
    pub fn cleared() -> (s: SettingsState)
        ensures
            s.is_cleared(),
    {
        SettingsState {
            available_themes: Vec::new(),
            selected: None,
            choosing_theme: false,
            theme_selected: None,
            changing_password: false,
            password_change_step: PasswordChangeStep::Current,
            current_password_buffer: String::new(),
            new_password_buffer: String::new(),
            new_password_confirm: String::new(),
            importing_database: false,
            import_step: ImportStep::Path,
            import_path_buffer: String::new(),
            import_kdbx_password_buffer: String::new(),
            pending_import_path: None,
            exporting_database: false,
            export_step: ExportStep::Path,
            export_path_buffer: String::new(),
            pending_export_path: None,
            editing: false,
            field_editor: None,
        }
    }
}

impl App {
    /// The state at start: the login screen, nothing unlocked, and the
    /// password handed in (from standard input, when one was piped in).
    pub fn new(config: Config, slim_mode: bool, password: String) -> (a: App)
        ensures
            a.screen == Screen::Login,
            a.login.is_fresh(password@),
            a.login.error is None,
            a.query@.len() == 0,
            a.max_len == 0,
            a.index_selected == Some(0usize),
            a.index_page_size == 1,
            a.confirm_index_delete is None,
            a.edit.is_closed(),
            a.edit.field_editor_scroll == 0,
            a.entries@.len() == 0,
            a.filtered@.len() == 0,
            !a.vault_open,
            a.config == config,
            a.settings.is_cleared(),
            a.status is None,
            a.clipboard_timer is None,
            !a.should_quit,
            a.slim_mode == slim_mode,
    {
        App {
            screen: Screen::Login,
            login: LoginState {
                password,
                creating_database: false,
                confirming_new_db_password: false,
                new_db_confirm: String::new(),
                error: None,
            },
            query: String::new(),
            max_len: 0,
            index_selected: Some(0),
            index_page_size: 1,
            confirm_index_delete: None,
            edit: EditState {
                selected: None,
                entry: None,
                original: None,
                target: None,
                editing_field: false,
                field_editor: None,
                field_editor_scroll: 0,
                confirm_delete: false,
                confirm_exit: false,
                reveal_password: false,
            },
            entries: Vec::new(),
            filtered: Vec::new(),
            vault_open: false,
            config,
            settings: SettingsState::cleared(),
            status: None,
            clipboard_timer: None,
            should_quit: false,
            slim_mode,
        }
    }
}

/// Whether the vault locks: a screen past the login has been left alone
/// for `idle_secs` whole seconds, at least the configured delay.
pub open spec fn lock_due(app: App, idle_secs: u64) -> bool {
    &&& app.screen == Screen::Index || app.screen == Screen::Edit || app.screen == Screen::Settings
    &&& idle_secs >= app.config.auto_lock
}

/// The state once everything read from the vault or typed is dropped or
/// wiped: no entries, no open entry or editor, nothing typed on the login
/// and settings screens, and the vault marked closed.
pub open spec fn vault_forgotten(old: App, new: App) -> bool {
    &&& new.entries@.len() == 0
    &&& new.filtered@.len() == 0
    &&& new.query@.len() == 0
    &&& new.login.password@.len() == 0
    &&& new.login.new_db_confirm@.len() == 0
    &&& new.settings.is_cleared()
    &&& new == (App {
        login: LoginState {
            password: new.login.password,
            creating_database: false,
            confirming_new_db_password: false,
            new_db_confirm: new.login.new_db_confirm,
            ..old.login
        },
        query: new.query,
        edit: EditState {
            entry: None,
            original: None,
            target: None,
            editing_field: false,
            field_editor: None,
            field_editor_scroll: 0,
            confirm_delete: false,
            confirm_exit: false,
            ..old.edit
        },
        entries: new.entries,
        filtered: new.filtered,
        vault_open: false,
        settings: new.settings,
        ..old
    })
}

/// Once the vault is forgotten, no secret is left in the state: no entry,
/// no open entry or copy of one, no field editor, and no typed password,
/// query or settings buffer holds a character.
pub proof fn lemma_forgotten_holds_no_secret(old: App, new: App)
    requires
        vault_forgotten(old, new),
    ensures
        new.entries@.len() == 0,
        new.edit.entry is None,
        new.edit.original is None,
        new.edit.field_editor is None,
        new.login.password@.len() == 0,
        new.login.new_db_confirm@.len() == 0,
        new.query@.len() == 0,
        new.settings.current_password_buffer@.len() == 0,
        new.settings.new_password_buffer@.len() == 0,
        new.settings.new_password_confirm@.len() == 0,
        new.settings.import_kdbx_password_buffer@.len() == 0,
        !new.vault_open,
{
}

/// Drops or wipes everything read from the vault and everything typed, as
/// at a lock or on the way out.
pub fn forget_vault(app: &mut App)
    ensures
        vault_forgotten(*old(app), *final(app)),
{
    wipe_entries(&mut app.entries);
    app.filtered = Vec::new();
    wipe(&mut app.login.password);
    wipe(&mut app.query);
    app.vault_open = false;
    clear_entry(&mut app.edit.entry);
    clear_entry(&mut app.edit.original);
    app.edit.target = None;
    app.edit.editing_field = false;
    close_editor(&mut app.edit.field_editor);
    app.edit.field_editor_scroll = 0;
    app.edit.confirm_delete = false;
    app.edit.confirm_exit = false;
    wipe(&mut app.settings.current_password_buffer);
    wipe(&mut app.settings.new_password_buffer);
    wipe(&mut app.settings.new_password_confirm);
    wipe(&mut app.settings.import_kdbx_password_buffer);
    close_editor(&mut app.settings.field_editor);
    app.settings = SettingsState::cleared();
    app.login.creating_database = false;
    app.login.confirming_new_db_password = false;
    wipe(&mut app.login.new_db_confirm);
}

/// Locks the vault after inactivity: everything read from it and everything
/// typed is dropped or wiped, and the login screen says why. The caller,
/// which holds the open vault, drops it when this returns `true`.
pub fn maybe_auto_lock(app: &mut App, idle_secs: u64) -> (locked: bool)
    ensures
        locked == lock_due(*old(app), idle_secs),
        !locked ==> *final(app) == *old(app),
        locked ==> {
            &&& says(final(app).login.error, "Locked after inactivity"@)
            &&& final(app).screen == Screen::Login
            &&& vault_forgotten(
                *old(app),
                App { screen: old(app).screen, login: LoginState { error: old(app).login.error, ..final(app).login }, ..*final(app) },
            )
        },
{
    let watched = match app.screen {
        Screen::Index | Screen::Edit | Screen::Settings => true,
        Screen::Login => false,
    };
    if !watched || idle_secs < app.config.auto_lock {
        return false;
    }
    forget_vault(app);
    app.screen = Screen::Login;
    app.login.error = message("Locked after inactivity");
    true
}

} // verus!
