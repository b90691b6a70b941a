//! Generic editable field state and keyboard handling.
//!
//! The editor owns the text, the cursor, the editing mode and the viewport
//! calculations used by editable fields. The cursor is kept as a position
//! between characters; `cursor()` reports it as a byte offset into the text,
//! which is always a character boundary.

use vstd::prelude::*;
use vstd::string::*;
use vstd::utf8::*;

use crate::input::{KeyCode, KeyEvent, KeyModifiers};
use crate::text::{chars_of, push_str, string_of, wipe, wipe_chars};
use crate::width::{column_width, columns_of, printable_ascii, str_display_width, str_width};

verus! {

#[derive(Debug, Clone, Copy, PartialEq, Eq, Structural)]
pub enum EditAction {
    /// The key was handled and editing should continue.
    Continue,
    /// The user wants to accept the current field contents.
    Accept,
    /// The user wants to cancel editing.
    Cancel,
}

#[derive(Debug, Clone, Copy, PartialEq, Eq, Structural)]
pub enum FieldMode {
    /// A field that must remain on one terminal line.
    SingleLine,
    /// A field that may contain newlines.
    Multiline,
}

/// Editable text field.
///
/// There is deliberately no undo/redo history, clipboard buffer, search
/// state, or other secondary copy of the text; every buffer the editor lets
/// go of is wiped.
pub struct FieldEditor {
    text: String,
    cursor: usize,
    preferred_column: Option<usize>,
    mode: FieldMode,
}

/// The abstract state of a field editor: its characters, the cursor as the
/// number of characters before it, the column that vertical movement aims
/// for, and the mode.
pub struct FieldState {
    pub text: Seq<char>,
    pub cursor: nat,
    pub preferred_column: Option<usize>,
    pub mode: FieldMode,
}

impl View for FieldEditor {
    type V = FieldState;

    closed spec fn view(&self) -> FieldState {
        FieldState {
            text: self.text@,
            cursor: self.cursor as nat,
            preferred_column: self.preferred_column,
            mode: self.mode,
        }
    }
}

/// The index just after the last newline before position `c`, or 0.
pub open spec fn line_start_of(t: Seq<char>, c: int) -> int
    decreases c,
{
    if c <= 0 {
        0
    } else if t[c - 1] == '\n' {
        c
    } else {
        line_start_of(t, c - 1)
    }
}

/// The index of the first newline at or after position `c`, or the length.
pub open spec fn line_end_of(t: Seq<char>, c: int) -> int
    decreases t.len() - c,
{
    if c >= t.len() {
        t.len() as int
    } else if t[c] == '\n' {
        c
    } else {
        line_end_of(t, c + 1)
    }
}

pub proof fn lemma_line_start_bounds(t: Seq<char>, c: int)
    requires
        0 <= c <= t.len(),
    ensures
        0 <= line_start_of(t, c) <= c,
        line_start_of(t, c) > 0 ==> t[line_start_of(t, c) - 1] == '\n',
        forall|i: int| line_start_of(t, c) <= i < c ==> t[i] != '\n',
    decreases c,
{
    if c > 0 && t[c - 1] != '\n' {
        lemma_line_start_bounds(t, c - 1);
    }
}

pub proof fn lemma_line_end_bounds(t: Seq<char>, c: int)
    requires
        0 <= c <= t.len(),
    ensures
        c <= line_end_of(t, c) <= t.len(),
        line_end_of(t, c) < t.len() ==> t[line_end_of(t, c)] == '\n',
        forall|i: int| c <= i < line_end_of(t, c) ==> t[i] != '\n',
    decreases t.len() - c,
{
    if c < t.len() && t[c] != '\n' {
        lemma_line_end_bounds(t, c + 1);
    }
}


/// A position `a` at or before `c`, with a newline (or the start) just
/// before it and none from it up to `c`, is the start of `c`'s line.
pub proof fn lemma_line_start_is(t: Seq<char>, c: int, a: int)
    requires
        0 <= a <= c <= t.len(),
        a == 0 || t[a - 1] == '\n',
        forall|i: int| a <= i < c ==> t[i] != '\n',
    ensures
        line_start_of(t, c) == a,
    decreases c,
{
    if c > a {
        lemma_line_start_is(t, c - 1, a);
    }
}

/// A position `b` at or after `c`, with a newline (or the end) at it and
/// none from `c` up to it, is the end of `c`'s line.
pub proof fn lemma_line_end_is(t: Seq<char>, c: int, b: int)
    requires
        0 <= c <= b <= t.len(),
        b == t.len() || t[b] == '\n',
        forall|i: int| c <= i < b ==> t[i] != '\n',
    ensures
        line_end_of(t, c) == b,
    decreases b - c,
{
    if c < b {
        lemma_line_end_is(t, c + 1, b);
    }
}

/// The columns a run of characters takes, counted character by character.
pub open spec fn columns_sum(s: Seq<char>) -> int
    decreases s.len(),
{
    if s.len() == 0 {
        0
    } else {
        columns_sum(s.drop_last()) + columns_of(s.last())
    }
}

/// The first position from `i` on before which the characters take at least
/// `scroll` columns, or the end of the text if there is none.
pub open spec fn first_visible(t: Seq<char>, scroll: int, i: int) -> int
    decreases t.len() - i,
{
    if i >= t.len() {
        t.len() as int
    } else if columns_sum(t.take(i)) >= scroll {
        i
    } else {
        first_visible(t, scroll, i + 1)
    }
}

/// How many leading characters of `s` fit in `room` columns, stopping at
/// the first one that does not.
pub open spec fn fitting_count(s: Seq<char>, room: int) -> nat
    decreases s.len(),
{
    if s.len() == 0 {
        0
    } else if columns_of(s[0]) > room {
        0
    } else {
        1 + fitting_count(s.drop_first(), room - columns_of(s[0]))
    }
}

impl FieldState {

    /// The display columns before the cursor.
    pub open spec fn cursor_column(self) -> int {
        str_display_width(self.text.take(self.cursor as int)) as int
    }

    /// The horizontal scroll, in columns, that keeps the cursor visible in
    /// a single-line field `width` columns wide: none for a multiline field,
    /// a zero width, or a cursor that already fits.
    pub open spec fn scroll(self, width: usize) -> int {
        if self.mode != FieldMode::SingleLine || width == 0 {
            0
        } else if self.cursor_column() < width {
            0
        } else {
            self.cursor_column() - width + 1
        }
    }

    /// What a single-line field `width` columns wide shows: the text from
    /// the first character at or past the scroll offset, as many characters
    /// as fit, and the cursor's column within that view.
    pub open spec fn visible(self, width: usize) -> (Seq<char>, int) {
        if width == 0 {
            (Seq::empty(), 0)
        } else {
            let t = self.text;
            let start = first_visible(t, self.scroll(width), 0);
            let count = fitting_count(t.skip(start), width as int);
            let skipped = columns_sum(t.take(start));
            let col = if self.cursor_column() > skipped {
                self.cursor_column() - skipped
            } else {
                0
            };
            (t.subrange(start, start + count), if col < width {
                col
            } else {
                width as int
            })
        }
    }


    /// What a key does to the field: the state after it and what the owner
    /// of the field should do next.
    pub open spec fn after_key(self, key: KeyEvent) -> (FieldState, EditAction) {
        match key.code {
            KeyCode::Esc => (self, EditAction::Cancel),
            KeyCode::Enter => if self.mode == FieldMode::Multiline {
                (self.inserted('\n'), EditAction::Continue)
            } else {
                (self, EditAction::Accept)
            },
            KeyCode::Char(ch) => if ch == 's' && key.modifiers == KeyModifiers::CONTROL {
                (self, EditAction::Accept)
            } else {
                (self.inserted(ch), EditAction::Continue)
            },
            KeyCode::Backspace => (self.backspaced(), EditAction::Continue),
            KeyCode::Delete => (self.deleted(), EditAction::Continue),
            KeyCode::Left => (self.moved_left(), EditAction::Continue),
            KeyCode::Right => (self.moved_right(), EditAction::Continue),
            KeyCode::Up => if self.mode == FieldMode::Multiline {
                (self.moved_vertically(true).0, EditAction::Continue)
            } else {
                (self, EditAction::Continue)
            },
            KeyCode::Down => if self.mode == FieldMode::Multiline {
                (self.moved_vertically(false).0, EditAction::Continue)
            } else {
                (self, EditAction::Continue)
            },
            KeyCode::Home => (self.homed(), EditAction::Continue),
            KeyCode::End => (self.ended(), EditAction::Continue),
            _ => (self, EditAction::Continue),
        }
    }

    /// The state after typing `ch`: a newline is refused by a single-line
    /// field; anything else goes in at the cursor, which moves past it.
    pub open spec fn inserted(self, ch: char) -> FieldState {
        if self.mode == FieldMode::SingleLine && ch == '\n' {
            self
        } else {
            FieldState {
                text: self.text.insert(self.cursor as int, ch),
                cursor: self.cursor + 1,
                preferred_column: None,
                ..self
            }
        }
    }

    /// The state after Backspace: the character before the cursor goes.
    pub open spec fn backspaced(self) -> FieldState {
        if self.cursor == 0 {
            self
        } else {
            FieldState {
                text: self.text.remove(self.cursor - 1),
                cursor: (self.cursor - 1) as nat,
                preferred_column: None,
                ..self
            }
        }
    }

    /// The state after Delete: the character after the cursor goes.
    pub open spec fn deleted(self) -> FieldState {
        if self.cursor == self.text.len() {
            self
        } else {
            FieldState { text: self.text.remove(self.cursor as int), preferred_column: None, ..self }
        }
    }

    /// The state after moving one character to the left.
    pub open spec fn moved_left(self) -> FieldState {
        if self.cursor == 0 {
            self
        } else {
            FieldState { cursor: (self.cursor - 1) as nat, preferred_column: None, ..self }
        }
    }

    /// The state after moving one character to the right.
    pub open spec fn moved_right(self) -> FieldState {
        if self.cursor == self.text.len() {
            self
        } else {
            FieldState { cursor: self.cursor + 1, preferred_column: None, ..self }
        }
    }

    /// The state after Home: the start of the field, or of the current line
    /// in a multiline field.
    pub open spec fn homed(self) -> FieldState {
        FieldState {
            cursor: if self.mode == FieldMode::SingleLine {
                0
            } else {
                line_start_of(self.text, self.cursor as int) as nat
            },
            preferred_column: None,
            ..self
        }
    }

    /// The state after End: the end of the field, or of the current line in
    /// a multiline field.
    pub open spec fn ended(self) -> FieldState {
        FieldState {
            cursor: if self.mode == FieldMode::SingleLine {
                self.text.len()
            } else {
                line_end_of(self.text, self.cursor as int) as nat
            },
            preferred_column: None,
            ..self
        }
    }

    /// The column vertical movement aims for: the remembered one, else the
    /// number of characters between the start of the line and the cursor.
    pub open spec fn goal_column(self) -> int {
        match self.preferred_column {
            Some(p) => p as int,
            None => self.cursor - line_start_of(self.text, self.cursor as int),
        }
    }

    /// Moving one line up (`up`) or down in a multiline field: whether there
    /// is such a line, and the state after. The cursor lands in that line at
    /// the goal column, or at its end if the line is shorter, and the goal
    /// column is remembered.
    pub open spec fn moved_vertically(self, up: bool) -> (FieldState, bool) {
        let t = self.text;
        let start = line_start_of(t, self.cursor as int);
        let end = line_end_of(t, self.cursor as int);
        if (up && start == 0) || (!up && end == t.len()) {
            (self, false)
        } else {
            let target_start = if up {
                line_start_of(t, start - 1)
            } else {
                end + 1
            };
            let target_len = line_end_of(t, target_start) - target_start;
            let col = self.goal_column();
            let moved = if col < target_len {
                col
            } else {
                target_len
            };
            (
                FieldState {
                    cursor: (target_start + moved) as nat,
                    preferred_column: Some(col as usize),
                    ..self
                },
                true,
            )
        }
    }
}

impl Default for FieldEditor {
    /// An empty single-line editor.
    fn default() -> (e: FieldEditor)
        ensures
            e@ == (FieldState {
                text: Seq::empty(),
                cursor: 0,
                preferred_column: None,
                mode: FieldMode::SingleLine,
            }),
    {
        FieldEditor {
            text: String::new(),
            cursor: 0,
            preferred_column: None,
            mode: FieldMode::SingleLine,
        }
    }
}

impl FieldEditor {
    #[verifier::type_invariant]
    spec fn well_formed(self) -> bool {
        self.cursor <= self.text@.len()
    }

    /// Creates a single-line editor containing `text`, with the cursor at
    /// the beginning of the field.
    pub fn with_text(text: &str) -> (e: FieldEditor)
        ensures
            e@ == (FieldState {
                text: text@,
                cursor: 0,
                preferred_column: None,
                mode: FieldMode::SingleLine,
            }),
    {
        Self::with_mode(text, FieldMode::SingleLine)
    }

    /// Creates a multiline editor containing `text`, with the cursor at the
    /// beginning of the field.
    pub fn with_multiline_text(text: &str) -> (e: FieldEditor)
        ensures
            e@ == (FieldState {
                text: text@,
                cursor: 0,
                preferred_column: None,
                mode: FieldMode::Multiline,
            }),
    {
        Self::with_mode(text, FieldMode::Multiline)
    }

    /// Creates an editor with an explicitly selected mode.
    pub fn with_mode(text: &str, mode: FieldMode) -> (e: FieldEditor)
        ensures
            e@ == (FieldState { text: text@, cursor: 0, preferred_column: None, mode }),
    {
        let mut owned = String::new();
        push_str(&mut owned, text);
        FieldEditor { text: owned, cursor: 0, preferred_column: None, mode }
    }

    pub fn text(&self) -> (r: &str)
        ensures
            r@ == self@.text,
    {
        self.text.as_str()
    }

    /// Closes the editor, wiping its text.
    pub fn discard(self) {
        let mut editor = self;
        proof {
            use_type_invariant(&editor);
        }
        editor.cursor = 0;
        let mut text = String::new();
        std::mem::swap(&mut text, &mut editor.text);
        wipe(&mut text);
    }

    /// The text before the cursor.
    pub fn text_before_cursor(&self) -> (r: String)
        ensures
            r@ == self@.text.take(self@.cursor as int),
    {
        proof {
            use_type_invariant(self);
        }
        let before = self.text.as_str().substring_char(0, self.cursor);
        before.to_owned()
    }

    pub fn into_text(self) -> (r: String)
        ensures
            r@ == self@.text,
    {
        self.text
    }

    /// The cursor as a byte offset; it always lies within the text, on a
    /// character boundary.
    pub fn cursor(&self) -> (r: usize)
        ensures
            self@.cursor <= self@.text.len(),
            r == encode_utf8(self@.text.take(self@.cursor as int)).len() as usize,
            is_char_boundary(
                encode_utf8(self@.text),
                encode_utf8(self@.text.take(self@.cursor as int)).len() as int,
            ),
    {
        proof {
            use_type_invariant(self);
            lemma_prefix_is_char_boundary(self@.text, self@.cursor as int);
        }
        let before = self.text.as_str().substring_char(0, self.cursor);
        assert(before@ == self@.text.take(self@.cursor as int));
        before.len()
    }

    pub fn is_single_line(&self) -> (r: bool)
        ensures
            r == (self@.mode == FieldMode::SingleLine),
    {
        match self.mode {
            FieldMode::SingleLine => true,
            FieldMode::Multiline => false,
        }
    }

    pub fn is_multiline(&self) -> (r: bool)
        ensures
            r == (self@.mode == FieldMode::Multiline),
    {
        match self.mode {
            FieldMode::SingleLine => false,
            FieldMode::Multiline => true,
        }
    }

    /// Replaces the text, wiping the buffer that held the old one.
    fn replace_text(&mut self, chars: &Vec<char>)
        requires
            old(self).cursor <= chars@.len(),
        ensures
            final(self)@ == (FieldState { text: chars@, ..old(self)@ }),
    {
        let mut fresh = string_of(chars);
        std::mem::swap(&mut self.text, &mut fresh);
        wipe(&mut fresh);
    }

    pub fn insert(&mut self, ch: char)
        ensures
            final(self)@ == old(self)@.inserted(ch),
    {
        proof {
            use_type_invariant(&*self);
        }
        if self.is_single_line() && ch == '\n' {
            return;
        }
        let mut chars = chars_of(self.text.as_str());
        chars.insert(self.cursor, ch);
        let len = chars.len();
        assert(self.cursor < len);
        let next = self.cursor + 1;
        self.replace_text(&chars);
        wipe_chars(&mut chars);
        self.cursor = next;
        self.preferred_column = None;
    }

    /// Applies one key press to the field.
    pub fn handle_key(&mut self, key: KeyEvent) -> (action: EditAction)
        ensures
            (final(self)@, action) == old(self)@.after_key(key),
    {
        match key.code {
            KeyCode::Esc => EditAction::Cancel,
            KeyCode::Enter => {
                if self.is_multiline() {
                    self.insert('\n');
                    EditAction::Continue
                } else {
                    EditAction::Accept
                }
            },
            KeyCode::Char(ch) => {
                if ch == 's' && key.modifiers.contains_control() {
                    EditAction::Accept
                } else {
                    self.insert(ch);
                    EditAction::Continue
                }
            },
            KeyCode::Backspace => {
                self.backspace();
                EditAction::Continue
            },
            KeyCode::Delete => {
                self.delete();
                EditAction::Continue
            },
            KeyCode::Left => {
                self.move_left();
                EditAction::Continue
            },
            KeyCode::Right => {
                self.move_right();
                EditAction::Continue
            },
            KeyCode::Up => {
                self.move_up();
                EditAction::Continue
            },
            KeyCode::Down => {
                self.move_down();
                EditAction::Continue
            },
            KeyCode::Home => {
                self.home();
                EditAction::Continue
            },
            KeyCode::End => {
                self.end();
                EditAction::Continue
            },
            _ => EditAction::Continue,
        }
    }

    pub fn backspace(&mut self)
        ensures
            final(self)@ == old(self)@.backspaced(),
    {
        proof {
            use_type_invariant(&*self);
        }
        if self.cursor == 0 {
            return;
        }
        let mut chars = chars_of(self.text.as_str());
        chars.remove(self.cursor - 1);
        self.cursor = self.cursor - 1;
        self.replace_text(&chars);
        wipe_chars(&mut chars);
        self.preferred_column = None;
    }

    pub fn delete(&mut self)
        ensures
            final(self)@ == old(self)@.deleted(),
    {
        proof {
            use_type_invariant(&*self);
        }
        let mut chars = chars_of(self.text.as_str());
        if self.cursor == chars.len() {
            wipe_chars(&mut chars);
            return;
        }
        chars.remove(self.cursor);
        self.replace_text(&chars);
        wipe_chars(&mut chars);
        self.preferred_column = None;
    }

    pub fn move_left(&mut self)
        ensures
            final(self)@ == old(self)@.moved_left(),
    {
        proof {
            use_type_invariant(&*self);
        }
        if self.cursor == 0 {
            return;
        }
        self.cursor = self.cursor - 1;
        self.preferred_column = None;
    }

    pub fn move_right(&mut self)
        ensures
            final(self)@ == old(self)@.moved_right(),
    {
        proof {
            use_type_invariant(&*self);
        }
        let len = self.text.as_str().unicode_len();
        if self.cursor == len {
            return;
        }
        self.cursor = self.cursor + 1;
        self.preferred_column = None;
    }

    pub fn home(&mut self)
        ensures
            final(self)@ == old(self)@.homed(),
    {
        proof {
            use_type_invariant(&*self);
        }
        if self.is_single_line() {
            self.cursor = 0;
        } else {
            let mut chars = chars_of(self.text.as_str());
            self.cursor = line_start(&chars, self.cursor);
            wipe_chars(&mut chars);
        }
        self.preferred_column = None;
    }

    pub fn end(&mut self)
        ensures
            final(self)@ == old(self)@.ended(),
    {
        proof {
            use_type_invariant(&*self);
        }
        let mut chars = chars_of(self.text.as_str());
        if self.is_single_line() {
            self.cursor = chars.len();
        } else {
            self.cursor = line_end(&chars, self.cursor);
        }
        wipe_chars(&mut chars);
        self.preferred_column = None;
    }

    /// Moves the cursor one line up in a multiline field; returns whether
    /// there was a line to move to.
    pub fn move_up(&mut self) -> (moved: bool)
        ensures
            old(self)@.mode == FieldMode::SingleLine ==> !moved && final(self)@ == old(self)@,
            old(self)@.mode == FieldMode::Multiline ==> (final(self)@, moved) == old(
                self,
            )@.moved_vertically(true),
    {
        if self.is_single_line() {
            return false;
        }
        self.move_vertical(true)
    }

    /// Moves the cursor one line down in a multiline field; returns whether
    /// there was a line to move to.
    pub fn move_down(&mut self) -> (moved: bool)
        ensures
            old(self)@.mode == FieldMode::SingleLine ==> !moved && final(self)@ == old(self)@,
            old(self)@.mode == FieldMode::Multiline ==> (final(self)@, moved) == old(
                self,
            )@.moved_vertically(false),
    {
        if self.is_single_line() {
            return false;
        }
        self.move_vertical(false)
    }

    /// The display-column position of the cursor: Unicode terminal width
    /// rather than character count, so wide characters such as Chinese
    /// characters occupy two columns.
    pub fn cursor_display_column(&self) -> (r: usize)
        ensures
            r == self@.cursor_column(),
            printable_ascii(self@.text) ==> r == self@.cursor,
    {
        proof {
            use_type_invariant(self);
        }
        let before = self.text.as_str().substring_char(0, self.cursor);
        assert(before@ == self@.text.take(self@.cursor as int));
        str_width(before)
    }

    /// The horizontal scroll offset, measured in terminal columns, needed to
    /// keep the cursor visible inside a single-line field `width` columns
    /// wide.
    pub fn horizontal_scroll(&self, width: usize) -> (r: usize)
        ensures
            r == self@.scroll(width),
            printable_ascii(self@.text) ==> r == if self@.mode != FieldMode::SingleLine || width
                == 0 || self@.cursor < width {
                0
            } else {
                self@.cursor - width + 1
            },
    {
        if !self.is_single_line() || width == 0 {
            return 0;
        }
        let cursor_column = self.cursor_display_column();
        if cursor_column < width {
            return 0;
        }
        cursor_column - width + 1
    }

    /// The visible part of a single-line field `width` columns wide, and the
    /// cursor's column within it.
    pub fn single_line_view(&self, width: usize) -> (r: (String, usize))
        ensures
            r.0@ == self@.visible(width).0,
            r.1 == self@.visible(width).1,
    {
        proof {
            use_type_invariant(self);
        }
        if width == 0 {
            return (String::new(), 0);
        }
        let scroll = self.horizontal_scroll(width);
        let mut chars = chars_of(self.text.as_str());
        let ghost t = chars@;
        let n = chars.len();
        let mut start: usize = 0;
        let mut start_column: u128 = 0;
        while start < n && start_column < scroll as u128
            invariant
                n == t.len(),
                chars@ == t,
                start <= n,
                start_column == columns_sum(t.take(start as int)),
                start_column <= 3 * start,
                first_visible(t, scroll as int, 0) == first_visible(t, scroll as int, start as int),
            decreases n - start,
        {
            let cw = column_width(chars[start]);
            assert(t.take(start + 1).drop_last() == t.take(start as int));
            start_column = start_column + cw;
            start = start + 1;
        }
        assert(start == first_visible(t, scroll as int, 0));
        let mut end = start;
        let mut visible_width: u128 = 0;
        let mut visible = String::new();
        while end < n && visible_width + column_width(chars[end]) <= width as u128
            invariant
                n == t.len(),
                chars@ == t,
                start <= end <= n,
                visible_width <= width,
                visible@ == t.subrange(start as int, end as int),
                fitting_count(t.skip(start as int), width as int) == (end - start) + fitting_count(
                    t.skip(end as int),
                    width - visible_width,
                ),
            decreases n - end,
        {
            let ch = chars[end];
            let cw = column_width(ch);
            assert(t.skip(end as int)[0] == ch);
            assert(t.skip(end as int).drop_first() == t.skip(end + 1));
            visible.push(ch);
            visible_width = visible_width + cw;
            end = end + 1;
            assert(t.subrange(start as int, end as int) == t.subrange(start as int, end - 1).push(ch));
        }
        proof {
            if end == n {
                assert(t.skip(end as int).len() == 0);
            } else {
                assert(t.skip(end as int)[0] == t[end as int]);
            }
        }
        let cursor_column = self.cursor_display_column() as u128;
        let col = if cursor_column > start_column {
            cursor_column - start_column
        } else {
            0
        };
        let col = if col < width as u128 {
            col as usize
        } else {
            width
        };
        wipe_chars(&mut chars);
        (visible, col)
    }

    fn move_vertical(&mut self, up: bool) -> (moved: bool)
        ensures
            (final(self)@, moved) == old(self)@.moved_vertically(up),
    {
        proof {
            use_type_invariant(&*self);
        }
        let mut chars = chars_of(self.text.as_str());
        let ghost t = chars@;
        let cur = self.cursor;
        let current_start = line_start(&chars, cur);
        let current_end = line_end(&chars, cur);
        proof {
            lemma_line_start_bounds(t, cur as int);
            lemma_line_end_bounds(t, cur as int);
        }
        let current_column = match self.preferred_column {
            Some(p) => p,
            None => cur - current_start,
        };
        let target_start = if up {
            if current_start == 0 {
                wipe_chars(&mut chars);
                return false;
            }
            proof {
                lemma_line_start_bounds(t, current_start - 1);
            }
            line_start(&chars, current_start - 1)
        } else {
            if current_end == chars.len() {
                wipe_chars(&mut chars);
                return false;
            }
            current_end + 1
        };
        proof {
            lemma_line_end_bounds(t, target_start as int);
        }
        let target_end = line_end(&chars, target_start);
        let target_len = target_end - target_start;
        let moved = if current_column < target_len {
            current_column
        } else {
            target_len
        };
        wipe_chars(&mut chars);
        self.cursor = target_start + moved;
        self.preferred_column = Some(current_column);
        true
    }
}


/// The index just after the last newline before `cursor`, or 0.
fn line_start(text: &Vec<char>, cursor: usize) -> (r: usize)
    requires
        cursor <= text@.len(),
    ensures
        r == line_start_of(text@, cursor as int),
        r <= cursor,
{
    let mut i = cursor;
    while i > 0 && text[i - 1] != '\n'
        invariant
            i <= cursor <= text@.len(),
            line_start_of(text@, i as int) == line_start_of(text@, cursor as int),
        decreases i,
    {
        i = i - 1;
    }
    i
}

/// The index of the first newline at or after `cursor`, or the length.
fn line_end(text: &Vec<char>, cursor: usize) -> (r: usize)
    requires
        cursor <= text@.len(),
    ensures
        r == line_end_of(text@, cursor as int),
        cursor <= r <= text@.len(),
{
    let mut i = cursor;
    while i < text.len() && text[i] != '\n'
        invariant
            cursor <= i <= text@.len(),
            line_end_of(text@, i as int) == line_end_of(text@, cursor as int),
        decreases text@.len() - i,
    {
        i = i + 1;
    }
    i
}


impl FieldState {
    /// Whether a remembered column agrees with the cursor: the cursor sits at
    /// that column of its line, or at the end of a shorter line. Vertical
    /// movement leaves the cursor so, and every other change forgets the
    /// column.
    pub open spec fn column_consistent(self) -> bool {
        match self.preferred_column {
            None => true,
            Some(p) => {
                let start = line_start_of(self.text, self.cursor as int);
                let end = line_end_of(self.text, self.cursor as int);
                self.cursor - start == if p < end - start {
                    p as int
                } else {
                    end - start
                }
            },
        }
    }
}

/// Backspace right after typing a character takes it out again: the text
/// and the cursor are as they were.
pub proof fn lemma_backspace_undoes_insert(s: FieldState, ch: char)
    requires
        s.cursor <= s.text.len(),
        !(s.mode == FieldMode::SingleLine && ch == '\n'),
    ensures
        s.inserted(ch).backspaced().text == s.text,
        s.inserted(ch).backspaced().cursor == s.cursor,
{
    assert(s.text.insert(s.cursor as int, ch).remove(s.cursor as int) =~= s.text);
}

/// Moving right and then left comes back to the same place in the same
/// text.
pub proof fn lemma_left_undoes_right(s: FieldState)
    requires
        s.cursor < s.text.len(),
    ensures
        s.moved_right().moved_left() == (FieldState { preferred_column: None, ..s }),
{
}

/// In a single-line field the horizontal scroll keeps the cursor inside the
/// visible columns, and there is no scroll while the cursor fits.
pub proof fn lemma_scroll_shows_cursor(s: FieldState, width: usize)
    requires
        s.mode == FieldMode::SingleLine,
        width > 0,
    ensures
        0 <= s.scroll(width),
        0 <= s.cursor_column() - s.scroll(width) < width,
        s.cursor_column() < width ==> s.scroll(width) == 0,
{
}

/// A single-line field without a line break never gets one, whatever key
/// is pressed.
pub proof fn lemma_single_line_stays_single(s: FieldState, key: KeyEvent)
    requires
        s.mode == FieldMode::SingleLine,
        s.cursor <= s.text.len(),
        !s.text.contains('\n'),
    ensures
        s.after_key(key).0.mode == FieldMode::SingleLine,
        !s.after_key(key).0.text.contains('\n'),
{
    let n = s.after_key(key).0;
    if n.text.contains('\n') {
        let i = choose|i: int| 0 <= i < n.text.len() && n.text[i] == '\n';
        match key.code {
            KeyCode::Char(ch) => {
                if !(ch == 's' && key.modifiers == KeyModifiers::CONTROL) && ch != '\n' {
                    let c = s.cursor as int;
                    if i < c {
                        assert(n.text[i] == s.text[i]);
                    } else if i > c {
                        assert(n.text[i] == s.text[i - 1]);
                    }
                }
                assert(s.text.contains(s.text[i]) || s.text.contains(s.text[i - 1]));
            },
            KeyCode::Backspace => {
                if s.cursor > 0 {
                    let c = s.cursor as int - 1;
                    if i < c {
                        assert(n.text[i] == s.text[i]);
                    } else {
                        assert(n.text[i] == s.text[i + 1]);
                    }
                }
                assert(s.text.contains(s.text[i]) || s.text.contains(s.text[i + 1]));
            },
            KeyCode::Delete => {
                if s.cursor < s.text.len() {
                    let c = s.cursor as int;
                    if i < c {
                        assert(n.text[i] == s.text[i]);
                    } else {
                        assert(n.text[i] == s.text[i + 1]);
                    }
                }
                assert(s.text.contains(s.text[i]) || s.text.contains(s.text[i + 1]));
            },
            _ => {
                assert(s.text.contains(s.text[i]));
            },
        }
    }
}

/// After a vertical move the remembered column agrees with the cursor.
pub proof fn lemma_vertical_move_consistent(s: FieldState, up: bool)
    requires
        s.cursor <= s.text.len(),
        s.text.len() <= usize::MAX,
        s.column_consistent(),
    ensures
        s.moved_vertically(up).0.column_consistent(),
        s.moved_vertically(up).0.cursor <= s.text.len(),
{
    let t = s.text;
    let c = s.cursor as int;
    lemma_line_start_bounds(t, c);
    lemma_line_end_bounds(t, c);
    let start = line_start_of(t, c);
    let end = line_end_of(t, c);
    if s.moved_vertically(up).1 {
        let ts = if up {
            line_start_of(t, start - 1)
        } else {
            end + 1
        };
        if up {
            lemma_line_start_bounds(t, start - 1);
            lemma_line_end_is(t, ts, start - 1);
        }
        lemma_line_start_bounds(t, ts);
        lemma_line_end_bounds(t, ts);
        let te = line_end_of(t, ts);
        let col = s.goal_column();
        let moved = if col < te - ts {
            col
        } else {
            te - ts
        };
        let c2 = ts + moved;
        assert(0 <= col <= usize::MAX);
        lemma_line_start_is(t, c2, ts);
        lemma_line_end_is(t, c2, te);
    }
}

/// Moving down a line and back up returns the cursor to where it was, as
/// long as the remembered column agrees with it.
pub proof fn lemma_down_then_up_returns(s: FieldState)
    requires
        s.cursor <= s.text.len(),
        s.text.len() <= usize::MAX,
        s.column_consistent(),
        s.moved_vertically(false).1,
    ensures
        s.moved_vertically(false).0.moved_vertically(true).1,
        s.moved_vertically(false).0.moved_vertically(true).0.cursor == s.cursor,
{
    let t = s.text;
    let c = s.cursor as int;
    lemma_line_start_bounds(t, c);
    lemma_line_end_bounds(t, c);
    let start = line_start_of(t, c);
    let end = line_end_of(t, c);
    let ts = end + 1;
    lemma_line_end_bounds(t, ts);
    let te = line_end_of(t, ts);
    let col = s.goal_column();
    let moved = if col < te - ts {
        col
    } else {
        te - ts
    };
    let c2 = ts + moved;
    assert(0 <= col <= usize::MAX);
    lemma_line_start_is(t, c2, ts);
    lemma_line_end_is(t, c2, te);
    lemma_line_start_is(t, end, start);
    lemma_line_end_is(t, start, end);
}

/// Moving up a line and back down returns the cursor to where it was, as
/// long as the remembered column agrees with it.
pub proof fn lemma_up_then_down_returns(s: FieldState)
    requires
        s.cursor <= s.text.len(),
        s.text.len() <= usize::MAX,
        s.column_consistent(),
        s.moved_vertically(true).1,
    ensures
        s.moved_vertically(true).0.moved_vertically(false).1,
        s.moved_vertically(true).0.moved_vertically(false).0.cursor == s.cursor,
{
    let t = s.text;
    let c = s.cursor as int;
    lemma_line_start_bounds(t, c);
    lemma_line_end_bounds(t, c);
    let start = line_start_of(t, c);
    let end = line_end_of(t, c);
    lemma_line_start_bounds(t, start - 1);
    let ts = line_start_of(t, start - 1);
    lemma_line_end_is(t, ts, start - 1);
    let te = start - 1;
    let col = s.goal_column();
    let moved = if col < te - ts {
        col
    } else {
        te - ts
    };
    let c2 = ts + moved;
    assert(0 <= col <= usize::MAX);
    lemma_line_start_is(t, c2, ts);
    lemma_line_end_is(t, c2, te);
    lemma_line_end_is(t, start, end);
}

/// Empties an optional editor, wiping the text it held.
pub fn close_editor(slot: &mut Option<FieldEditor>)
    ensures
        *final(slot) is None,
{
    if let Some(editor) = slot.take() {
        editor.discard();
    }
}

/// The byte length of the first `c` characters of a text is a character
/// boundary of the text's UTF-8 encoding.
pub proof fn lemma_prefix_is_char_boundary(t: Seq<char>, c: int)
    requires
        0 <= c <= t.len(),
    ensures
        valid_utf8(encode_utf8(t)),
        is_char_boundary(encode_utf8(t), encode_utf8(t.take(c)).len() as int),
    decreases c,
{
    encode_utf8_valid_utf8(t);
    if c > 0 {
        let bytes = encode_utf8(t);
        encode_utf8_first_scalar(t);
        assert(pop_first_scalar(bytes) =~= encode_utf8(t.drop_first()));
        lemma_prefix_is_char_boundary(t.drop_first(), c - 1);
        assert(t.take(c).drop_first() =~= t.drop_first().take(c - 1));
        assert(t.take(c)[0] == t[0]);
        assert(encode_utf8(t.take(c)).len() == encode_scalar(t[0] as u32).len() + encode_utf8(
            t.drop_first().take(c - 1),
        ).len());
    }
}

/// The state after the keys `keys`, pressed one after the other.
pub open spec fn after_keys(s: FieldState, keys: Seq<KeyEvent>) -> FieldState
    decreases keys.len(),
{
    if keys.len() == 0 {
        s
    } else {
        after_keys(s, keys.drop_last()).after_key(keys.last()).0
    }
}

/// No key changes a field's mode, and every key leaves the cursor within
/// the text.
pub proof fn lemma_key_keeps_shape(s: FieldState, key: KeyEvent)
    requires
        s.cursor <= s.text.len(),
    ensures
        s.after_key(key).0.mode == s.mode,
        s.after_key(key).0.cursor <= s.after_key(key).0.text.len(),
{
    let t = s.text;
    let c = s.cursor as int;
    lemma_line_start_bounds(t, c);
    lemma_line_end_bounds(t, c);
    if s.mode == FieldMode::Multiline {
        if s.column_consistent() && t.len() <= usize::MAX {
            lemma_vertical_move_consistent(s, true);
            lemma_vertical_move_consistent(s, false);
        }
        vertical_move_in_text(s, true);
        vertical_move_in_text(s, false);
    }
}

proof fn vertical_move_in_text(s: FieldState, up: bool)
    requires
        s.cursor <= s.text.len(),
    ensures
        s.moved_vertically(up).0.cursor <= s.text.len(),
        s.moved_vertically(up).0.text == s.text,
        s.moved_vertically(up).0.mode == s.mode,
{
    let t = s.text;
    let c = s.cursor as int;
    lemma_line_start_bounds(t, c);
    lemma_line_end_bounds(t, c);
    let start = line_start_of(t, c);
    let end = line_end_of(t, c);
    if s.moved_vertically(up).1 {
        let ts = if up {
            line_start_of(t, start - 1)
        } else {
            end + 1
        };
        if up {
            lemma_line_start_bounds(t, start - 1);
        }
        lemma_line_end_bounds(t, ts);
    }
}

/// Whatever keys are pressed, one after the other, a field keeps its mode
/// and its cursor stays within its text, on a character boundary of the
/// text's UTF-8 encoding.
pub proof fn lemma_keys_keep_shape(s: FieldState, keys: Seq<KeyEvent>)
    requires
        s.cursor <= s.text.len(),
    ensures
        after_keys(s, keys).mode == s.mode,
        after_keys(s, keys).cursor <= after_keys(s, keys).text.len(),
        is_char_boundary(
            encode_utf8(after_keys(s, keys).text),
            encode_utf8(after_keys(s, keys).text.take(after_keys(s, keys).cursor as int)).len()
                as int,
        ),
    decreases keys.len(),
{
    if keys.len() > 0 {
        lemma_keys_keep_shape(s, keys.drop_last());
        lemma_key_keeps_shape(after_keys(s, keys.drop_last()), keys.last());
    }
    let r = after_keys(s, keys);
    lemma_prefix_is_char_boundary(r.text, r.cursor as int);
}

/// A run of vertical moves, up where `moves` holds `true` and down where it
/// holds `false`.
pub open spec fn vertical_run(s: FieldState, moves: Seq<bool>) -> FieldState
    decreases moves.len(),
{
    if moves.len() == 0 {
        s
    } else {
        vertical_run(s, moves.drop_last()).moved_vertically(moves.last()).0
    }
}

/// Along a run of vertical moves the column aimed for stays the one the
/// run started with, and after every move that reaches another line the
/// cursor sits at that column of the line, or at the end of a shorter one;
/// a move that finds no line leaves the field as it was.
pub proof fn lemma_vertical_run_keeps_column(s: FieldState, moves: Seq<bool>)
    requires
        s.cursor <= s.text.len(),
        s.text.len() <= usize::MAX,
        s.column_consistent(),
    ensures
        vertical_run(s, moves).text == s.text,
        vertical_run(s, moves).mode == s.mode,
        vertical_run(s, moves).cursor <= s.text.len(),
        vertical_run(s, moves).column_consistent(),
        vertical_run(s, moves).goal_column() == s.goal_column(),
        moves.len() > 0 && vertical_run(s, moves.drop_last()).moved_vertically(moves.last()).1
            ==> vertical_run(s, moves).preferred_column == Some(s.goal_column() as usize),
        moves.len() > 0 && !vertical_run(s, moves.drop_last()).moved_vertically(moves.last()).1
            ==> vertical_run(s, moves) == vertical_run(s, moves.drop_last()),
    decreases moves.len(),
{
    let t = s.text;
    let c = s.cursor as int;
    lemma_line_start_bounds(t, c);
    lemma_line_end_bounds(t, c);
    if moves.len() > 0 {
        let prev = vertical_run(s, moves.drop_last());
        lemma_vertical_run_keeps_column(s, moves.drop_last());
        lemma_vertical_move_consistent(prev, moves.last());
        vertical_move_in_text(prev, moves.last());
        let pc = prev.cursor as int;
        lemma_line_start_bounds(t, pc);
        assert(0 <= prev.goal_column() <= usize::MAX);
    }
}

/// The UTF-8 encoding of two texts one after the other is the encoding of
/// the first followed by that of the second.
pub proof fn lemma_encode_concat(a: Seq<char>, b: Seq<char>)
    ensures
        encode_utf8(a + b) == encode_utf8(a) + encode_utf8(b),
    decreases a.len(),
{
    if a.len() == 0 {
        assert(a + b =~= b);
        assert(encode_utf8(a) =~= Seq::<u8>::empty());
        assert(encode_utf8(a) + encode_utf8(b) =~= encode_utf8(b));
    } else {
        assert((a + b).drop_first() =~= a.drop_first() + b);
        assert((a + b)[0] == a[0]);
        lemma_encode_concat(a.drop_first(), b);
        assert(encode_utf8(a + b) =~= encode_utf8(a) + encode_utf8(b));
    }
}

/// The same run of vertical moves counted in bytes: after a move that
/// reaches another line, the cursor's byte offset is the byte offset of
/// that line's start plus the bytes of the line's first characters, as
/// many as the column the run started with, or all of them when the line
/// is shorter.
pub proof fn lemma_vertical_run_cursor_bytes(s: FieldState, moves: Seq<bool>)
    requires
        s.cursor <= s.text.len(),
        s.text.len() <= usize::MAX,
        s.column_consistent(),
        moves.len() > 0,
        vertical_run(s, moves.drop_last()).moved_vertically(moves.last()).1,
    ensures
        ({
            let r = vertical_run(s, moves);
            let t = s.text;
            let start = line_start_of(t, r.cursor as int);
            let len = line_end_of(t, r.cursor as int) - start;
            let k = if s.goal_column() < len {
                s.goal_column()
            } else {
                len
            };
            encode_utf8(t.take(r.cursor as int)).len() == encode_utf8(t.take(start)).len()
                + encode_utf8(t.subrange(start, start + k)).len()
        }),
{
    lemma_vertical_run_keeps_column(s, moves);
    let r = vertical_run(s, moves);
    let t = s.text;
    let c = r.cursor as int;
    lemma_line_start_bounds(t, c);
    lemma_line_end_bounds(t, c);
    lemma_line_start_bounds(t, s.cursor as int);
    let start = line_start_of(t, c);
    assert(0 <= s.goal_column() <= usize::MAX);
    assert(t.take(c) =~= t.take(start) + t.subrange(start, c));
    lemma_encode_concat(t.take(start), t.subrange(start, c));
}

} // verus!
