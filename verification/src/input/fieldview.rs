//! Read-only display of a field's text, and word wrapping of notes.

use vstd::prelude::*;

use crate::text::{is_whitespace, push_range, string_of, white_space, wipe, wipe_chars};
use crate::width::{column_width, columns_of, str_display_width, str_width};

verus! {

/// A piece of text shown on screen but not edited.
pub struct FieldView {
    text: String,
}

impl View for FieldView {
    type V = Seq<char>;

    closed spec fn view(&self) -> Seq<char> {
        self.text@
    }
}

impl FieldView {
    pub fn new(text: String) -> (v: FieldView)
        ensures
            v@ == text@,
    {
        FieldView { text }
    }

    pub fn as_str(&self) -> (r: &str)
        ensures
            r@ == self@,
    {
        self.text.as_str()
    }

    pub fn is_empty(&self) -> (r: bool)
        ensures
            r == (self@.len() == 0),
    {
        self.text.as_str().is_empty()
    }

    /// The text wrapped to `width` columns, as `wrap_text` does it.
    pub fn wrap(&self, width: usize) -> (r: Vec<String>)
        ensures
            strings(r@) == wrapped(self@, width),
    {
        wrap_text(self.text.as_str(), width)
    }
}

/// The characters of each string.
pub open spec fn strings(v: Seq<String>) -> Seq<Seq<char>> {
    v.map_values(|s: String| s@)
}

/// The characters of each vector.
pub open spec fn rows(v: Seq<Vec<char>>) -> Seq<Seq<char>> {
    v.map_values(|r: Vec<char>| r@)
}

/// Whether `c` separates pieces: white space when splitting a line into
/// words, a line feed when splitting text into lines.
pub open spec fn is_separator(c: char, by_white_space: bool) -> bool {
    if by_white_space {
        white_space(c)
    } else {
        c == '\n'
    }
}

/// `s` cut at every separator, as `str::split` cuts it: the pieces between
/// separators, empty ones included, so there is one more piece than there
/// are separators.
pub open spec fn split_on(s: Seq<char>, by_white_space: bool) -> Seq<Seq<char>>
    decreases s.len(),
{
    if s.len() == 0 {
        seq![Seq::empty()]
    } else {
        let pieces = split_on(s.drop_last(), by_white_space);
        if is_separator(s.last(), by_white_space) {
            pieces.push(Seq::empty())
        } else {
            pieces.update(pieces.len() - 1, pieces.last().push(s.last()))
        }
    }
}

/// The lines of a text.
pub open spec fn lines_of(s: Seq<char>) -> Seq<Seq<char>> {
    split_on(s, false)
}

/// The words of a line, as `str::split_whitespace` finds them: the non-empty
/// runs of characters that are not white space.
pub open spec fn words_of(line: Seq<char>) -> Seq<Seq<char>> {
    split_on(line, true).filter(non_empty())
}

/// Holds of the non-empty pieces.
pub open spec fn non_empty() -> spec_fn(Seq<char>) -> bool {
    |w: Seq<char>| w.len() > 0
}

proof fn lemma_filter_step(s: Seq<Seq<char>>, j: int)
    requires
        0 <= j < s.len(),
    ensures
        s.take(j + 1).filter(non_empty()) == if s[j].len() > 0 {
            s.take(j).filter(non_empty()).push(s[j])
        } else {
            s.take(j).filter(non_empty())
        },
{
    reveal(Seq::filter);
    assert(s.take(j + 1).drop_last() == s.take(j));
    assert(s.take(j + 1).last() == s[j]);
}

/// Adds one character of an over-long word to a layout of finished rows and
/// the row being filled: the row is closed first when it is not empty and
/// the character would take it past `width` columns.
pub open spec fn with_char(st: (Seq<Seq<char>>, Seq<char>), ch: char, width: int) -> (
    Seq<Seq<char>>,
    Seq<char>,
) {
    if st.1.len() > 0 && str_display_width(st.1) + columns_of(ch) > width {
        (st.0.push(st.1), seq![ch])
    } else {
        (st.0, st.1.push(ch))
    }
}

/// Adds the characters of `word` one by one.
pub open spec fn with_chars(st: (Seq<Seq<char>>, Seq<char>), word: Seq<char>, width: int) -> (
    Seq<Seq<char>>,
    Seq<char>,
)
    decreases word.len(),
{
    if word.len() == 0 {
        st
    } else {
        with_char(with_chars(st, word.drop_last(), width), word.last(), width)
    }
}

/// Adds a word: it joins the current row, after a space when the row is not
/// empty, if the row then fits in `width` columns; otherwise the row is
/// closed and the word is laid out character by character, so that a word
/// longer than a row is broken rather than clipped.
pub open spec fn with_word(st: (Seq<Seq<char>>, Seq<char>), word: Seq<char>, width: int) -> (
    Seq<Seq<char>>,
    Seq<char>,
) {
    let sep: int = if st.1.len() > 0 {
        1
    } else {
        0
    };
    if str_display_width(st.1) + sep + str_display_width(word) <= width {
        (st.0, if st.1.len() > 0 {
            st.1.push(' ') + word
        } else {
            word
        })
    } else {
        let closed = if st.1.len() > 0 {
            (st.0.push(st.1), Seq::<char>::empty())
        } else {
            st
        };
        with_chars(closed, word, width)
    }
}

/// Adds the words one by one.
pub open spec fn with_words(st: (Seq<Seq<char>>, Seq<char>), words: Seq<Seq<char>>, width: int) -> (
    Seq<Seq<char>>,
    Seq<char>,
)
    decreases words.len(),
{
    if words.len() == 0 {
        st
    } else {
        with_word(with_words(st, words.drop_last(), width), words.last(), width)
    }
}

/// The rows of one line: its words laid out from an empty row, and the
/// last row closed. A line without words gives one empty row, so blank
/// lines are kept.
pub open spec fn wrap_line(line: Seq<char>, width: int) -> Seq<Seq<char>> {
    let st = with_words((Seq::empty(), Seq::empty()), words_of(line), width);
    st.0.push(st.1)
}

/// The rows of the lines, one line after the other.
pub open spec fn wrap_lines(lines: Seq<Seq<char>>, width: int) -> Seq<Seq<char>>
    decreases lines.len(),
{
    if lines.len() == 0 {
        Seq::empty()
    } else {
        wrap_lines(lines.drop_last(), width) + wrap_line(lines.last(), width)
    }
}

/// `text` wrapped to `width` columns (at least one).
pub open spec fn wrapped(text: Seq<char>, width: usize) -> Seq<Seq<char>> {
    wrap_lines(
        lines_of(text),
        if width == 0 {
            1
        } else {
            width as int
        },
    )
}

fn separates(c: char, by_white_space: bool) -> (r: bool)
    ensures
        r == is_separator(c, by_white_space),
{
    if by_white_space {
        is_whitespace(c)
    } else {
        c == '\n'
    }
}

/// Cuts `v` at every separator.
fn split_chars(v: &Vec<char>, by_white_space: bool) -> (r: Vec<Vec<char>>)
    ensures
        rows(r@) == split_on(v@, by_white_space),
{
    let mut out: Vec<Vec<char>> = Vec::new();
    let mut cur: Vec<char> = Vec::new();
    let n = v.len();
    let mut i: usize = 0;
    while i < n
        invariant
            n == v@.len(),
            i <= n,
            rows(out@).push(cur@) == split_on(v@.take(i as int), by_white_space),
        decreases n - i,
    {
        let c = v[i];
        let ghost before = split_on(v@.take(i as int), by_white_space);
        assert(v@.take(i + 1).drop_last() == v@.take(i as int));
        assert(v@.take(i + 1).last() == c);
        if separates(c, by_white_space) {
            let mut finished: Vec<char> = Vec::new();
            std::mem::swap(&mut cur, &mut finished);
            let ghost old_out = out@;
            out.push(finished);
            assert(rows(out@) == rows(old_out).push(finished@));
        } else {
            cur.push(c);
            assert(rows(out@).push(cur@) == before.update(before.len() - 1, before.last().push(c)));
        }
        i = i + 1;
    }
    assert(v@.take(n as int) == v@);
    let ghost old_out = out@;
    out.push(cur);
    assert(rows(out@) == rows(old_out).push(cur@));
    out
}

/// Closes the current row: it joins the finished ones and an empty row
/// takes its place.
fn close_row(done: &mut Vec<String>, current: &mut String)
    ensures
        strings(final(done)@) == strings(old(done)@).push(old(current)@),
        final(current)@ == Seq::<char>::empty(),
{
    let mut finished = String::new();
    std::mem::swap(current, &mut finished);
    let ghost before = done@;
    done.push(finished);
    assert(strings(done@) == strings(before).push(finished@));
}

fn place_char(done: &mut Vec<String>, current: &mut String, ch: char, width: usize)
    ensures
        (strings(final(done)@), final(current)@) == with_char(
            (strings(old(done)@), old(current)@),
            ch,
            width as int,
        ),
{
    let cw = column_width(ch);
    if !current.as_str().is_empty() && (str_width(current.as_str()) as u128) + cw > width as u128 {
        close_row(done, current);
    }
    current.push(ch);
}

fn place_word(done: &mut Vec<String>, current: &mut String, word: &Vec<char>, width: usize)
    ensures
        (strings(final(done)@), final(current)@) == with_word(
            (strings(old(done)@), old(current)@),
            word@,
            width as int,
        ),
{
    let mut word_text = string_of(word);
    let sep: u128 = if current.as_str().is_empty() {
        0
    } else {
        1
    };
    let row_width = str_width(current.as_str()) as u128;
    let word_width = str_width(word_text.as_str()) as u128;
    wipe(&mut word_text);
    if row_width + sep + word_width <= width as u128 {
        if !current.as_str().is_empty() {
            current.push(' ');
        }
        push_range(current, word, 0, word.len());
        assert(word@.subrange(0, word@.len() as int) == word@);
        return;
    }
    if !current.as_str().is_empty() {
        close_row(done, current);
    }
    let ghost start = (strings(done@), current@);
    let mut k: usize = 0;
    while k < word.len()
        invariant
            k <= word@.len(),
            (strings(done@), current@) == with_chars(start, word@.take(k as int), width as int),
        decreases word@.len() - k,
    {
        assert(word@.take(k + 1).drop_last() == word@.take(k as int));
        assert(word@.take(k + 1).last() == word@[k as int]);
        place_char(done, current, word[k], width);
        k = k + 1;
    }
    assert(word@.take(word@.len() as int) == word@);
}

/// The rows of one line.
fn wrap_line_exec(line: &Vec<char>, width: usize) -> (r: Vec<String>)
    ensures
        strings(r@) == wrap_line(line@, width as int),
{
    let pieces = split_chars(line, true);
    let ghost ps = rows(pieces@);
    let mut done: Vec<String> = Vec::new();
    let mut current = String::new();
    let n = pieces.len();
    let mut j: usize = 0;
    while j < n
        invariant
            n == pieces@.len(),
            ps == rows(pieces@),
            j <= n,
            (strings(done@), current@) == with_words(
                (Seq::empty(), Seq::empty()),
                ps.take(j as int).filter(non_empty()),
                width as int,
            ),
        decreases n - j,
    {
        let ghost prev_words = ps.take(j as int).filter(non_empty());
        let ghost piece = pieces@[j as int]@;
        proof {
            lemma_filter_step(ps, j as int);
            if piece.len() > 0 {
                assert(prev_words.push(piece).drop_last() == prev_words);
            }
        }
        if pieces[j].len() > 0 {
            place_word(&mut done, &mut current, &pieces[j], width);
        }
        j = j + 1;
    }
    assert(ps.take(n as int) == ps);
    close_row(&mut done, &mut current);
    wipe_rows(pieces);
    done
}

/// Wraps `text` to `width` columns (at least one): every line of the text
/// is broken into rows at word boundaries, words longer than a row are
/// broken between characters, and blank lines are kept as empty rows.
pub fn wrap_text(text: &str, width: usize) -> (r: Vec<String>)
    ensures
        strings(r@) == wrapped(text@, width),
{
    let width = if width == 0 {
        1
    } else {
        width
    };
    let chars = crate::text::chars_of(text);
    let lines = split_chars(&chars, false);
    let ghost ls = rows(lines@);
    let mut out: Vec<String> = Vec::new();
    let n = lines.len();
    let mut i: usize = 0;
    while i < n
        invariant
            n == lines@.len(),
            ls == rows(lines@),
            i <= n,
            strings(out@) == wrap_lines(ls.take(i as int), width as int),
        decreases n - i,
    {
        let mut rows_of_line = wrap_line_exec(&lines[i], width);
        assert(ls.take(i + 1).drop_last() == ls.take(i as int));
        assert(ls.take(i + 1).last() == lines@[i as int]@);
        let ghost before = out@;
        out.append(&mut rows_of_line);
        assert(strings(out@) == strings(before) + wrap_line(ls[i as int], width as int));
        i = i + 1;
    }
    let mut chars = chars;
    wipe_chars(&mut chars);
    wipe_rows(lines);
    assert(ls.take(n as int) == ls);
    out
}

/// Wipes every row of `rows`.
fn wipe_rows(rows: Vec<Vec<char>>) {
    let mut rows = rows;
    let n = rows.len();
    let mut i: usize = 0;
    while i < n
        invariant
            n == rows@.len(),
            i <= n,
        decreases n - i,
    {
        let mut row = Vec::new();
        std::mem::swap(&mut row, &mut rows[i]);
        wipe_chars(&mut row);
        i = i + 1;
    }
}

/// The characters of `s` that are not white space.
pub open spec fn visible_chars(s: Seq<char>) -> Seq<char> {
    s.filter(|c: char| !white_space(c))
}

/// The characters of the rows that are not white space, row after row.
pub open spec fn rows_visible(rows: Seq<Seq<char>>) -> Seq<char>
    decreases rows.len(),
{
    if rows.len() == 0 {
        Seq::empty()
    } else {
        rows_visible(rows.drop_last()) + visible_chars(rows.last())
    }
}

proof fn lemma_visible_push(s: Seq<char>, c: char)
    ensures
        visible_chars(s.push(c)) == if white_space(c) {
            visible_chars(s)
        } else {
            visible_chars(s).push(c)
        },
{
    reveal(Seq::filter);
    assert(s.push(c).drop_last() =~= s);
}

proof fn lemma_visible_concat(a: Seq<char>, b: Seq<char>)
    ensures
        visible_chars(a + b) == visible_chars(a) + visible_chars(b),
    decreases b.len(),
{
    if b.len() == 0 {
        assert(a + b =~= a);
        assert(visible_chars(b) =~= Seq::<char>::empty()) by {
            reveal(Seq::filter);
        }
        assert(visible_chars(a) + visible_chars(b) =~= visible_chars(a));
    } else {
        let c = b.last();
        lemma_visible_concat(a, b.drop_last());
        assert(a + b =~= (a + b.drop_last()).push(c));
        assert(b =~= b.drop_last().push(c));
        lemma_visible_push(a + b.drop_last(), c);
        lemma_visible_push(b.drop_last(), c);
        if !white_space(c) {
            assert(visible_chars(a) + visible_chars(b.drop_last()).push(c) =~= (visible_chars(a)
                + visible_chars(b.drop_last())).push(c));
        }
    }
}

proof fn lemma_rows_visible_push(rows: Seq<Seq<char>>, row: Seq<char>)
    ensures
        rows_visible(rows.push(row)) == rows_visible(rows) + visible_chars(row),
{
    assert(rows.push(row).drop_last() =~= rows);
}

proof fn lemma_rows_visible_concat(a: Seq<Seq<char>>, b: Seq<Seq<char>>)
    ensures
        rows_visible(a + b) == rows_visible(a) + rows_visible(b),
    decreases b.len(),
{
    if b.len() == 0 {
        assert(a + b =~= a);
        assert(rows_visible(a) + rows_visible(b) =~= rows_visible(a));
    } else {
        lemma_rows_visible_concat(a, b.drop_last());
        assert(a + b =~= (a + b.drop_last()).push(b.last()));
        assert(b =~= b.drop_last().push(b.last()));
        lemma_rows_visible_push(a + b.drop_last(), b.last());
        lemma_rows_visible_push(b.drop_last(), b.last());
        assert(rows_visible(a) + (rows_visible(b.drop_last()) + visible_chars(b.last())) =~= (
        rows_visible(a) + rows_visible(b.drop_last())) + visible_chars(b.last()));
    }
}

proof fn lemma_split_visible(s: Seq<char>, by_white_space: bool)
    ensures
        split_on(s, by_white_space).len() >= 1,
        rows_visible(split_on(s, by_white_space)) == visible_chars(s),
    decreases s.len(),
{
    if s.len() == 0 {
        let pieces = split_on(s, by_white_space);
        assert(pieces =~= Seq::<Seq<char>>::empty().push(Seq::<char>::empty()));
        lemma_rows_visible_push(Seq::empty(), Seq::empty());
        reveal(Seq::filter);
        assert(visible_chars(Seq::<char>::empty()) =~= Seq::<char>::empty());
        assert(rows_visible(pieces) =~= Seq::<char>::empty());
        assert(visible_chars(s) =~= Seq::<char>::empty());
    } else {
        let c = s.last();
        let rest = s.drop_last();
        let pieces = split_on(rest, by_white_space);
        lemma_split_visible(rest, by_white_space);
        assert(s =~= rest.push(c));
        lemma_visible_push(rest, c);
        assert(white_space('\n'));
        if is_separator(c, by_white_space) {
            lemma_rows_visible_push(pieces, Seq::empty());
            assert(visible_chars(Seq::<char>::empty()) =~= Seq::<char>::empty()) by {
                reveal(Seq::filter);
            }
            assert(rows_visible(pieces) + Seq::<char>::empty() =~= rows_visible(pieces));
        } else {
            let n = pieces.len();
            let updated = pieces.update(n - 1, pieces.last().push(c));
            assert(pieces =~= pieces.drop_last().push(pieces.last()));
            assert(updated =~= pieces.drop_last().push(pieces.last().push(c)));
            lemma_rows_visible_push(pieces.drop_last(), pieces.last());
            lemma_rows_visible_push(pieces.drop_last(), pieces.last().push(c));
            lemma_visible_push(pieces.last(), c);
            if !white_space(c) {
                assert(rows_visible(pieces.drop_last()) + visible_chars(pieces.last()).push(c) =~= (
                rows_visible(pieces.drop_last()) + visible_chars(pieces.last())).push(c));
            }
        }
    }
}

proof fn lemma_filter_keeps_visible(s: Seq<Seq<char>>)
    ensures
        rows_visible(s.filter(non_empty())) == rows_visible(s),
    decreases s.len(),
{
    reveal(Seq::filter);
    if s.len() > 0 {
        let last = s.last();
        lemma_filter_keeps_visible(s.drop_last());
        lemma_rows_visible_push(s.drop_last().filter(non_empty()), last);
        assert(s =~= s.drop_last().push(last));
        lemma_rows_visible_push(s.drop_last(), last);
        if last.len() == 0 {
            assert(visible_chars(last) =~= Seq::<char>::empty());
            assert(rows_visible(s.drop_last()) + visible_chars(last) =~= rows_visible(
                s.drop_last(),
            ));
        }
    }
}

/// The characters of a layout that are not white space: those of the
/// finished rows, then those of the row being filled.
pub open spec fn layout_visible(st: (Seq<Seq<char>>, Seq<char>)) -> Seq<char> {
    rows_visible(st.0) + visible_chars(st.1)
}

proof fn lemma_with_char_visible(st: (Seq<Seq<char>>, Seq<char>), ch: char, width: int)
    ensures
        layout_visible(with_char(st, ch, width)) == layout_visible(st) + visible_chars(seq![ch]),
{
    lemma_visible_concat(st.1, seq![ch]);
    assert(st.1.push(ch) =~= st.1 + seq![ch]);
    lemma_rows_visible_push(st.0, st.1);
    assert(rows_visible(st.0) + visible_chars(st.1) + visible_chars(seq![ch]) =~= rows_visible(st.0)
        + (visible_chars(st.1) + visible_chars(seq![ch])));
}

proof fn lemma_with_chars_visible(st: (Seq<Seq<char>>, Seq<char>), word: Seq<char>, width: int)
    ensures
        layout_visible(with_chars(st, word, width)) == layout_visible(st) + visible_chars(word),
    decreases word.len(),
{
    if word.len() == 0 {
        reveal(Seq::filter);
        assert(visible_chars(word) =~= Seq::<char>::empty());
        assert(layout_visible(st) + visible_chars(word) =~= layout_visible(st));
    } else {
        let rest = word.drop_last();
        lemma_with_chars_visible(st, rest, width);
        lemma_with_char_visible(with_chars(st, rest, width), word.last(), width);
        assert(word =~= rest + seq![word.last()]);
        lemma_visible_concat(rest, seq![word.last()]);
        assert(layout_visible(st) + visible_chars(rest) + visible_chars(seq![word.last()])
            =~= layout_visible(st) + (visible_chars(rest) + visible_chars(seq![word.last()])));
    }
}

proof fn lemma_with_word_visible(st: (Seq<Seq<char>>, Seq<char>), word: Seq<char>, width: int)
    ensures
        layout_visible(with_word(st, word, width)) == layout_visible(st) + visible_chars(word),
{
    let sep: int = if st.1.len() > 0 {
        1
    } else {
        0
    };
    if str_display_width(st.1) + sep + str_display_width(word) <= width {
        if st.1.len() > 0 {
            lemma_visible_concat(st.1.push(' '), word);
            lemma_visible_push(st.1, ' ');
        } else {
            reveal(Seq::filter);
            assert(visible_chars(st.1) =~= Seq::<char>::empty());
        }
        assert(rows_visible(st.0) + visible_chars(st.1) + visible_chars(word) =~= rows_visible(st.0)
            + (visible_chars(st.1) + visible_chars(word)));
    } else {
        if st.1.len() > 0 {
            lemma_rows_visible_push(st.0, st.1);
            reveal(Seq::filter);
            assert(visible_chars(Seq::<char>::empty()) =~= Seq::<char>::empty());
            assert(rows_visible(st.0) + visible_chars(st.1) + Seq::<char>::empty() =~= rows_visible(
                st.0,
            ) + visible_chars(st.1));
        }
        let closed = if st.1.len() > 0 {
            (st.0.push(st.1), Seq::<char>::empty())
        } else {
            st
        };
        assert(layout_visible(closed) == layout_visible(st));
        lemma_with_chars_visible(closed, word, width);
    }
}

proof fn lemma_with_words_visible(
    st: (Seq<Seq<char>>, Seq<char>),
    words: Seq<Seq<char>>,
    width: int,
)
    ensures
        layout_visible(with_words(st, words, width)) == layout_visible(st) + rows_visible(words),
    decreases words.len(),
{
    if words.len() == 0 {
        assert(layout_visible(st) + rows_visible(words) =~= layout_visible(st));
    } else {
        let rest = words.drop_last();
        lemma_with_words_visible(st, rest, width);
        lemma_with_word_visible(with_words(st, rest, width), words.last(), width);
        assert(layout_visible(st) + rows_visible(rest) + visible_chars(words.last()) =~= layout_visible(
            st,
        ) + (rows_visible(rest) + visible_chars(words.last())));
    }
}

proof fn lemma_wrap_line_visible(line: Seq<char>, width: int)
    ensures
        wrap_line(line, width).len() >= 1,
        rows_visible(wrap_line(line, width)) == visible_chars(line),
{
    let empty = (Seq::<Seq<char>>::empty(), Seq::<char>::empty());
    let st = with_words(empty, words_of(line), width);
    lemma_with_words_visible(empty, words_of(line), width);
    lemma_filter_keeps_visible(split_on(line, true));
    lemma_split_visible(line, true);
    lemma_rows_visible_push(st.0, st.1);
    reveal(Seq::filter);
    assert(visible_chars(Seq::<char>::empty()) =~= Seq::<char>::empty());
    assert(layout_visible(empty) + rows_visible(words_of(line)) =~= rows_visible(words_of(line)));
}

proof fn lemma_wrap_lines_visible(lines: Seq<Seq<char>>, width: int)
    ensures
        wrap_lines(lines, width).len() >= lines.len(),
        rows_visible(wrap_lines(lines, width)) == rows_visible(lines),
    decreases lines.len(),
{
    if lines.len() > 0 {
        let rest = lines.drop_last();
        lemma_wrap_lines_visible(rest, width);
        lemma_wrap_line_visible(lines.last(), width);
        lemma_rows_visible_concat(wrap_lines(rest, width), wrap_line(lines.last(), width));
    }
}

/// Wrapping breaks rows only: every line of the text gives at least one
/// row, so blank lines are kept, and the rows hold the text's characters
/// that are not white space, all of them and in their order, and no other
/// such character; a word longer than a row is broken, not cut off.
pub proof fn lemma_wrap_keeps_visible_text(text: Seq<char>, width: usize)
    ensures
        wrapped(text, width).len() >= lines_of(text).len(),
        rows_visible(wrapped(text, width)) == visible_chars(text),
{
    let w: int = if width == 0 {
        1
    } else {
        width as int
    };
    lemma_wrap_lines_visible(lines_of(text), w);
    lemma_split_visible(text, false);
}

/// Whether `v` stands somewhere in `t`, character for character.
pub open spec fn occurs_in(v: Seq<char>, t: Seq<char>) -> bool {
    exists|i: int| 0 <= i && i + v.len() <= t.len() && #[trigger] t.subrange(i, i + v.len()) == v
}

/// Whether `v` holds no white space.
pub open spec fn no_white_space(v: Seq<char>) -> bool {
    forall|k: int| 0 <= k < v.len() ==> !white_space(#[trigger] v[k])
}

/// Whether every run of a row without white space stands in `t` as it is:
/// the row holds whole words of `t`, or pieces of them, kept apart by
/// white space, and never characters of two words run together.
pub open spec fn pieces_from(row: Seq<char>, t: Seq<char>) -> bool {
    forall|i: int, j: int|
        0 <= i <= j <= row.len() && no_white_space(#[trigger] row.subrange(i, j)) ==> occurs_in(
            row.subrange(i, j),
            t,
        )
}

/// Whether every row is made of pieces of `t`.
pub open spec fn rows_from(rows: Seq<Seq<char>>, t: Seq<char>) -> bool {
    forall|k: int| 0 <= k < rows.len() ==> pieces_from(#[trigger] rows[k], t)
}

/// Whether every piece stands in `t`.
pub open spec fn all_occur(ps: Seq<Seq<char>>, t: Seq<char>) -> bool {
    forall|k: int| 0 <= k < ps.len() ==> occurs_in(#[trigger] ps[k], t)
}

proof fn lemma_occurs_at(v: Seq<char>, t: Seq<char>, i: int)
    requires
        0 <= i,
        i + v.len() <= t.len(),
        t.subrange(i, i + v.len()) == v,
    ensures
        occurs_in(v, t),
{
}

proof fn lemma_occurs_trans(a: Seq<char>, b: Seq<char>, c: Seq<char>)
    requires
        occurs_in(a, b),
        occurs_in(b, c),
    ensures
        occurs_in(a, c),
{
    let i = choose|i: int| 0 <= i && i + a.len() <= b.len() && #[trigger] b.subrange(i, i + a.len()) == a;
    let j = choose|j: int| 0 <= j && j + b.len() <= c.len() && #[trigger] c.subrange(j, j + b.len()) == b;
    assert(c.subrange(j + i, j + i + a.len()) =~= a);
    lemma_occurs_at(a, c, j + i);
}

proof fn lemma_occurs_sub(v: Seq<char>, t: Seq<char>, i: int, j: int)
    requires
        occurs_in(v, t),
        0 <= i <= j <= v.len(),
    ensures
        occurs_in(v.subrange(i, j), t),
{
    assert(v.subrange(i, i + v.subrange(i, j).len()) =~= v.subrange(i, j));
    lemma_occurs_at(v.subrange(i, j), v, i);
    lemma_occurs_trans(v.subrange(i, j), v, t);
}

proof fn lemma_pieces_of_occurring(r: Seq<char>, t: Seq<char>)
    requires
        occurs_in(r, t),
    ensures
        pieces_from(r, t),
{
    assert forall|i: int, j: int|
        0 <= i <= j <= r.len() && no_white_space(#[trigger] r.subrange(i, j)) implies occurs_in(
        r.subrange(i, j),
        t,
    ) by {
        lemma_occurs_sub(r, t, i, j);
    }
}

proof fn lemma_pieces_of_empty(t: Seq<char>)
    ensures
        pieces_from(Seq::empty(), t),
{
    assert(t.subrange(0, 0) =~= Seq::<char>::empty());
    lemma_occurs_at(Seq::empty(), t, 0);
    lemma_pieces_of_occurring(Seq::empty(), t);
}

proof fn lemma_pieces_joined(a: Seq<char>, b: Seq<char>, t: Seq<char>)
    requires
        pieces_from(a, t),
        pieces_from(b, t),
    ensures
        pieces_from(a.push(' ') + b, t),
{
    let r = a.push(' ') + b;
    let m = a.len() as int;
    assert(white_space(' '));
    assert forall|i: int, j: int|
        0 <= i <= j <= r.len() && no_white_space(#[trigger] r.subrange(i, j)) implies occurs_in(
        r.subrange(i, j),
        t,
    ) by {
        if j <= m {
            assert(r.subrange(i, j) =~= a.subrange(i, j));
        } else if i > m {
            assert(r.subrange(i, j) =~= b.subrange(i - m - 1, j - m - 1));
        } else {
            assert(r.subrange(i, j)[m - i] == ' ');
        }
    }
}

proof fn lemma_pieces_wider(r: Seq<char>, t: Seq<char>, u: Seq<char>)
    requires
        pieces_from(r, t),
        occurs_in(t, u),
    ensures
        pieces_from(r, u),
{
    assert forall|i: int, j: int|
        0 <= i <= j <= r.len() && no_white_space(#[trigger] r.subrange(i, j)) implies occurs_in(
        r.subrange(i, j),
        u,
    ) by {
        lemma_occurs_trans(r.subrange(i, j), t, u);
    }
}

proof fn lemma_split_occurs(s: Seq<char>, by_white_space: bool)
    ensures
        split_on(s, by_white_space).len() >= 1,
        all_occur(split_on(s, by_white_space), s),
        split_on(s, by_white_space).last().len() <= s.len(),
        s.subrange(s.len() - split_on(s, by_white_space).last().len(), s.len() as int) == split_on(
            s,
            by_white_space,
        ).last(),
    decreases s.len(),
{
    if s.len() == 0 {
        assert(s.subrange(0, 0) =~= Seq::<char>::empty());
        lemma_occurs_at(Seq::empty(), s, 0);
    } else {
        let c = s.last();
        let rest = s.drop_last();
        let pieces = split_on(rest, by_white_space);
        lemma_split_occurs(rest, by_white_space);
        let n = s.len() as int;
        assert(s.subrange(0, n - 1) =~= rest);
        lemma_occurs_at(rest, s, 0);
        assert forall|k: int| 0 <= k < pieces.len() implies occurs_in(#[trigger] pieces[k], s) by {
            lemma_occurs_trans(pieces[k], rest, s);
        }
        if is_separator(c, by_white_space) {
            assert(s.subrange(n, n) =~= Seq::<char>::empty());
            lemma_occurs_at(Seq::empty(), s, n);
            let out = pieces.push(Seq::empty());
            assert forall|k: int| 0 <= k < out.len() implies occurs_in(#[trigger] out[k], s) by {
                if k < pieces.len() {
                    assert(out[k] == pieces[k]);
                }
            }
        } else {
            let l = pieces.last();
            let out = pieces.update(pieces.len() - 1, l.push(c));
            assert(s.subrange(n - 1 - l.len(), n) =~= rest.subrange(
                rest.len() - l.len(),
                rest.len() as int,
            ).push(c));
            lemma_occurs_at(l.push(c), s, n - 1 - l.len());
            assert forall|k: int| 0 <= k < out.len() implies occurs_in(#[trigger] out[k], s) by {
                if k < pieces.len() - 1 {
                    assert(out[k] == pieces[k]);
                }
            }
        }
    }
}

proof fn lemma_filter_occurs(ps: Seq<Seq<char>>, t: Seq<char>)
    requires
        all_occur(ps, t),
    ensures
        all_occur(ps.filter(non_empty()), t),
    decreases ps.len(),
{
    reveal(Seq::filter);
    if ps.len() > 0 {
        let rest = ps.drop_last();
        assert(all_occur(rest, t)) by {
            assert forall|k: int| 0 <= k < rest.len() implies occurs_in(#[trigger] rest[k], t) by {
                assert(rest[k] == ps[k]);
            }
        }
        lemma_filter_occurs(rest, t);
        let f = rest.filter(non_empty());
        if ps.last().len() > 0 {
            assert forall|k: int| 0 <= k < f.push(ps.last()).len() implies occurs_in(
                #[trigger] f.push(ps.last())[k],
                t,
            ) by {
                if k < f.len() {
                    assert(f.push(ps.last())[k] == f[k]);
                }
            }
        }
    }
}

proof fn lemma_words_occur(line: Seq<char>)
    ensures
        all_occur(words_of(line), line),
{
    lemma_split_occurs(line, true);
    lemma_filter_occurs(split_on(line, true), line);
}

proof fn lemma_rows_from_push(rows: Seq<Seq<char>>, row: Seq<char>, t: Seq<char>)
    requires
        rows_from(rows, t),
        pieces_from(row, t),
    ensures
        rows_from(rows.push(row), t),
{
    assert forall|k: int| 0 <= k < rows.push(row).len() implies pieces_from(
        #[trigger] rows.push(row)[k],
        t,
    ) by {
        if k < rows.len() {
            assert(rows.push(row)[k] == rows[k]);
        }
    }
}

proof fn lemma_chars_are_pieces(
    st: (Seq<Seq<char>>, Seq<char>),
    word: Seq<char>,
    k: int,
    width: int,
    line: Seq<char>,
)
    requires
        rows_from(st.0, line),
        st.1.len() == 0,
        occurs_in(word, line),
        0 <= k <= word.len(),
    ensures
        rows_from(with_chars(st, word.take(k), width).0, line),
        exists|a: int| 0 <= a <= k && with_chars(st, word.take(k), width).1 == #[trigger] word.subrange(a, k),
    decreases k,
{
    if k == 0 {
        assert(word.take(0) =~= Seq::<char>::empty());
        assert(st.1 =~= word.subrange(0, 0));
    } else {
        lemma_chars_are_pieces(st, word, k - 1, width, line);
        assert(word.take(k).drop_last() =~= word.take(k - 1));
        assert(word.take(k).last() == word[k - 1]);
        let r = with_chars(st, word.take(k - 1), width);
        let km = k - 1;
        let a = choose|a: int| 0 <= a <= km && r.1 == #[trigger] word.subrange(a, km);
        let ch = word[k - 1];
        if r.1.len() > 0 && str_display_width(r.1) + columns_of(ch) > width {
            lemma_occurs_sub(word, line, a, k - 1);
            lemma_pieces_of_occurring(r.1, line);
            lemma_rows_from_push(r.0, r.1, line);
            assert(seq![ch] =~= word.subrange(k - 1, k));
        } else {
            assert(r.1.push(ch) =~= word.subrange(a, k));
        }
    }
}

proof fn lemma_word_keeps_pieces(
    st: (Seq<Seq<char>>, Seq<char>),
    word: Seq<char>,
    width: int,
    line: Seq<char>,
)
    requires
        rows_from(st.0, line),
        pieces_from(st.1, line),
        occurs_in(word, line),
    ensures
        rows_from(with_word(st, word, width).0, line),
        pieces_from(with_word(st, word, width).1, line),
{
    let sep: int = if st.1.len() > 0 {
        1
    } else {
        0
    };
    lemma_pieces_of_occurring(word, line);
    if str_display_width(st.1) + sep + str_display_width(word) <= width {
        if st.1.len() > 0 {
            lemma_pieces_joined(st.1, word, line);
        }
    } else {
        let closed = if st.1.len() > 0 {
            (st.0.push(st.1), Seq::<char>::empty())
        } else {
            st
        };
        if st.1.len() > 0 {
            lemma_rows_from_push(st.0, st.1, line);
        }
        lemma_chars_are_pieces(closed, word, word.len() as int, width, line);
        assert(word.take(word.len() as int) =~= word);
        let r = with_chars(closed, word, width);
        let n = word.len() as int;
        let a = choose|a: int| 0 <= a <= n && r.1 == #[trigger] word.subrange(a, n);
        lemma_occurs_sub(word, line, a, word.len() as int);
        lemma_pieces_of_occurring(r.1, line);
    }
}

proof fn lemma_words_keep_pieces(
    st: (Seq<Seq<char>>, Seq<char>),
    words: Seq<Seq<char>>,
    width: int,
    line: Seq<char>,
)
    requires
        rows_from(st.0, line),
        pieces_from(st.1, line),
        all_occur(words, line),
    ensures
        rows_from(with_words(st, words, width).0, line),
        pieces_from(with_words(st, words, width).1, line),
    decreases words.len(),
{
    if words.len() > 0 {
        let rest = words.drop_last();
        assert(all_occur(rest, line)) by {
            assert forall|k: int| 0 <= k < rest.len() implies occurs_in(#[trigger] rest[k], line) by {
                assert(rest[k] == words[k]);
            }
        }
        lemma_words_keep_pieces(st, rest, width, line);
        assert(occurs_in(words[words.len() - 1], line));
        lemma_word_keeps_pieces(with_words(st, rest, width), words.last(), width, line);
    }
}

proof fn lemma_line_rows_are_pieces(line: Seq<char>, width: int)
    ensures
        rows_from(wrap_line(line, width), line),
{
    let empty = (Seq::<Seq<char>>::empty(), Seq::<char>::empty());
    lemma_words_occur(line);
    lemma_pieces_of_empty(line);
    lemma_words_keep_pieces(empty, words_of(line), width, line);
    let st = with_words(empty, words_of(line), width);
    lemma_rows_from_push(st.0, st.1, line);
}

proof fn lemma_lines_rows_are_pieces(lines: Seq<Seq<char>>, width: int, text: Seq<char>)
    requires
        all_occur(lines, text),
    ensures
        rows_from(wrap_lines(lines, width), text),
    decreases lines.len(),
{
    if lines.len() > 0 {
        let rest = lines.drop_last();
        assert(all_occur(rest, text)) by {
            assert forall|k: int| 0 <= k < rest.len() implies occurs_in(#[trigger] rest[k], text) by {
                assert(rest[k] == lines[k]);
            }
        }
        lemma_lines_rows_are_pieces(rest, width, text);
        let last = lines[lines.len() - 1];
        lemma_line_rows_are_pieces(last, width);
        let a = wrap_lines(rest, width);
        let b = wrap_line(last, width);
        assert forall|k: int| 0 <= k < (a + b).len() implies pieces_from(#[trigger] (a + b)[k], text) by {
            if k < a.len() {
                assert((a + b)[k] == a[k]);
            } else {
                assert((a + b)[k] == b[k - a.len()]);
                lemma_pieces_wider(b[k - a.len()], last, text);
            }
        }
    }
}

/// Wrapping never runs two words together: in every row, each stretch
/// without white space stands in the text as it is, so a row holds whole
/// words, or pieces of one word too long for a row, with white space
/// between them.
pub proof fn lemma_wrap_keeps_words_apart(text: Seq<char>, width: usize)
    ensures
        rows_from(wrapped(text, width), text),
{
    let w: int = if width == 0 {
        1
    } else {
        width as int
    };
    lemma_split_occurs(text, false);
    lemma_lines_rows_are_pieces(lines_of(text), w, text);
}

/// Holds of an empty row.
pub open spec fn is_empty_row() -> spec_fn(Seq<char>) -> bool {
    |r: Seq<char>| r.len() == 0
}

/// Holds of a line with nothing but white space in it.
pub open spec fn is_blank_line() -> spec_fn(Seq<char>) -> bool {
    |l: Seq<char>| visible_chars(l).len() == 0
}

/// Whether every row holds something.
pub open spec fn all_filled(rows: Seq<Seq<char>>) -> bool {
    forall|k: int| 0 <= k < rows.len() ==> (#[trigger] rows[k]).len() > 0
}

proof fn lemma_split_no_white_space(s: Seq<char>)
    ensures
        split_on(s, true).len() >= 1,
        forall|k: int|
            0 <= k < split_on(s, true).len() ==> no_white_space(#[trigger] split_on(s, true)[k]),
    decreases s.len(),
{
    if s.len() > 0 {
        let c = s.last();
        let pieces = split_on(s.drop_last(), true);
        lemma_split_no_white_space(s.drop_last());
        if !is_separator(c, true) {
            let l = pieces.last();
            let out = pieces.update(pieces.len() - 1, l.push(c));
            assert(no_white_space(pieces[pieces.len() - 1]));
            assert forall|k: int| 0 <= k < out.len() implies no_white_space(#[trigger] out[k]) by {
                if k < pieces.len() - 1 {
                    assert(out[k] == pieces[k]);
                } else {
                    assert forall|m: int| 0 <= m < out[k].len() implies !white_space(
                        #[trigger] out[k][m],
                    ) by {
                        if m < l.len() {
                            assert(out[k][m] == l[m]);
                        }
                    }
                }
            }
        } else {
            let out = pieces.push(Seq::<char>::empty());
            assert forall|k: int| 0 <= k < out.len() implies no_white_space(#[trigger] out[k]) by {
                if k < pieces.len() {
                    assert(out[k] == pieces[k]);
                }
            }
        }
    }
}

proof fn lemma_filter_words(ps: Seq<Seq<char>>)
    requires
        forall|k: int| 0 <= k < ps.len() ==> no_white_space(#[trigger] ps[k]),
    ensures
        forall|k: int|
            0 <= k < ps.filter(non_empty()).len() ==> no_white_space(
                #[trigger] ps.filter(non_empty())[k],
            ) && ps.filter(non_empty())[k].len() > 0,
    decreases ps.len(),
{
    reveal(Seq::filter);
    if ps.len() > 0 {
        let rest = ps.drop_last();
        assert forall|k: int| 0 <= k < rest.len() implies no_white_space(#[trigger] rest[k]) by {
            assert(rest[k] == ps[k]);
        }
        lemma_filter_words(rest);
        let f = rest.filter(non_empty());
        assert(no_white_space(ps[ps.len() - 1]));
        if ps.last().len() > 0 {
            assert forall|k: int| 0 <= k < f.push(ps.last()).len() implies no_white_space(
                #[trigger] f.push(ps.last())[k],
            ) && f.push(ps.last())[k].len() > 0 by {
                if k < f.len() {
                    assert(f.push(ps.last())[k] == f[k]);
                }
            }
        }
    }
}

proof fn lemma_visible_of_word(w: Seq<char>)
    requires
        no_white_space(w),
    ensures
        visible_chars(w) == w,
    decreases w.len(),
{
    if w.len() == 0 {
        reveal(Seq::filter);
        assert(visible_chars(w) =~= w);
    } else {
        let rest = w.drop_last();
        assert forall|m: int| 0 <= m < rest.len() implies !white_space(#[trigger] rest[m]) by {
            assert(rest[m] == w[m]);
        }
        lemma_visible_of_word(rest);
        assert(w =~= rest.push(w.last()));
        assert(!white_space(w[w.len() - 1]));
        lemma_visible_push(rest, w.last());
    }
}

proof fn lemma_blank_means_no_words(line: Seq<char>)
    ensures
        (visible_chars(line).len() == 0) == (words_of(line).len() == 0),
        forall|k: int| 0 <= k < words_of(line).len() ==> (#[trigger] words_of(line)[k]).len() > 0,
{
    lemma_split_no_white_space(line);
    lemma_filter_words(split_on(line, true));
    lemma_filter_keeps_visible(split_on(line, true));
    lemma_split_visible(line, true);
    let words = words_of(line);
    if words.len() > 0 {
        let last = words[words.len() - 1];
        lemma_visible_of_word(last);
        assert(rows_visible(words) == rows_visible(words.drop_last()) + visible_chars(words.last()));
    }
}

proof fn lemma_chars_fill_rows(st: (Seq<Seq<char>>, Seq<char>), word: Seq<char>, width: int)
    requires
        all_filled(st.0),
    ensures
        all_filled(with_chars(st, word, width).0),
        word.len() > 0 ==> with_chars(st, word, width).1.len() > 0,
        word.len() == 0 ==> with_chars(st, word, width).1 == st.1,
    decreases word.len(),
{
    if word.len() > 0 {
        let rest = word.drop_last();
        lemma_chars_fill_rows(st, rest, width);
        let r = with_chars(st, rest, width);
        let ch = word.last();
        if r.1.len() > 0 && str_display_width(r.1) + columns_of(ch) > width {
            assert forall|k: int| 0 <= k < r.0.push(r.1).len() implies (#[trigger] r.0.push(
                r.1,
            )[k]).len() > 0 by {
                if k < r.0.len() {
                    assert(r.0.push(r.1)[k] == r.0[k]);
                }
            }
        }
    }
}

proof fn lemma_word_fills_rows(st: (Seq<Seq<char>>, Seq<char>), word: Seq<char>, width: int)
    requires
        all_filled(st.0),
        word.len() > 0,
    ensures
        all_filled(with_word(st, word, width).0),
        with_word(st, word, width).1.len() > 0,
{
    let sep: int = if st.1.len() > 0 {
        1
    } else {
        0
    };
    if !(str_display_width(st.1) + sep + str_display_width(word) <= width) {
        let closed = if st.1.len() > 0 {
            (st.0.push(st.1), Seq::<char>::empty())
        } else {
            st
        };
        assert(all_filled(closed.0)) by {
            if st.1.len() > 0 {
                assert forall|k: int| 0 <= k < st.0.push(st.1).len() implies (#[trigger] st.0.push(
                    st.1,
                )[k]).len() > 0 by {
                    if k < st.0.len() {
                        assert(st.0.push(st.1)[k] == st.0[k]);
                    }
                }
            }
        }
        lemma_chars_fill_rows(closed, word, width);
    }
}

proof fn lemma_words_fill_rows(words: Seq<Seq<char>>, width: int)
    requires
        forall|k: int| 0 <= k < words.len() ==> (#[trigger] words[k]).len() > 0,
    ensures
        all_filled(with_words((Seq::empty(), Seq::empty()), words, width).0),
        words.len() > 0 ==> with_words((Seq::empty(), Seq::empty()), words, width).1.len() > 0,
        words.len() == 0 ==> with_words((Seq::empty(), Seq::empty()), words, width).1.len() == 0,
    decreases words.len(),
{
    if words.len() > 0 {
        let rest = words.drop_last();
        assert forall|k: int| 0 <= k < rest.len() implies (#[trigger] rest[k]).len() > 0 by {
            assert(rest[k] == words[k]);
        }
        lemma_words_fill_rows(rest, width);
        assert(words[words.len() - 1].len() > 0);
        lemma_word_fills_rows(
            with_words((Seq::empty(), Seq::empty()), rest, width),
            words.last(),
            width,
        );
    }
}

proof fn lemma_filled_has_no_empty(rows: Seq<Seq<char>>)
    requires
        all_filled(rows),
    ensures
        rows.filter(is_empty_row()).len() == 0,
    decreases rows.len(),
{
    reveal(Seq::filter);
    if rows.len() > 0 {
        let rest = rows.drop_last();
        assert forall|k: int| 0 <= k < rest.len() implies (#[trigger] rest[k]).len() > 0 by {
            assert(rest[k] == rows[k]);
        }
        lemma_filled_has_no_empty(rest);
        assert(rows[rows.len() - 1].len() > 0);
    }
}

proof fn lemma_line_empty_rows(line: Seq<char>, width: int)
    ensures
        wrap_line(line, width).filter(is_empty_row()).len() == if visible_chars(line).len() == 0 {
            1int
        } else {
            0int
        },
{
    lemma_blank_means_no_words(line);
    let words = words_of(line);
    lemma_words_fill_rows(words, width);
    let st = with_words((Seq::<Seq<char>>::empty(), Seq::<char>::empty()), words, width);
    let rows = st.0.push(st.1);
    reveal(Seq::filter);
    if words.len() > 0 {
        assert forall|k: int| 0 <= k < rows.len() implies (#[trigger] rows[k]).len() > 0 by {
            if k < st.0.len() {
                assert(rows[k] == st.0[k]);
            }
        }
        lemma_filled_has_no_empty(rows);
    } else {
        assert(st.0 =~= Seq::<Seq<char>>::empty());
        assert(rows.drop_last() =~= Seq::<Seq<char>>::empty());
        assert(rows.drop_last().filter(is_empty_row()) =~= Seq::<Seq<char>>::empty());
    }
}

proof fn lemma_lines_empty_rows(lines: Seq<Seq<char>>, width: int)
    ensures
        wrap_lines(lines, width).filter(is_empty_row()).len() == lines.filter(is_blank_line()).len(),
    decreases lines.len(),
{
    reveal(Seq::filter);
    if lines.len() > 0 {
        let rest = lines.drop_last();
        lemma_lines_empty_rows(rest, width);
        lemma_line_empty_rows(lines.last(), width);
        Seq::filter_distributes_over_add(
            wrap_lines(rest, width),
            wrap_line(lines.last(), width),
            is_empty_row(),
        );
    }
}

/// Wrapping adds no empty rows and drops none: the rows that are empty are
/// as many as the lines of the text with nothing but white space in them,
/// one for each such line, and every other row holds something.
pub proof fn lemma_wrap_empty_rows_are_blank_lines(text: Seq<char>, width: usize)
    ensures
        wrapped(text, width).filter(is_empty_row()).len() == lines_of(text).filter(
            is_blank_line(),
        ).len(),
{
    let w: int = if width == 0 {
        1
    } else {
        width as int
    };
    lemma_lines_empty_rows(lines_of(text), w);
}

} // verus!
