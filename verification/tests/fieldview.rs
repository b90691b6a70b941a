use kptui::input::fieldview::{wrap_text, FieldView};

fn rows(wrapped: &[String]) -> Vec<&str> {
    wrapped.iter().map(|line| line.as_str()).collect()
}

#[test]
fn wraps_multiline_notes_to_the_available_width() {
    let wrapped = wrap_text("first line\nsecond line with more text", 12);

    let actual: Vec<&str> = rows(&wrapped);

    assert_eq!(actual, ["first line", "second line", "with more", "text"]);
}

#[test]
fn wraps_long_words_instead_of_clipping_them() {
    let wrapped = wrap_text("averylongword", 5);

    let actual: Vec<&str> = rows(&wrapped);

    assert_eq!(actual, ["avery", "longw", "ord"]);
}

#[test]
fn preserves_blank_lines_in_notes() {
    let wrapped = wrap_text("first\n\nthird", 20);

    let actual: Vec<&str> = rows(&wrapped);

    assert_eq!(actual, ["first", "", "third"]);
}

#[test]
fn zero_width_wraps_to_one_column() {
    let wrapped = wrap_text("ab c", 0);

    assert_eq!(rows(&wrapped), ["a", "b", "c"]);
}

#[test]
fn collapses_runs_of_white_space() {
    let wrapped = wrap_text("  one \t two  \r\nthree", 40);

    assert_eq!(rows(&wrapped), ["one two", "three"]);
}

#[test]
fn wide_characters_take_two_columns() {
    let wrapped = wrap_text("日本語", 4);

    assert_eq!(rows(&wrapped), ["日本", "語"]);
}

#[test]
fn empty_text_is_one_empty_row() {
    let wrapped = wrap_text("", 10);

    assert_eq!(rows(&wrapped), [""]);
}

#[test]
fn field_view_holds_and_wraps_its_text() {
    let view = FieldView::new(String::from("alpha beta"));

    assert_eq!(view.as_str(), "alpha beta");
    assert!(!view.is_empty());
    assert_eq!(rows(&view.wrap(5)), ["alpha", "beta"]);
    assert!(FieldView::new(String::new()).is_empty());
}

#[test]
fn wrapping_keeps_every_visible_character_and_line() {
    let text = "averylongword and\tmore\n\n  spaced   out  ";
    let rows = wrap_text(text, 4);
    let visible = |s: &str| s.chars().filter(|c| !c.is_whitespace()).collect::<String>();
    let joined: String = rows.iter().map(|r| visible(r)).collect();
    assert_eq!(joined, visible(text));
    assert!(rows.len() >= text.split('\n').count());
    assert!(rows.iter().any(|r| r.is_empty()));
}
