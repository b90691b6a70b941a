use kptui::input::fieldedit::{EditAction, FieldEditor, FieldMode};
use kptui::input::{KeyCode, KeyEvent, KeyModifiers};

#[test]
fn starts_empty() {
    let editor = FieldEditor::with_text("");

    assert_eq!(editor.text(), "");
    assert_eq!(editor.cursor(), 0);
    assert!(editor.is_single_line());
}

#[test]
fn starts_cursor_at_beginning() {
    let editor = FieldEditor::with_text("abc");

    assert_eq!(editor.cursor(), 0);
}

#[test]
fn inserts_characters() {
    let mut editor = FieldEditor::with_text("");

    editor.insert('a');
    editor.insert('b');
    editor.insert('c');

    assert_eq!(editor.text(), "abc");
    assert_eq!(editor.cursor(), 3);
}

#[test]
fn inserts_unicode() {
    let mut editor = FieldEditor::with_text("");

    editor.insert('日');
    editor.insert('本');

    assert_eq!(editor.text(), "日本");
    assert_eq!(editor.cursor(), 6);

    editor.move_left();

    assert_eq!(editor.cursor(), 3);

    editor.backspace();

    assert_eq!(editor.text(), "本");
    assert_eq!(editor.cursor(), 0);
}

#[test]
fn delete_deletes_next_character() {
    let mut editor = FieldEditor::with_text("abc");

    editor.delete();

    assert_eq!(editor.text(), "bc");
    assert_eq!(editor.cursor(), 0);
}

#[test]
fn home_and_end_cover_entire_single_line_field() {
    let mut editor = FieldEditor::with_text("one");

    editor.end();
    assert_eq!(editor.cursor(), 3);

    editor.home();
    assert_eq!(editor.cursor(), 0);
}

#[test]
fn vertical_movement_preserves_column() {
    let mut editor = FieldEditor::with_multiline_text("abcd\nxy\nabcdef");

    editor.home();
    editor.move_right();
    editor.move_right();
    editor.move_right();
    editor.move_down();
    editor.move_down();

    assert_eq!(editor.cursor(), 11);
}

#[test]
fn vertical_movement_handles_first_and_last_line() {
    let mut editor = FieldEditor::with_multiline_text("one\ntwo");

    assert!(editor.move_down());
    assert!(!editor.move_down());

    editor.end();

    assert!(editor.move_up());
    assert!(!editor.move_up());
}

#[test]
fn single_line_vertical_movement_is_ignored() {
    let mut editor = FieldEditor::with_text("abc");

    editor.end();

    assert!(!editor.move_up());
    assert!(!editor.move_down());
    assert_eq!(editor.cursor(), 3);
}

#[test]
fn ctrl_n_is_ignored() {
    let mut editor = FieldEditor::with_text("abc");

    let action = editor.handle_key(KeyEvent::new(KeyCode::Char('n'), KeyModifiers::CONTROL));

    assert_eq!(action, EditAction::Continue);
    assert_eq!(editor.text(), "nabc");
    assert_eq!(editor.cursor(), 1);
}

#[test]
fn multiline_enter_inserts_newline() {
    let mut editor = FieldEditor::with_multiline_text("abc");

    editor.end();

    let action = editor.handle_key(KeyEvent::from(KeyCode::Enter));

    assert_eq!(action, EditAction::Continue);
    assert_eq!(editor.text(), "abc\n");
    assert_eq!(editor.cursor(), 4);
}

#[test]
fn multiline_ctrl_s_accepts() {
    let mut editor = FieldEditor::with_multiline_text("abc");

    let action = editor.handle_key(KeyEvent::new(KeyCode::Char('s'), KeyModifiers::CONTROL));

    assert_eq!(action, EditAction::Accept);
    assert_eq!(editor.text(), "abc");
}

#[test]
fn horizontal_scroll_keeps_cursor_visible() {
    let mut editor = FieldEditor::with_text("abcdefghij");

    editor.end();

    assert_eq!(editor.horizontal_scroll(5), 6);
}

#[test]
fn horizontal_scroll_is_zero_when_cursor_fits() {
    let mut editor = FieldEditor::with_text("abc");

    editor.end();

    assert_eq!(editor.horizontal_scroll(5), 0);
}

#[test]
fn horizontal_scroll_accounts_for_wide_characters() {
    let mut editor = FieldEditor::with_text("日本abc");

    editor.end();

    assert_eq!(editor.cursor_display_column(), 7);
    assert_eq!(editor.horizontal_scroll(5), 3);
}

#[test]
fn horizontal_scroll_is_zero_for_multiline_fields() {
    let mut editor = FieldEditor::with_multiline_text("abcdefghij");

    editor.end();

    assert_eq!(editor.horizontal_scroll(5), 0);
}

#[test]
fn handle_key_edits_text() {
    let mut editor = FieldEditor::with_text("");

    assert_eq!(editor.handle_key(KeyEvent::from(KeyCode::Char('a'))), EditAction::Continue);

    assert_eq!(editor.handle_key(KeyEvent::from(KeyCode::Backspace)), EditAction::Continue);

    assert_eq!(editor.text(), "");
}

#[test]
fn handle_key_returns_lifecycle_actions() {
    let mut editor = FieldEditor::with_text("");

    assert_eq!(editor.handle_key(KeyEvent::from(KeyCode::Enter)), EditAction::Accept);

    assert_eq!(editor.handle_key(KeyEvent::from(KeyCode::Esc)), EditAction::Cancel);
}

#[test]
fn single_line_enter_accepts() {
    let mut editor = FieldEditor::with_text("");

    assert_eq!(editor.handle_key(KeyEvent::from(KeyCode::Enter)), EditAction::Accept);
}

#[test]
fn default_editor_is_empty_single_line() {
    let editor = FieldEditor::default();

    assert_eq!(editor.text(), "");
    assert_eq!(editor.cursor(), 0);
    assert!(editor.is_single_line());
    assert!(!editor.is_multiline());
}

#[test]
fn with_mode_picks_the_mode() {
    let editor = FieldEditor::with_mode("x", FieldMode::Multiline);

    assert!(editor.is_multiline());
    assert_eq!(editor.into_text(), "x");
}

#[test]
fn single_line_refuses_newlines() {
    let mut editor = FieldEditor::with_text("ab");

    editor.insert('\n');
    assert_eq!(editor.text(), "ab");
    assert_eq!(editor.cursor(), 0);

    editor.end();
    let action = editor.handle_key(KeyEvent::from(KeyCode::Enter));
    assert_eq!(action, EditAction::Accept);
    assert_eq!(editor.text(), "ab");
}

#[test]
fn backspace_after_insert_restores_text() {
    let mut editor = FieldEditor::with_text("héllo");

    editor.move_right();
    editor.move_right();
    editor.insert('ß');
    assert_eq!(editor.text(), "héßllo");
    assert_eq!(editor.cursor(), 5);

    editor.backspace();
    assert_eq!(editor.text(), "héllo");
    assert_eq!(editor.cursor(), 3);
}

#[test]
fn left_after_right_restores_cursor() {
    let mut editor = FieldEditor::with_text("日本");

    editor.move_right();
    let before = editor.cursor();
    editor.move_right();
    editor.move_left();

    assert_eq!(editor.cursor(), before);
    assert_eq!(before, 3);
}

#[test]
fn movement_stops_at_the_ends() {
    let mut editor = FieldEditor::with_text("ab");

    editor.move_left();
    assert_eq!(editor.cursor(), 0);
    editor.backspace();
    assert_eq!(editor.text(), "ab");

    editor.end();
    editor.move_right();
    assert_eq!(editor.cursor(), 2);
    editor.delete();
    assert_eq!(editor.text(), "ab");
}

#[test]
fn down_then_up_returns_to_the_same_place() {
    let mut editor = FieldEditor::with_multiline_text("abcdef\nxy\nabcdef");

    editor.move_right();
    editor.move_right();
    editor.move_right();
    editor.move_right();
    assert_eq!(editor.cursor(), 4);

    assert!(editor.move_down());
    assert_eq!(editor.cursor(), 9);
    assert!(editor.move_up());
    assert_eq!(editor.cursor(), 4);
}

#[test]
fn home_and_end_stay_on_the_current_line() {
    let mut editor = FieldEditor::with_multiline_text("one\ntwo\nsix");

    editor.move_down();
    editor.move_right();
    editor.end();
    assert_eq!(editor.cursor(), 7);

    editor.home();
    assert_eq!(editor.cursor(), 4);
}

#[test]
fn escape_cancels_without_changes() {
    let mut editor = FieldEditor::with_text("keep");

    assert_eq!(editor.handle_key(KeyEvent::from(KeyCode::Esc)), EditAction::Cancel);
    assert_eq!(editor.text(), "keep");
}

#[test]
fn other_keys_are_ignored() {
    let mut editor = FieldEditor::with_text("x");

    assert_eq!(editor.handle_key(KeyEvent::from(KeyCode::Tab)), EditAction::Continue);
    assert_eq!(editor.handle_key(KeyEvent::from(KeyCode::PageDown)), EditAction::Continue);
    assert_eq!(editor.text(), "x");
    assert_eq!(editor.cursor(), 0);
}

#[test]
fn delete_and_arrows_through_handle_key() {
    let mut editor = FieldEditor::with_text("abc");

    assert_eq!(editor.handle_key(KeyEvent::from(KeyCode::Right)), EditAction::Continue);
    assert_eq!(editor.handle_key(KeyEvent::from(KeyCode::Delete)), EditAction::Continue);
    assert_eq!(editor.text(), "ac");
    assert_eq!(editor.handle_key(KeyEvent::from(KeyCode::End)), EditAction::Continue);
    assert_eq!(editor.cursor(), 2);
    assert_eq!(editor.handle_key(KeyEvent::from(KeyCode::Home)), EditAction::Continue);
    assert_eq!(editor.cursor(), 0);
    assert_eq!(editor.handle_key(KeyEvent::from(KeyCode::Left)), EditAction::Continue);
    assert_eq!(editor.cursor(), 0);
}

#[test]
fn single_line_view_scrolls_with_the_cursor() {
    let mut editor = FieldEditor::with_text("abcdefghij");

    editor.end();
    let (visible, column) = editor.single_line_view(5);

    assert_eq!(visible, "ghij");
    assert_eq!(column, 4);
}

#[test]
fn single_line_view_of_zero_width_is_empty() {
    let editor = FieldEditor::with_text("abc");

    let (visible, column) = editor.single_line_view(0);

    assert_eq!(visible, "");
    assert_eq!(column, 0);
}

#[test]
fn single_line_view_shows_the_start_when_it_fits() {
    let editor = FieldEditor::with_text("abcdefghij");

    let (visible, column) = editor.single_line_view(4);

    assert_eq!(visible, "abcd");
    assert_eq!(column, 0);
}

#[test]
fn up_then_down_returns_to_the_same_place() {
    let mut editor = FieldEditor::with_multiline_text("ab\nabcdef");

    editor.move_down();
    editor.end();
    assert_eq!(editor.cursor(), 9);

    assert!(editor.move_up());
    assert_eq!(editor.cursor(), 2);
    assert!(editor.move_down());
    assert_eq!(editor.cursor(), 9);
}

#[test]
fn any_key_sequence_keeps_the_cursor_on_a_boundary() {
    let keys = [
        KeyCode::Char('é'),
        KeyCode::Left,
        KeyCode::Char('日'),
        KeyCode::End,
        KeyCode::Enter,
        KeyCode::Char('x'),
        KeyCode::Up,
        KeyCode::Backspace,
        KeyCode::Down,
        KeyCode::Home,
        KeyCode::Delete,
        KeyCode::Right,
        KeyCode::Char('\n'),
        KeyCode::Down,
    ];
    for mode in [FieldMode::SingleLine, FieldMode::Multiline] {
        let mut editor = FieldEditor::with_mode("añb\nçd", mode);
        for (i, code) in keys.iter().cycle().take(60).enumerate() {
            let modifiers = if i % 7 == 3 { KeyModifiers::CONTROL } else { KeyModifiers::NONE };
            editor.handle_key(KeyEvent::new(*code, modifiers));
            assert!(editor.cursor() <= editor.text().len());
            assert!(editor.text().is_char_boundary(editor.cursor()));
            assert_eq!(editor.is_single_line(), mode == FieldMode::SingleLine);
            assert_eq!(editor.is_multiline(), !editor.is_single_line());
        }
    }
}

#[test]
fn the_column_is_kept_across_a_run_of_lines() {
    let mut editor = FieldEditor::with_multiline_text("abcdef\nab\n\nabcdefgh\nxyz");

    for _ in 0..4 {
        editor.move_right();
    }
    assert_eq!(editor.cursor(), 4);

    assert!(editor.move_down());
    assert_eq!(editor.cursor(), 9);
    assert!(editor.move_down());
    assert_eq!(editor.cursor(), 10);
    assert!(editor.move_down());
    assert_eq!(editor.cursor(), 15);
    assert!(editor.move_down());
    assert_eq!(editor.cursor(), 23);
    assert!(!editor.move_down());
    assert_eq!(editor.cursor(), 23);
    assert!(editor.move_up());
    assert_eq!(editor.cursor(), 15);
}

#[test]
fn vertical_moves_land_on_byte_offsets_of_the_kept_column() {
    let mut editor = FieldEditor::with_multiline_text("héllo\nab\nwörld");
    for _ in 0..3 {
        editor.move_right();
    }
    assert_eq!(editor.cursor(), 4);
    assert!(editor.move_down());
    assert_eq!(editor.cursor(), 9);
    assert!(editor.move_down());
    assert_eq!(editor.cursor(), 14);
    assert!(!editor.move_down());
    assert_eq!(editor.cursor(), 14);
    assert!(editor.move_up());
    assert_eq!(editor.cursor(), 9);
}
