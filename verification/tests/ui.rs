use kptui::ui::edit::{field_help_items, nav_help_items, password_text};
use kptui::ui::settings;

#[test]
fn entry_screen_hints() {
    assert_eq!(nav_help_items(true), ["[↑↓]", "[Enter]", "[v]", "[d]", "[Esc]"]);
    assert_eq!(
        nav_help_items(false),
        ["[↑↓] navigate", "[Enter] edit field", "[v] toggle visibility", "[d] delete entry", "[Esc] close"]
    );
    assert_eq!(field_help_items(true), ["[Enter]", "[Esc]"]);
    assert_eq!(field_help_items(false), ["[^n] newline", "[Enter] save field", "[Esc] cancel"]);
}

#[test]
fn settings_screen_hints() {
    assert_eq!(settings::nav_help_items(true), ["[↑↓]", "[Enter]", "[Esc]"]);
    assert_eq!(settings::nav_help_items(false), ["[↑↓] navigate", "[Enter] edit / choose theme", "[Esc] back"]);
    assert_eq!(settings::field_help_items(false), ["[Enter] save", "[Esc] cancel"]);
    assert_eq!(settings::change_password_help_items(false), ["[Enter] confirm", "[Esc] cancel"]);
    assert_eq!(settings::export_help_items(false), ["[Enter] continue", "[Esc] cancel"]);
    assert_eq!(settings::import_help_items(false), ["[Enter] continue", "[Esc] cancel"]);
    assert_eq!(settings::import_help_items(true), ["[Enter]", "[Esc]"]);
}

#[test]
fn hidden_password_shows_at_least_eight_bullets() {
    assert_eq!(password_text("abc", false), "••••••••");
    assert_eq!(password_text("0123456789", false), "••••••••••");
    assert_eq!(password_text("abc", true), "");
    assert_eq!(password_text("", false), "");
}
