use kptui::text::is_whitespace;

#[test]
fn white_space_matches_the_standard_library() {
    let mut checked = 0;
    for u in (0u32..0x3100).chain(0xfe00..0x10000).chain([0x1_0000, 0x1f600, 0x10ffff]) {
        if let Some(c) = char::from_u32(u) {
            assert_eq!(is_whitespace(c), c.is_whitespace(), "U+{u:04X}");
            checked += 1;
        }
    }
    assert!(checked > 10_000);
}

#[test]
fn zero_width_space_is_not_white_space() {
    assert!(!is_whitespace('\u{200B}'));
    assert!(is_whitespace('\u{3000}'));
    assert!(is_whitespace('\u{85}'));
}
