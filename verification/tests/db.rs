use kptui::db::{current_totp_code, is_blank, resolve_totp, sibling_tmp_path, urlencoding_encode, Entry};

#[test]
fn urlencoding_keeps_unreserved_characters() {
    assert_eq!(urlencoding_encode("AZaz09-_.~"), "AZaz09-_.~");
}

#[test]
fn urlencoding_escapes_every_other_byte() {
    assert_eq!(urlencoding_encode("a b:c/d"), "a%20b%3Ac%2Fd");
    assert_eq!(urlencoding_encode("é"), "%C3%A9");
    assert_eq!(urlencoding_encode(""), "");
}

#[test]
fn own_otp_value_wins() {
    let r = resolve_totp(Some("otpauth://totp/x?secret=ABC"), Some("SEED"), None, Some("t"), Some("u"));

    assert_eq!(r, "otpauth://totp/x?secret=ABC");
}

#[test]
fn seed_builds_a_uri_with_default_settings() {
    let r = resolve_totp(Some("  "), Some(" JBSWY3DP "), None, Some("My Bank"), Some("me@x.org"));

    assert_eq!(
        r,
        "otpauth://totp/My%20Bank%3Ame%40x.org?secret=JBSWY3DP&period=30&digits=6&issuer=My%20Bank"
    );
}

#[test]
fn seed_settings_give_period_and_digits() {
    let r = resolve_totp(None, Some("ABC"), Some(" 60 ; 8 "), None, None);

    assert_eq!(r, "otpauth://totp/%3A?secret=ABC&period=60&digits=8&issuer=");
}

#[test]
fn unreadable_settings_fall_back() {
    let r = resolve_totp(None, Some("ABC"), Some("sixty;8"), Some("t"), None);
    assert_eq!(r, "otpauth://totp/t%3A?secret=ABC&period=30&digits=6&issuer=t");

    let r = resolve_totp(None, Some("ABC"), Some("45"), Some("t"), None);
    assert_eq!(r, "otpauth://totp/t%3A?secret=ABC&period=30&digits=6&issuer=t");

    let r = resolve_totp(None, Some("ABC"), Some("+45;7"), Some("t"), None);
    assert_eq!(r, "otpauth://totp/t%3A?secret=ABC&period=45&digits=7&issuer=t");
}

#[test]
fn no_seed_means_no_totp() {
    assert_eq!(resolve_totp(None, None, Some("30;6"), Some("t"), Some("u")), "");
    assert_eq!(resolve_totp(None, Some(" \t"), None, Some("t"), Some("u")), "");
}

#[test]
fn blank_or_invalid_totp_has_no_code() {
    assert!(current_totp_code("").is_none());
    assert!(current_totp_code("   ").is_none());
    assert!(current_totp_code("not a uri").is_none());
}

#[test]
fn valid_totp_uri_gives_a_code() {
    let code = current_totp_code("otpauth://totp/x?secret=JBSWY3DPEHPK3PXP&period=30&digits=6&issuer=x");

    let code = code.expect("a code");
    assert_eq!(code.code.len(), 6);
    assert!(code.code.chars().all(|c| c.is_ascii_digit()));
    assert!(code.valid_for.as_secs() <= 30);
}

#[test]
fn blank_means_only_white_space() {
    assert!(is_blank(""));
    assert!(is_blank(" \t\n"));
    assert!(!is_blank(" x "));
}

#[test]
fn temporary_path_sits_beside_the_vault() {
    assert_eq!(sibling_tmp_path("/home/me/vault.kdbx"), "/home/me/vault.kdbx.tmp");
}

#[test]
fn default_entry_is_blank() {
    let e = Entry::default();

    assert_eq!(e.id, None);
    assert!(e.name.is_empty() && e.user.is_empty() && e.password.is_empty());
    assert!(e.url.is_empty() && e.totp.is_empty() && e.notes.is_empty());
    assert!(e.date_last_modify.is_empty());
}

#[test]
fn cloned_entry_is_equal_field_by_field() {
    let e = Entry {
        id: Some(42),
        name: String::from("n"),
        user: String::from("u"),
        password: String::from("p"),
        url: String::from("l"),
        totp: String::from("t"),
        notes: String::from("o"),
        date_last_modify: String::from("d"),
    };
    let c = e.clone();

    assert_eq!(c.id, Some(42));
    assert_eq!((c.name, c.user, c.password), (e.name, e.user, e.password));
    assert_eq!((c.url, c.totp, c.notes, c.date_last_modify), (e.url, e.totp, e.notes, e.date_last_modify));
}

#[test]
fn wiped_entries_are_blank_and_gone() {
    let mut e = Entry {
        id: Some(9),
        name: String::from("n"),
        user: String::from("u"),
        password: String::from("p"),
        url: String::from("l"),
        totp: String::from("t"),
        notes: String::from("o"),
        date_last_modify: String::from("d"),
    };
    kptui::db::wipe_entry(&mut e);
    assert_eq!(e.id, Some(9));
    assert!(e.name.is_empty() && e.password.is_empty() && e.notes.is_empty());

    let mut list = vec![Entry::default(), Entry::default()];
    kptui::db::replace_entry(&mut list, 1, e);
    assert_eq!(list[1].id, Some(9));
    kptui::db::remove_entry(&mut list, 0);
    assert_eq!(list.len(), 1);
    kptui::db::wipe_entries(&mut list);
    assert!(list.is_empty());
}

#[test]
fn code_has_as_many_digits_as_the_settings_ask() {
    let code = current_totp_code("otpauth://totp/x?secret=JBSWY3DPEHPK3PXP").expect("a code");
    assert_eq!(code.code.len(), 8);
    assert!(code.code.chars().all(|c| c.is_ascii_digit()));

    assert!(current_totp_code("otpauth://totp/x?secret=JBSWY3DPEHPK3PXP&digits=20").is_none());
}

#[test]
fn clock_result_is_handed_back_as_it_came() {
    let code = kptui::db::totp_code_of(Some((String::from("123456"), std::time::Duration::from_secs(7))))
        .expect("a code");
    assert_eq!(code.code, "123456");
    assert_eq!(code.valid_for.as_secs(), 7);
    assert!(kptui::db::totp_code_of(None).is_none());
}
