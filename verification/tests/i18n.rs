use sui_id::i18n::{negotiate_from_accept_language, strings_ja, Locale};

#[test]
fn parse_round_trip() {
    for &loc in Locale::ALL.iter() {
        assert_eq!(Locale::parse(loc.tag()), Some(loc));
    }
}

#[test]
fn parse_tolerates_region_suffix() {
    assert_eq!(Locale::parse("en-US"), Some(Locale::En));
    assert_eq!(Locale::parse("ja_JP"), Some(Locale::Ja));
    assert_eq!(Locale::parse("EN"), Some(Locale::En));
}

#[test]
fn parse_unknown_returns_none() {
    assert_eq!(Locale::parse("zh"), None);
    assert_eq!(Locale::parse(""), None);
    assert_eq!(Locale::parse("xyz-RegionTag"), None);
}

#[test]
fn negotiate_picks_first_recognised() {
    assert_eq!(
        negotiate_from_accept_language("fr;q=1, en;q=0.5"),
        Some(Locale::En)
    );
    assert_eq!(negotiate_from_accept_language("ja, en"), Some(Locale::Ja));
    assert_eq!(negotiate_from_accept_language(""), None);
    assert_eq!(negotiate_from_accept_language("zh, fr"), None);
}

#[test]
fn each_locale_has_strings() {
    for &loc in Locale::ALL.iter() {
        let s = loc.strings();
        assert!(!s.button_save.is_empty(), "{:?}.button_save empty", loc);
        assert!(!s.login_title.is_empty(), "{:?}.login_title empty", loc);
    }
}

#[test]
fn native_names_are_in_their_own_script() {
    assert!(strings_ja().button_save.chars().any(|c| c >= '\u{3040}'));
    assert!(Locale::Ja.native_name().contains("日本語"));
    assert!(Locale::En.native_name().is_ascii());
}

#[test]
fn tags_are_stable() {
    assert_eq!(Locale::Ja.tag(), "ja");
    assert_eq!(Locale::En.tag(), "en");
    assert_eq!(Locale::default(), Locale::Ja);
}

#[test]
fn parse_ignores_case_and_region_law_examples() {
    assert_eq!(Locale::parse("Ja-jp"), Some(Locale::Ja));
    assert_eq!(Locale::parse("eN_gb"), Some(Locale::En));
    assert_eq!(Locale::parse("jap"), None);
}

#[test]
fn negotiate_ignores_weights_and_unknown_leaders() {
    assert_eq!(negotiate_from_accept_language("en;q=0.1, ja;q=0.9"), Some(Locale::En));
    assert_eq!(negotiate_from_accept_language("de-DE, ja-JP;q=0.8"), Some(Locale::Ja));
    assert_eq!(negotiate_from_accept_language(" , en"), Some(Locale::En));
}

#[test]
fn step_up_message_differs_per_locale() {
    assert_eq!(Locale::En.strings().step_up_code_invalid, "The code is incorrect. Please try again.");
    assert!(Locale::Ja.strings().step_up_code_invalid.chars().any(|c| c >= '\u{3040}'));
}

#[test]
fn negotiate_ignores_parameters_of_every_entry() {
    let a = negotiate_from_accept_language("fr;q=0.9, de, en;q=0.1, ja");
    let b = negotiate_from_accept_language("fr, de;q=1.0;x=y, en, ja;q=0.99");
    assert_eq!(a, Some(Locale::En));
    assert_eq!(a, b);
}
