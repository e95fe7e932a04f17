use labolabo_app::i18n::{locale_for_os, LocaleSetting};

#[test]
fn db_str_round_trips_through_from_db_str() {
    for setting in [LocaleSetting::Auto, LocaleSetting::Ja, LocaleSetting::En] {
        assert_eq!(LocaleSetting::from_db_str(Some(setting.as_db_str())), setting);
    }
}

#[test]
fn unrecognized_or_absent_db_text_falls_back_to_auto() {
    assert_eq!(LocaleSetting::from_db_str(None), LocaleSetting::Auto);
    assert_eq!(LocaleSetting::from_db_str(Some("fr")), LocaleSetting::Auto);
    assert_eq!(LocaleSetting::from_db_str(Some("")), LocaleSetting::Auto);
}

#[test]
fn ja_and_en_resolve_to_themselves_regardless_of_the_os_locale() {
    assert_eq!(LocaleSetting::Ja.resolve(), "ja");
    assert_eq!(LocaleSetting::En.resolve(), "en");
}

#[test]
fn auto_resolves_to_one_of_the_two_shipped_locales() {
    let tag = LocaleSetting::Auto.resolve();
    assert!(tag == "ja" || tag == "en");
}

#[test]
fn the_default_setting_is_auto() {
    assert_eq!(LocaleSetting::default(), LocaleSetting::Auto);
}

#[test]
fn os_tags_starting_with_ja_in_any_case_mean_japanese() {
    assert_eq!(locale_for_os(Some("ja-JP")), "ja");
    assert_eq!(locale_for_os(Some("ja")), "ja");
    assert_eq!(locale_for_os(Some("JA_jp")), "ja");
    assert_eq!(locale_for_os(Some("en-US")), "en");
    assert_eq!(locale_for_os(Some("j")), "en");
    assert_eq!(locale_for_os(Some("fr-FR")), "en");
    assert_eq!(locale_for_os(None), "en");
}

#[test]
fn db_strings_are_plain_ascii_tags() {
    assert_eq!(LocaleSetting::Auto.as_db_str(), "auto");
    assert_eq!(LocaleSetting::Ja.as_db_str(), "ja");
    assert_eq!(LocaleSetting::En.as_db_str(), "en");
}
