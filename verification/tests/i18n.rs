use mille::i18n::{text, Locale};

#[test]
fn language_tags_pick_german_and_polish_in_any_case() {
    assert_eq!(Locale::from_language_tag("de-AT"), Locale::German);
    assert_eq!(Locale::from_language_tag("DE"), Locale::German);
    assert_eq!(Locale::from_language_tag("pl"), Locale::Polish);
    assert_eq!(Locale::from_language_tag("Pl-pl"), Locale::Polish);
    assert_eq!(Locale::from_language_tag("en-GB"), Locale::English);
    assert_eq!(Locale::from_language_tag("d"), Locale::English);
    assert_eq!(Locale::from_language_tag(""), Locale::English);
}

#[test]
fn known_keys_are_translated_and_unknown_keys_shown_as_is() {
    assert_eq!(text(Locale::German, "join"), "Beitreten");
    assert_eq!(text(Locale::Polish, "join"), "Dołącz");
    assert_eq!(text(Locale::English, "pass"), "Pass");
    assert_eq!(text(Locale::Polish, "play"), "Zagraj");
    assert_eq!(text(Locale::German, "observe"), "Zuschauen");
    assert_eq!(text(Locale::German, "score"), "score");
}
