use code_usage::preferences::{Favorite, Preferences};

#[test]
fn defaults_to_command_code() {
    assert_eq!(Preferences::default().favorite, Some(Favorite::CommandCode));
}

#[test]
fn missing_or_broken_file_falls_back_to_defaults() {
    assert_eq!(Preferences::load(None), Preferences::default());
    assert_eq!(Preferences::load(Some("{ not json")), Preferences::default());
}

#[test]
fn round_trips_through_the_config_file() {
    let preferences = Preferences::with_favorite(Some(Favorite::Grok));

    let text = preferences.save();

    assert_eq!(Preferences::load(Some(&text)).favorite, Some(Favorite::Grok));
}

#[test]
fn accepts_an_explicit_null_favorite() {
    assert_eq!(Preferences::load(Some(r#"{"favorite":null}"#)).favorite, None);
    assert_eq!(Preferences::with_favorite(None).favorite, None);
}

#[test]
fn ignores_unknown_ids_from_the_file() {
    assert_eq!(
        Preferences::load(Some(r#"{"favorite":"openCodeTodayCost"}"#)),
        Preferences::default()
    );
}

#[test]
fn migrates_the_legacy_favorites_array() {
    assert_eq!(
        Preferences::load(Some(r#"{"favorites":["openCode","grok"]}"#)).favorite,
        Some(Favorite::OpenCode)
    );
}

#[test]
fn legacy_files_without_known_entries_fall_back_to_defaults() {
    assert_eq!(
        Preferences::load(Some(r#"{"favorites":["grokWeekly"]}"#)),
        Preferences::default()
    );
}

#[test]
fn every_favorite_and_none_round_trip() {
    for favorite in [None, Some(Favorite::Grok), Some(Favorite::CommandCode), Some(Favorite::OpenCode)] {
        let text = Preferences::with_favorite(favorite).save();
        assert!(text.ends_with("}\n"));
        assert_eq!(Preferences::load(Some(&text)).favorite, favorite);
    }
}

#[test]
fn saves_the_favorite_under_its_camel_case_id() {
    let text = Preferences::with_favorite(Some(Favorite::CommandCode)).save();
    assert_eq!(text, "{\n  \"favorite\": \"commandCode\"\n}\n");
    let none = Preferences::with_favorite(None).save();
    assert_eq!(none, "{\n  \"favorite\": null\n}\n");
}

#[test]
fn a_non_string_favorite_clears_it() {
    assert_eq!(Preferences::load(Some(r#"{"favorite":3}"#)).favorite, None);
}

#[test]
fn legacy_entries_that_are_not_strings_are_skipped() {
    assert_eq!(
        Preferences::load(Some(r#"{"favorites":[1,"grok"]}"#)).favorite,
        Some(Favorite::Grok)
    );
    assert_eq!(
        Preferences::load(Some(r#"{"favorites":"grok"}"#)),
        Preferences::default()
    );
}

#[test]
fn labels_and_ids_of_the_favorites() {
    assert_eq!(Favorite::Grok.label(), "Grok");
    assert_eq!(Favorite::CommandCode.label(), "Command Code");
    assert_eq!(Favorite::OpenCode.label(), "OpenCode");
    for favorite in Favorite::ALL {
        assert_eq!(Favorite::from_id(favorite.id()), Some(favorite));
    }
    assert_eq!(Favorite::from_id("nope"), None);
}
