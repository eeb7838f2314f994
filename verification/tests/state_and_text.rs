use code_usage::accounts::parse_json_file;
use code_usage::json::JsonValue;
use code_usage::order::sort_strings;
use code_usage::preferences::{Favorite, Preferences};
use code_usage::text::{decimal_text, join_strings, quoted_list, str_eq_ignore_ascii_case, str_trim};
use code_usage::AppState;
use std::time::Duration;

#[test]
fn the_panel_counts_as_just_shown_only_after_it_was_shown() {
    let mut state = AppState::new(Preferences::with_favorite(Some(Favorite::OpenCode)));
    assert!(!state.was_just_shown(Duration::from_secs(3600)));
    assert_eq!(state.favorite(), Some(Favorite::OpenCode));

    state.mark_shown();
    assert!(state.was_just_shown(Duration::from_secs(3600)));
    assert!(!state.was_just_shown(Duration::ZERO));
    assert_eq!(state.favorite(), Some(Favorite::OpenCode));
}

#[test]
fn text_helpers() {
    assert_eq!(str_trim("  a b \n"), "a b");
    assert_eq!(str_trim("   "), "");
    assert!(str_eq_ignore_ascii_case("ABC", "abc"));
    assert!(!str_eq_ignore_ascii_case("abc", "abd"));
    assert_eq!(join_strings(&vec!["a".to_string(), "b".to_string()], ", "), "a, b");
    assert_eq!(join_strings(&Vec::new(), ", "), "");
    assert_eq!(decimal_text(0), "0");
    assert_eq!(decimal_text(1207), "1207");
}

#[test]
fn strings_sort_by_code_point() {
    let sorted = sort_strings(vec!["trabalho".to_string(), "Zeta".to_string(), "pessoal".to_string(), "é".to_string()]);
    assert_eq!(sorted, vec!["Zeta", "pessoal", "trabalho", "é"]);
}

#[test]
fn documents_keep_their_values_through_a_copy_and_a_set() {
    let mut doc = parse_json_file("doc.json", r#"{"b":[1,-2,3.5,"x",null,true],"a":{}}"#).expect("valid JSON");
    let copy = doc.duplicate();
    doc.set("c", JsonValue::Bool(false));
    doc.set("a", JsonValue::Null);
    assert!(matches!(doc.get("c"), Some(JsonValue::Bool(false))));
    assert!(doc.get("a").expect("a").is_null());
    assert!(copy.get("c").is_none());
    assert!(copy.get("a").and_then(|a| a.as_object()).is_some_and(|members| members.is_empty()));
    let items = copy.get("b").and_then(|b| b.as_array()).expect("an array");
    assert_eq!(items.len(), 6);
    assert_eq!(items[0].as_u64(), Some(1));
    assert_eq!(items[1].as_i64(), Some(-2));
    assert_eq!(items[1].as_u64(), None);
    assert!(items[2].as_number().is_some() && items[2].as_i64().is_none());
    assert_eq!(items[3].as_str().map(String::as_str), Some("x"));
}

#[test]
fn lists_of_strings_are_written_as_debug_writes_them() {
    let items = vec!["code".to_string(), "a \"b\"\n".to_string()];
    assert_eq!(quoted_list(&items), format!("{:?}", items));
    assert_eq!(quoted_list(&Vec::new()), "[]");
}
