use melodium_libs::data::StringMap;
use melodium_libs::text::same_text;

#[test]
fn string_map_lookup_gives_first_entry_of_key() {
    let m = StringMap { entries: vec![("a".to_string(), "1".to_string()), ("b".to_string(), "2".to_string())] };
    assert_eq!(m.get("b"), Some(&"2".to_string()));
    assert_eq!(m.get("c"), None);
    assert!(StringMap::new().entries.is_empty());
}

#[test]
fn text_comparison() {
    assert!(same_text("héllo", "héllo"));
    assert!(!same_text("héllo", "hello"));
    assert!(!same_text("a", "ab"));
}
