use melodium_libs::regexp::expr::{self, Pattern};
use melodium_libs::regexp::expr_streams;

#[test]
fn regex_matches() {
    assert!(expr::matches("hello world", "wor"));
    assert!(!expr::matches("hello world", "^wor"));
    assert!(!expr::matches("anything", "("));
}

#[test]
fn regex_find_gives_leftmost_match() {
    assert_eq!(expr::find("abc123def456", r"\d+"), Some("123".to_string()));
    assert_eq!(expr::find("abc", r"\d+"), None);
    assert_eq!(expr::find("abc", "["), None);
}

#[test]
fn regex_capture_gives_named_groups() {
    let m = expr::capture("2024-05-06", r"(?<year>\d{4})-(?<month>\d{2})-(\d{2})").unwrap();
    assert_eq!(m.entries, vec![("year".to_string(), "2024".to_string()), ("month".to_string(), "05".to_string())]);
    assert!(expr::capture("no date", r"(?<year>\d{4})").is_none());
    let m = expr::capture("ab", r"(?<a>a)(?<z>z)?").unwrap();
    assert_eq!(m.entries, vec![("a".to_string(), "a".to_string())]);
}

#[test]
fn regex_replace_replaces_first_match() {
    assert_eq!(expr::replace("a-b-c", "-", "+"), Some("a+b-c".to_string()));
    assert_eq!(expr::replace("John Smith", r"(?<first>\w+) (?<last>\w+)", "$last $first"), Some("Smith John".to_string()));
    assert_eq!(expr::replace("unchanged", "x", "y"), Some("unchanged".to_string()));
    assert_eq!(expr::replace("a", "(", "y"), None);
}

#[test]
fn regex_pattern_compiles_or_gives_error() {
    assert!(Pattern::new(r"\w+").is_ok());
    match Pattern::new("(") {
        Err(message) => assert!(!message.is_empty()),
        Ok(_) => panic!("invalid pattern compiled"),
    }
}

#[test]
fn regex_streams() {
    let texts = vec!["a1".to_string(), "b".to_string()];
    assert_eq!(expr_streams::matches(&texts, r"\d").unwrap(), vec![true, false]);
    assert_eq!(expr_streams::find(&texts, r"\d").unwrap(), vec![Some("1".to_string()), None]);
    assert_eq!(expr_streams::replace(&texts, r"\d", "#").unwrap(), vec!["a#".to_string(), "b".to_string()]);
    let captured = expr_streams::capture(&texts, r"(?<d>\d)").unwrap();
    assert_eq!(captured[0].as_ref().unwrap().entries, vec![("d".to_string(), "1".to_string())]);
    assert!(captured[1].is_none());
    assert!(expr_streams::matches(&texts, "(").is_err());
}

#[test]
fn regex_find_agrees_with_matches() {
    for (text, pattern) in [("abc", "b"), ("abc", "z"), ("abc", "("), ("", "^$")] {
        assert_eq!(expr::find(text, pattern).is_some(), expr::matches(text, pattern));
    }
}
