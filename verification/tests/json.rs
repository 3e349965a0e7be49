use melodium_libs::data::StringMap;
use melodium_libs::json::text::validate;
use melodium_libs::json::value::{self, Json, JsonNumber};
use melodium_libs::json::value_streams;

#[test]
fn json_constructors() {
    assert!(matches!(value::null(), Json::Null));
    assert!(matches!(value::from_bool(true), Json::Bool(true)));
    assert!(matches!(value::from_number_i64(-3), Json::Number(JsonNumber::NegInt(-3))));
    assert!(matches!(value::from_number_i64(3), Json::Number(JsonNumber::PosInt(3))));
    assert!(matches!(value::from_number_u64(7), Json::Number(JsonNumber::PosInt(7))));
    match value::from_string("text".to_string()) {
        Json::String(s) => assert_eq!(s, "text"),
        _ => panic!("not a string"),
    }
    assert!(matches!(value::from_option_bool(None), Json::Null));
    assert!(matches!(value::from_option_number_u64(Some(1)), Json::Number(JsonNumber::PosInt(1))));
}

#[test]
fn json_object_of_string_map() {
    let map = StringMap { entries: vec![("a".to_string(), "1".to_string()), ("b".to_string(), "2".to_string())] };
    match value::from_string_map(&map) {
        Json::Object(members) => {
            assert_eq!(members.len(), 2);
            assert_eq!(members[0].0, "a");
            assert!(matches!(&members[1].1, Json::String(s) if s == "2"));
        },
        _ => panic!("not an object"),
    }
}

#[test]
fn json_tests_and_conversions() {
    let s = value::from_string("x".to_string());
    assert!(value::is_string(&s));
    assert!(!value::is_number(&s));
    assert_eq!(s.try_to_string(), Some("x".to_string()));
    assert_eq!(s.try_to_bool(), None);
    let n = value::from_number_i64(-5);
    assert!(value::is_i64(&n));
    assert!(!value::is_u64(&n));
    assert_eq!(n.try_to_i64(), Some(-5));
    assert_eq!(n.try_to_u64(), None);
    let p = value::from_number_u64(u64::MAX);
    assert!(!value::is_i64(&p));
    assert_eq!(p.try_to_i64(), None);
    assert!(value::is_null(&value::null()));
}

#[test]
fn json_streams() {
    let v = value_streams::null(3);
    assert_eq!(v.len(), 3);
    let v = value_streams::from_bool(&vec![true, false]);
    assert!(matches!(v[1], Json::Bool(false)));
}

#[test]
fn json_text_validation() {
    let r = validate(&vec!["{\"a\": [1, 2]}".to_string(), "{".to_string(), "null".to_string()]);
    assert_eq!(r, vec![true, false, true]);
}
