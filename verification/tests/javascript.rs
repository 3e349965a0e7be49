use melodium_libs::javascript::{process, Processed};
use melodium_libs::json::value::Json;

#[test]
fn processing_stops_when_the_engine_is_gone() {
    let r = process(vec![
        Processed::Result(Json::Bool(true)),
        Processed::Error("result is `undefined`".to_string()),
        Processed::Gone,
        Processed::Result(Json::Null),
    ]);
    assert_eq!(r.len(), 2);
    assert!(matches!(r[0], Some(Json::Bool(true))));
    assert!(r[1].is_none());
    assert!(process(vec![]).is_empty());
}
