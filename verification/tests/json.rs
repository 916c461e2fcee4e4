use inference_gateway::json::{
    as_array, as_bool, as_str, as_u64, first, get, parse_json, str_or_empty, Json,
};

#[test]
fn documents_are_read() {
    let doc = parse_json(r#"{"b":[1,-2,1.5,null,true,"x"],"a":{"n":18446744073709551615}}"#).unwrap();
    let items = as_array(get(Some(&doc), "b")).unwrap();
    assert_eq!(items[0], Json::Unsigned(1));
    assert_eq!(items[1], Json::Decimal("-2".to_string()));
    assert_eq!(items[2], Json::Decimal("1.5".to_string()));
    assert_eq!(items[3], Json::Null);
    assert_eq!(items[4], Json::Bool(true));
    assert_eq!(items[5], Json::Text("x".to_string()));
    assert_eq!(as_u64(get(get(Some(&doc), "a"), "n")), Some(u64::MAX));
}

#[test]
fn faults_are_reported_in_words() {
    assert_eq!(
        parse_json("[DONE]").unwrap_err(),
        "expected value at line 1 column 2"
    );
    assert!(parse_json("").is_err());
}

#[test]
fn parts_that_are_not_there_are_none() {
    let doc = parse_json(r#"{"flag":false,"empty":[],"text":"t"}"#).unwrap();
    assert_eq!(as_bool(get(Some(&doc), "flag")), Some(false));
    assert_eq!(as_bool(get(Some(&doc), "text")), None);
    assert_eq!(first(get(Some(&doc), "empty")), None);
    assert_eq!(get(get(Some(&doc), "text"), "x"), None);
    assert_eq!(as_str(get(Some(&doc), "missing")), None);
    assert_eq!(str_or_empty(get(Some(&doc), "flag")), "");
    assert_eq!(str_or_empty(get(Some(&doc), "text")), "t");
    assert_eq!(doc.clone(), doc);
}
