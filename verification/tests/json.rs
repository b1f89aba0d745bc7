use proxy_runtime::json::{parse_json, Json};

#[test]
fn a_text_is_read_into_its_tree() {
    let v = parse_json(r#"{"a": [null, true, 7, -1, 1.5, "x\n"], "b": {}}"#).unwrap();
    let items = v.items_at("a").unwrap();
    assert!(matches!(items[0], Json::Null));
    assert!(matches!(items[1], Json::Bool(true)));
    assert!(matches!(items[2], Json::Uint(7)));
    assert!(matches!(&items[3], Json::Other(s) if s == "-1"));
    assert!(matches!(&items[4], Json::Other(s) if s == "1.5"));
    assert!(matches!(&items[5], Json::Str(s) if s == "x\n"));
    assert!(matches!(v.get("b").unwrap(), Json::Object(f) if f.is_empty()));
    assert!(v.get("c").is_none());
}

#[test]
fn what_is_no_json_has_no_tree() {
    assert!(parse_json("").is_none());
    assert!(parse_json("{").is_none());
    assert!(parse_json("{} x").is_none());
    assert!(parse_json("{'a': 1}").is_none());
}

#[test]
fn fields_are_replaced_in_place_and_added_otherwise() {
    let v = parse_json(r#"{"a": 1, "b": 2}"#).unwrap();
    let v = v.with_field("a", Json::Uint(5));
    assert!(matches!(v.get("a").unwrap(), Json::Uint(5)));
    assert!(matches!(v.get("b").unwrap(), Json::Uint(2)));
    let v = v.with_field("c", Json::Bool(false));
    assert!(matches!(v.get("c").unwrap().as_truth(), Some(false)));
    let w = v.clone();
    assert!(matches!(w.get("a").unwrap(), Json::Uint(5)));
    assert!(w.get("a").unwrap().as_text().is_none());
    assert!(w.get("a").unwrap().get("x").is_none());
}

#[test]
fn a_field_is_added_where_its_key_belongs() {
    let keys = |v: &Json| match v {
        Json::Object(fields) => fields.iter().map(|f| f.0.clone()).collect::<Vec<String>>(),
        _ => Vec::new(),
    };
    let v = parse_json(r#"{"b": 1, "d": 2}"#).unwrap();
    let v = v.with_field("c", Json::Null).with_field("a", Json::Null).with_field("e", Json::Null);
    assert_eq!(keys(&v), ["a", "b", "c", "d", "e"]);
    assert_eq!(keys(&v.with_field("d", Json::Null)), ["a", "b", "c", "d", "e"]);
    assert!(matches!(Json::Null.with_field("a", Json::Null), Json::Null));
}
