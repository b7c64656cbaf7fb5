use agent::json::{
    compact_json, from_value, insert_member, parse_json, pretty_json, remove_member, to_value, Json,
};

fn text(value: &str) -> Json {
    Json::Text(value.to_string())
}

fn key(value: &str) -> String {
    value.to_string()
}

#[test]
fn documents_are_read_in_order() {
    let json = parse_json(" {\"z\": [1, -2.5, \"x\"], \"a\": {\"t\": true, \"n\": null}} ").unwrap();
    let members = match &json {
        Json::Object(members) => members,
        _ => panic!("not an object"),
    };
    assert_eq!(members[0].0, "z");
    assert_eq!(members[1].0, "a");
    assert_eq!(json.get("z").unwrap().as_array().unwrap().len(), 3);
    assert_eq!(json.get("z").unwrap().as_array().unwrap()[2].as_text(), Some("x"));
    assert_eq!(json.get("a").unwrap().get("t"), Some(&Json::Bool(true)));
    assert_eq!(json.get("a").unwrap().get("n"), Some(&Json::Null));
    assert_eq!(json.get("missing"), None);
    assert_eq!(text("x").get("x"), None);
    assert_eq!(Json::Null.as_text(), None);
    assert!(Json::Null.as_array().is_none());
}

#[test]
fn bad_documents_are_refused() {
    for document in ["", "{", "{\"a\":}", "[1,]", "nul", "\"open"] {
        assert!(parse_json(document).is_err());
    }
}

#[test]
fn documents_are_written_as_read() {
    let document = "{\"z\":[1,-2.5,\"x\\n\",18446744073709551615],\"a\":{\"t\":true,\"n\":null}}";
    let json = parse_json(document).unwrap();
    assert_eq!(compact_json(&json).unwrap(), document);
    assert_eq!(pretty_json(&Json::Array(vec![text("é")])), "[\n  \"é\"\n]");
    assert_eq!(pretty_json(&Json::Object(vec![])), "{}");
}

#[test]
fn values_go_both_ways() {
    let value: serde_json::Value =
        serde_json::from_str("{\"b\":[{\"c\":1e3},false],\"a\":\"\"}").unwrap();
    let json = from_value(value.clone());
    assert_eq!(to_value(&json), value);
    assert_eq!(from_value(serde_json::Value::Null), Json::Null);
    assert_eq!(from_value(serde_json::Value::Bool(true)), Json::Bool(true));
}

#[test]
fn the_last_of_repeated_keys_counts() {
    let json = parse_json("{\"a\":1,\"b\":2,\"a\":3}").unwrap();
    assert_eq!(compact_json(&json).unwrap(), "{\"a\":3,\"b\":2}");
}

/// The same edits on the map of the JSON crate give the same order.
#[test]
fn members_are_edited_as_in_the_map() {
    let document = "{\"a\":1,\"b\":2,\"c\":3,\"d\":4}";
    for (removed, inserted) in [("a", "b"), ("d", "e"), ("x", "a"), ("b", "d")] {
        let mut value: serde_json::Value = serde_json::from_str(document).unwrap();
        let map = value.as_object_mut().unwrap();
        map.remove(removed);
        map.insert(key(inserted), serde_json::Value::Null);
        let mut json = parse_json(document).unwrap();
        if let Json::Object(members) = &mut json {
            remove_member(members, removed);
            insert_member(members, key(inserted), Json::Null);
        }
        assert_eq!(compact_json(&json).unwrap(), serde_json::to_string(&value).unwrap());
    }
}

#[test]
fn members_move_when_one_is_removed() {
    let mut members = vec![(key("a"), Json::Null), (key("b"), text("b")), (key("c"), text("c"))];
    remove_member(&mut members, "a");
    assert_eq!(members, vec![(key("c"), text("c")), (key("b"), text("b"))]);
    insert_member(&mut members, key("b"), text("new"));
    insert_member(&mut members, key("d"), text("d"));
    assert_eq!(
        members,
        vec![(key("c"), text("c")), (key("b"), text("new")), (key("d"), text("d"))]
    );
}
