use mc_gateway::json::Json;

fn parsed(text: &str) -> serde_json::Value {
    serde_json::from_str(text).unwrap()
}

/// A document whose objects are open.
fn document(value: serde_json::Value) -> Json {
    match value {
        serde_json::Value::Object(members) => {
            Json::Object(members.into_iter().map(|(name, value)| (name, document(value))).collect())
        }
        other => Json::Other(other),
    }
}

fn opened(text: &str) -> Json {
    document(parsed(text))
}

#[test]
fn texts_of_documents() {
    assert_eq!(opened("{}").text(), "{}");
    assert_eq!(opened("[1, 2.5, null]").text(), "[1,2.5,null]");
    assert_eq!(opened("\"q\\\"\"").text(), "\"q\\\"\"");
    assert_eq!(Json::Number(-3).text(), "-3");
    assert_eq!(Json::Number(i64::MAX).text(), "9223372036854775807");
    assert_eq!(
        opened("{\"z\": {\"y\": [true], \"a\": 1}, \"b\": \"c\"}").text(),
        "{\"b\":\"c\",\"z\":{\"a\":1,\"y\":[true]}}"
    );
}

#[test]
fn texts_are_those_of_the_values() {
    for text in [
        "{\"version\": {\"name\": \"1.21\", \"protocol\": 767}, \"players\": {\"max\": 20}}",
        "{\"description\": {\"text\": \"h\u{e9}llo\\n\\u0001\"}, \"\": {}}",
        "{\"a\\\"b\": [{\"n\": {\"m\": {}}}], \"f\": 1e30}",
    ] {
        assert_eq!(opened(text).text(), serde_json::to_string(&parsed(text)).unwrap());
    }
}

#[test]
fn copies_are_the_same() {
    let text = "{\"a\":{\"b\":[1],\"c\":{}},\"d\":null}";
    assert_eq!(opened(text).copy().text(), text);
    assert_eq!(Json::Number(9).copy().text(), "9");
}

#[test]
fn versions() {
    assert!(opened("{\"version\": {}}").has_version());
    assert!(!opened("{\"version\": 1}").has_version());
    assert!(!opened("{\"Version\": {}}").has_version());
    assert!(!opened("{}").has_version());
    assert!(!opened("[]").has_version());
    assert!(!Json::Number(1).has_version());
}

#[test]
fn a_member_that_was_set_is_found() {
    let changed = opened("{\"a\": 1, \"b\": 2}").set_member("a".to_string(), Json::Number(7));
    assert_eq!(changed.text(), "{\"a\":7,\"b\":2}");
    let changed = opened("{\"a\": 1}").set_member("b".to_string(), Json::Number(7));
    assert_eq!(changed.text(), "{\"a\":1,\"b\":7}");
}

#[test]
fn only_objects_have_members() {
    let same = opened("[1]").set_member("a".to_string(), Json::Number(7));
    assert_eq!(same.text(), "[1]");
}

#[test]
fn faked_protocols() {
    let status = opened(
        "{\"version\": {\"name\": \"any\", \"protocol\": 1}, \"players\": {\"max\": 3}}",
    );
    assert_eq!(
        status.with_protocol(767).text(),
        "{\"players\":{\"max\":3},\"version\":{\"name\":\"any\",\"protocol\":767}}"
    );
    assert_eq!(
        opened("{\"version\": {}}").with_protocol(-1).text(),
        "{\"version\":{\"protocol\":-1}}"
    );
    assert_eq!(
        status.text(),
        "{\"players\":{\"max\":3},\"version\":{\"name\":\"any\",\"protocol\":1}}"
    );
}

#[test]
fn names_are_written_once() {
    let once = opened("{\"a\": 1}")
        .set_member("b".to_string(), Json::Number(1))
        .set_member("a".to_string(), Json::Number(2))
        .set_member("b".to_string(), Json::Number(3));
    assert_eq!(once.text(), "{\"a\":2,\"b\":3}");
    let twice = opened("{\"version\": {\"protocol\": 4}}").with_protocol(5).with_protocol(6);
    assert_eq!(twice.text(), "{\"version\":{\"protocol\":6}}");
}
