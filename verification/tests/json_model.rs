use rank2collection::json::{JsonNumber, JsonValue};

fn s(text: &str) -> String {
    text.to_string()
}

fn sample() -> JsonValue {
    JsonValue::Object(vec![
        (s("id"), JsonValue::Number(JsonNumber::PosInt(56190))),
        (s("name"), JsonValue::Str(s("list"))),
        (s("data"), JsonValue::Array(vec![JsonValue::Bool(true), JsonValue::Null])),
        (s("id"), JsonValue::Number(JsonNumber::PosInt(7))),
    ])
}

#[test]
fn get_finds_first_member_with_key() {
    let v = sample();
    match v.get("id") {
        Some(JsonValue::Number(JsonNumber::PosInt(n))) => assert_eq!(*n, 56190),
        other => panic!("unexpected {:?}", other),
    }
    assert!(matches!(v.get("name"), Some(JsonValue::Str(t)) if t == "list"));
}

#[test]
fn get_missing_key_or_non_object_is_none() {
    let v = sample();
    assert!(v.get("uuid").is_none());
    assert!(JsonValue::Null.get("id").is_none());
    assert!(JsonValue::Array(vec![]).get("id").is_none());
}

#[test]
fn at_reads_array_elements_in_range_only() {
    let v = sample();
    let data = v.get("data").unwrap();
    assert!(matches!(data.at(0), Some(JsonValue::Bool(true))));
    assert!(matches!(data.at(1), Some(JsonValue::Null)));
    assert!(data.at(2).is_none());
    assert!(v.at(0).is_none());
}

#[test]
fn as_u64_only_for_non_negative_integers() {
    assert_eq!(JsonValue::Number(JsonNumber::PosInt(42)).as_u64(), Some(42));
    assert_eq!(JsonValue::Number(JsonNumber::NegInt(-3)).as_u64(), None);
    assert_eq!(JsonValue::Number(JsonNumber::Float(s("1.5"))).as_u64(), None);
    assert_eq!(JsonValue::Str(s("42")).as_u64(), None);
    assert_eq!(JsonValue::Null.as_u64(), None);
}
