use user_store::{Record, RecordError};

#[test]
fn from_json_accepts_object() {
    let r = Record::from_json(r#"{"name":"alice"}"#.to_string()).unwrap();
    assert_eq!(r.as_json(), r#"{"name":"alice"}"#);
    assert_eq!(r.to_json(), r#"{"name":"alice"}"#.to_string());
}

#[test]
fn from_json_accepts_nested_object_with_spaces() {
    let text = " { \"a\" : [1, {\"b\": null}] } ";
    let r = Record::from_json(text.to_string()).unwrap();
    assert_eq!(r.as_json(), text);
}

#[test]
fn from_json_rejects_non_json() {
    assert!(matches!(Record::from_json("hello".to_string()), Err(RecordError::Decode(_))));
}

#[test]
fn from_json_rejects_non_objects() {
    for text in ["42", "\"s\"", "[]", "null", "true"] {
        assert!(matches!(Record::from_json(text.to_string()), Err(RecordError::Decode(_))));
    }
}

#[test]
fn from_json_rejects_trailing_text() {
    assert!(Record::from_json("{} {}".to_string()).is_err());
    assert!(Record::from_json("{\"a\":1".to_string()).is_err());
}
