use user_store::{Record, RecordError, Storage, Store};

fn record(text: &str) -> Record {
    match Record::from_json(text.to_string()) {
        Ok(r) => r,
        Err(_) => panic!("not a JSON object: {}", text),
    }
}

fn empty() -> Storage {
    Storage::new(Store::new())
}

#[test]
fn get_on_fresh_store_is_none() {
    let s = empty();
    assert!(matches!(s.get(), Ok(None)));
}

#[test]
fn set_then_get_gives_record_back() {
    let mut s = empty();
    let r = record(r#"{"name":"bob","id":7}"#);
    assert!(s.set(&r).is_ok());
    let got = s.get().unwrap().unwrap();
    assert_eq!(got.as_json(), r#"{"name":"bob","id":7}"#);
}

#[test]
fn get_after_delete_is_none() {
    let mut s = empty();
    s.set(&record(r#"{"name":"carol"}"#)).unwrap();
    s.delete().unwrap();
    assert!(matches!(s.get(), Ok(None)));
}

#[test]
fn delete_without_record_is_noop() {
    let mut store = Store::new();
    store.write("settings.json", "{}".to_string());
    let mut s = Storage::new(store);
    assert!(s.delete().is_ok());
    assert!(matches!(s.get(), Ok(None)));
    assert!(s.delete().is_ok());
    let store = s.into_store();
    assert_eq!(store.read("settings.json"), Some("{}".to_string()));
    assert_eq!(store.read("user.json"), None);
}

#[test]
fn second_set_overwrites_first() {
    let mut s = empty();
    s.set(&record(r#"{"name":"alice","admin":true}"#)).unwrap();
    s.set(&record(r#"{"name":"dave"}"#)).unwrap();
    let got = s.get().unwrap().unwrap();
    assert_eq!(got.as_json(), r#"{"name":"dave"}"#);
}

#[test]
fn malformed_slot_is_decode_error() {
    let mut store = Store::new();
    store.write("user.json", "not json at all".to_string());
    let s = Storage::new(store);
    assert!(matches!(s.get(), Err(RecordError::Decode(_))));
}

#[test]
fn non_object_slot_is_decode_error() {
    let mut store = Store::new();
    store.write("user.json", "[1, 2, 3]".to_string());
    let s = Storage::new(store);
    assert!(matches!(s.get(), Err(RecordError::Decode(_))));
}

#[test]
fn empty_slot_text_is_decode_error() {
    let mut store = Store::new();
    store.write("user.json", String::new());
    let s = Storage::new(store);
    assert!(matches!(s.get(), Err(RecordError::Decode(_))));
}

#[test]
fn alice_scenario() {
    let mut s = empty();
    assert!(matches!(s.get(), Ok(None)));
    s.set(&record(r#"{"name":"alice"}"#)).unwrap();
    let got = s.get().unwrap().unwrap();
    assert_eq!(got.as_json(), r#"{"name":"alice"}"#);
    s.delete().unwrap();
    assert!(matches!(s.get(), Ok(None)));
}

#[test]
fn set_writes_record_text_under_fixed_key() {
    let mut s = empty();
    s.set(&record(r#"{"name":"erin"}"#)).unwrap();
    assert_eq!(s.store().read("user.json"), Some(r#"{"name":"erin"}"#.to_string()));
}

#[test]
fn set_leaves_other_keys_alone() {
    let mut store = Store::new();
    store.write("other.json", "x".to_string());
    let mut s = Storage::new(store);
    s.set(&record("{}")).unwrap();
    s.delete().unwrap();
    assert_eq!(s.store().read("other.json"), Some("x".to_string()));
}
