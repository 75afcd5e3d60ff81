use user_store::Store;

#[test]
fn read_missing_key_is_none() {
    let s = Store::new();
    assert_eq!(s.read("a"), None);
}

#[test]
fn write_then_read() {
    let mut s = Store::new();
    s.write("a", "one".to_string());
    s.write("b", "two".to_string());
    assert_eq!(s.read("a"), Some("one".to_string()));
    assert_eq!(s.read("b"), Some("two".to_string()));
}

#[test]
fn write_replaces() {
    let mut s = Store::new();
    s.write("a", "one".to_string());
    s.write("a", "uno".to_string());
    assert_eq!(s.read("a"), Some("uno".to_string()));
    s.delete("a");
    assert_eq!(s.read("a"), None);
}

#[test]
fn delete_only_touches_its_key() {
    let mut s = Store::new();
    s.write("a", "one".to_string());
    s.write("b", "two".to_string());
    s.delete("a");
    s.delete("zzz");
    assert_eq!(s.read("a"), None);
    assert_eq!(s.read("b"), Some("two".to_string()));
}
