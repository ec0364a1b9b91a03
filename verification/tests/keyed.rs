use pedalboard_bridge::keyed::{get, put};

#[test]
fn put_then_get() {
    let mut entries: Vec<(String, u8)> = Vec::new();
    assert_eq!(get(&entries, "a"), None);
    put(&mut entries, "a".to_string(), 1);
    put(&mut entries, "b".to_string(), 2);
    put(&mut entries, "a".to_string(), 3);
    assert_eq!(get(&entries, "a"), Some(&3));
    assert_eq!(get(&entries, "b"), Some(&2));
    assert_eq!(get(&entries, "c"), None);
    assert_eq!(entries.len(), 2);
}
