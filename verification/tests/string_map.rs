use security_core::string_map::StringMap;

#[test]
fn string_map_insert_get_remove() {
    let mut map: StringMap<u32> = StringMap::new();
    assert_eq!(map.len(), 0);
    assert_eq!(map.insert("a".to_string(), 1), None);
    assert_eq!(map.insert("b".to_string(), 2), None);
    assert_eq!(map.insert("a".to_string(), 3), Some(1));
    assert_eq!(map.len(), 2);
    assert_eq!(map.get("a"), Some(&3));
    assert_eq!(map.get("b"), Some(&2));
    assert_eq!(map.get("c"), None);
    assert!(map.contains_key("b"));
    assert!(!map.contains_key("c"));
    assert_eq!(map.remove("a"), Some(3));
    assert_eq!(map.remove("a"), None);
    assert_eq!(map.len(), 1);
    assert_eq!(map.get("b"), Some(&2));
}

#[test]
fn string_map_get_mut_changes_the_value_in_place() {
    let mut map: StringMap<u32> = StringMap::new();
    map.insert("a".to_string(), 1);
    map.insert("b".to_string(), 2);
    if let Some(v) = map.get_mut("b") {
        *v = 20;
    }
    assert!(map.get_mut("zz").is_none());
    assert_eq!(map.get("a"), Some(&1));
    assert_eq!(map.get("b"), Some(&20));
}

#[test]
fn string_map_keys_lists_each_key_once() {
    let mut map: StringMap<u32> = StringMap::new();
    map.insert("x".to_string(), 1);
    map.insert("y".to_string(), 2);
    map.insert("x".to_string(), 3);
    map.remove("y");
    map.insert("z".to_string(), 4);
    let mut keys = map.keys();
    keys.sort();
    assert_eq!(keys, vec!["x".to_string(), "z".to_string()]);
}
