use mine::storage::StorageMap;

#[test]
fn storage_map_starts_empty() {
    let map: StorageMap<u32> = StorageMap::new();
    assert_eq!(map.get(&"a".to_string()), None);
    assert!(!map.contains_key(&"a".to_string()));
    assert!(!map.contains_key(&"".to_string()));
}

#[test]
fn storage_map_insert_then_get() {
    let mut map: StorageMap<u32> = StorageMap::new();
    map.insert("a".to_string(), 1);
    map.insert("b".to_string(), 2);
    map.insert("".to_string(), 3);
    assert_eq!(map.get(&"a".to_string()), Some(&1));
    assert_eq!(map.get(&"b".to_string()), Some(&2));
    assert_eq!(map.get(&"".to_string()), Some(&3));
    assert_eq!(map.get(&"c".to_string()), None);
    assert!(map.contains_key(&"a".to_string()));
    assert!(!map.contains_key(&"A".to_string()));
}

#[test]
fn storage_map_insert_replaces() {
    let mut map: StorageMap<u32> = StorageMap::new();
    map.insert("a".to_string(), 1);
    map.insert("b".to_string(), 2);
    map.insert("a".to_string(), 10);
    assert_eq!(map.get(&"a".to_string()), Some(&10));
    assert_eq!(map.get(&"b".to_string()), Some(&2));
    // the replaced entry is one entry still
    assert_eq!(map.remove(&"a".to_string()), Some(10));
    assert_eq!(map.get(&"a".to_string()), None);
}

#[test]
fn storage_map_remove() {
    let mut map: StorageMap<String> = StorageMap::new();
    map.insert("a".to_string(), "x".to_string());
    map.insert("b".to_string(), "y".to_string());
    map.insert("c".to_string(), "z".to_string());
    assert_eq!(map.remove(&"b".to_string()), Some("y".to_string()));
    assert_eq!(map.remove(&"b".to_string()), None);
    assert_eq!(map.get(&"a".to_string()), Some(&"x".to_string()));
    assert_eq!(map.get(&"b".to_string()), None);
    assert_eq!(map.get(&"c".to_string()), Some(&"z".to_string()));
    assert_eq!(map.remove(&"a".to_string()), Some("x".to_string()));
    assert_eq!(map.remove(&"c".to_string()), Some("z".to_string()));
    assert!(!map.contains_key(&"c".to_string()));
    map.insert("b".to_string(), "w".to_string());
    assert_eq!(map.get(&"b".to_string()), Some(&"w".to_string()));
}
