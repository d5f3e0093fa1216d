use anor_storage::string_map::StringMap;

#[test]
fn new_map_is_empty() {
    let map = StringMap::<u32>::new();
    assert!(map.is_empty());
    assert_eq!(map.len(), 0);
    assert!(map.keys().is_empty());
    assert_eq!(map.get("a"), None);
    assert!(!map.contains_key("a"));
}

#[test]
fn insert_adds_or_overwrites() {
    let mut map = StringMap::<u32>::new();
    map.insert("a".to_string(), 1);
    map.insert("b".to_string(), 2);
    map.insert("a".to_string(), 3);
    assert_eq!(map.len(), 2);
    assert!(!map.is_empty());
    assert_eq!(map.get("a"), Some(&3));
    assert_eq!(map.get("b"), Some(&2));
    assert!(map.contains_key("a"));
    assert_eq!(map.keys(), vec!["a".to_string(), "b".to_string()]);
}

#[test]
fn keys_differ_by_case_and_length() {
    let mut map = StringMap::<u32>::new();
    map.insert("key".to_string(), 1);
    map.insert("Key".to_string(), 2);
    map.insert("key ".to_string(), 3);
    map.insert("".to_string(), 4);
    assert_eq!(map.len(), 4);
    assert_eq!(map.get("key"), Some(&1));
    assert_eq!(map.get("Key"), Some(&2));
    assert_eq!(map.get("key "), Some(&3));
    assert_eq!(map.get(""), Some(&4));
}

#[test]
fn remove_returns_the_value() {
    let mut map = StringMap::<u32>::new();
    map.insert("a".to_string(), 1);
    map.insert("b".to_string(), 2);
    map.insert("c".to_string(), 3);
    assert_eq!(map.remove("b"), Some(2));
    assert_eq!(map.remove("b"), None);
    assert_eq!(map.len(), 2);
    assert_eq!(map.get("a"), Some(&1));
    assert_eq!(map.get("c"), Some(&3));
    assert_eq!(map.keys(), vec!["a".to_string(), "c".to_string()]);
}

#[test]
fn get_mut_writes_through() {
    let mut map = StringMap::<Vec<u8>>::new();
    map.insert("a".to_string(), vec![1]);
    map.get_mut("a").unwrap().push(2);
    assert_eq!(map.get("a"), Some(&vec![1, 2]));
    assert!(map.get_mut("b").is_none());
}

#[test]
fn clear_removes_every_entry() {
    let mut map = StringMap::<u32>::new();
    map.insert("a".to_string(), 1);
    map.insert("b".to_string(), 2);
    map.clear();
    assert!(map.is_empty());
    assert_eq!(map.get("a"), None);
}

#[test]
fn clone_has_the_same_entries() {
    let mut map = StringMap::<String>::new();
    map.insert("a".to_string(), "x".to_string());
    map.insert("b".to_string(), "y".to_string());
    let mut copy = map.clone();
    assert_eq!(copy.keys(), map.keys());
    assert_eq!(copy.get("a"), Some(&"x".to_string()));
    assert_eq!(copy.get("b"), Some(&"y".to_string()));
    copy.insert("a".to_string(), "z".to_string());
    assert_eq!(map.get("a"), Some(&"x".to_string()));
}
