use anor_storage::storage_item::BasicType;
use anor_storage::storage_item::ComplexType;
use anor_storage::storage_item::ItemType;
use anor_storage::storage_item::StorageItem;
use anor_storage::storage_pod::StoragePod;
use std::cell::RefCell;
use std::collections::HashMap;

#[test]
pub fn storage_new_test() {
    let storage = StoragePod::new();
    assert!(storage.keys().is_empty());
}

#[test]
pub fn storage_pod_storage_insert_test() {
    let key = "my_string1";
    let my_string = String::from("abc1");
    let storage_item =
        StorageItem::with_type(key, ItemType::Basic(BasicType::String), &my_string).unwrap();

    let mut storage = StoragePod::new();
    storage.insert(storage_item);

    let keys = storage.keys();
    assert_eq!(keys.len(), 1);
    assert_eq!(keys[0], key);
}

#[test]
pub fn storage_pod_storage_update_test() {
    let key = "my_string2";
    let my_string = String::from("abc2");
    let mut storage_item =
        StorageItem::with_type(key, ItemType::Basic(BasicType::String), &my_string).unwrap();
    storage_item.description = Some("abc".to_string());

    let mut storage = StoragePod::new();
    storage.insert(storage_item);

    assert_eq!(storage.keys().len(), 1);
    let mut item = storage.get(key).unwrap().clone();
    assert_eq!(item.description, Some("abc".to_string()));

    item.description = Some("abcd".to_string());
    storage.insert(item);

    assert_eq!(
        storage.get(key).unwrap().description,
        Some("abcd".to_string())
    );
}

#[test]
pub fn storage_pod_storage_remove_test() {
    let key = "my_string3";
    let my_string = String::from("abc3");
    let storage_item =
        StorageItem::with_type(key, ItemType::Basic(BasicType::String), &my_string).unwrap();

    let mut storage = StoragePod::new();
    storage.insert(storage_item);

    let keys = storage.keys();
    assert_eq!(keys.len(), 1);
    assert_eq!(keys[0], key);

    storage.remove(key);
    assert!(storage.keys().is_empty());
}

#[test]
pub fn storage_pod_storage_clear_test() {
    let key = "my_string4";
    let my_string = String::from("abc4");
    let storage_item =
        StorageItem::with_type(key, ItemType::Basic(BasicType::String), &my_string).unwrap();

    let mut storage = StoragePod::new();
    storage.insert(storage_item);

    let keys = storage.keys();
    assert_eq!(keys.len(), 1);
    assert_eq!(keys[0], key);

    storage.clear();
    assert!(storage.keys().is_empty());
}

#[test]
pub fn storage_pod_storage_object_test() {
    let key = "my_map1";

    let mut my_map1 = HashMap::<String, String>::new();
    my_map1.insert("1".into(), "One".into());
    my_map1.insert("2".into(), "Two".into());
    my_map1.insert("3".into(), "Three".into());

    let storage_type =
        ItemType::Complex(ComplexType::MapOf(BasicType::String, BasicType::String));
    let storage_item = StorageItem::with_type(key, storage_type, &my_map1).unwrap();

    let mut storage = StoragePod::new();
    storage.insert(storage_item);

    let decoded_map1: HashMap<String, String> = storage.get_object(key).unwrap();
    assert_eq!(my_map1, decoded_map1);

    my_map1.insert("4".into(), "Four".into());
    assert!(storage.update_object(key, &my_map1));

    let decoded_map2 = storage.get_object::<HashMap<String, String>>(key).unwrap();
    assert_eq!(my_map1, decoded_map2);
}

#[test]
fn listed_keys_resolve_to_their_items() {
    let mut storage = StoragePod::new();
    for n in 0..20u32 {
        let key = format!("key-{}", n);
        storage.insert(StorageItem::new(&key, &n).unwrap());
    }
    let keys = storage.keys();
    assert_eq!(keys.len(), 20);
    assert_eq!(storage.len(), 20);
    for key in keys.iter() {
        let item = storage.get(key).unwrap();
        assert_eq!(&item.key, key);
    }
    for n in 0..20u32 {
        assert!(keys.contains(&format!("key-{}", n)));
    }
}

#[test]
fn insert_then_get_returns_the_item() {
    let mut storage = StoragePod::new();
    let mut item = StorageItem::new("a", &String::from("first")).unwrap();
    item.set_description("the first");
    item.add_tag("t1");
    item.add_metafield("lang", "en");
    item.version = 7;
    let expected = item.clone();
    storage.insert(item);

    let got = storage.get("a").unwrap();
    assert_eq!(got.id, expected.id);
    assert_eq!(got.key, "a");
    assert_eq!(got.version, 7);
    assert_eq!(got.data, expected.data);
    assert_eq!(got.item_type, ItemType::Custom);
    assert_eq!(got.description, Some("the first".to_string()));
    assert_eq!(got.tags, Some(vec!["t1".to_string()]));
    assert_eq!(
        got.metafields.as_ref().unwrap().get("lang"),
        Some(&"en".to_string())
    );
    assert!(storage.get("b").is_none());
}

#[test]
fn insert_overwrites_the_item_of_the_key() {
    let mut storage = StoragePod::new();
    let first = StorageItem::new("a", &1u32).unwrap();
    let second = StorageItem::new("a", &2u32).unwrap();
    let second_id = second.id.clone();
    storage.insert(first);
    storage.update(second);
    assert_eq!(storage.keys(), vec!["a".to_string()]);
    assert_eq!(storage.get("a").unwrap().id, second_id);
    assert_eq!(storage.get_object::<u32>("a"), Some(2));
}

#[test]
fn remove_leaves_the_other_items() {
    let mut storage = StoragePod::new();
    storage.insert(StorageItem::new("a", &1u32).unwrap());
    storage.insert(StorageItem::new("b", &2u32).unwrap());
    storage.insert(StorageItem::new("c", &3u32).unwrap());
    storage.remove("b");
    assert!(storage.get("b").is_none());
    assert!(!storage.keys().contains(&"b".to_string()));
    assert_eq!(storage.len(), 2);
    assert_eq!(storage.get_object::<u32>("a"), Some(1));
    assert_eq!(storage.get_object::<u32>("c"), Some(3));
    storage.remove("missing");
    assert_eq!(storage.len(), 2);
}

#[test]
fn clear_leaves_no_key() {
    let mut storage = StoragePod::new();
    storage.insert(StorageItem::new("a", &1u32).unwrap());
    storage.insert(StorageItem::new("b", &2u32).unwrap());
    storage.clear();
    assert!(storage.keys().is_empty());
    assert_eq!(storage.len(), 0);
    assert!(storage.get("a").is_none());
}

#[test]
fn get_mut_changes_the_stored_item() {
    let mut storage = StoragePod::new();
    storage.insert(StorageItem::new("a", &1u32).unwrap());
    {
        let item = storage.get_mut("a").unwrap();
        item.version = 3;
        item.set_description("changed");
    }
    assert_eq!(storage.get("a").unwrap().version, 3);
    assert_eq!(
        storage.get("a").unwrap().description,
        Some("changed".to_string())
    );
    assert!(storage.get_mut("b").is_none());
}

#[test]
fn update_object_of_a_missing_key_changes_nothing() {
    let mut storage = StoragePod::new();
    storage.insert(StorageItem::new("a", &1u32).unwrap());
    assert!(!storage.update_object("b", &5u32));
    assert_eq!(storage.keys(), vec!["a".to_string()]);
    assert_eq!(storage.get_object::<u32>("a"), Some(1));
    assert_eq!(storage.get_object::<u32>("b"), None);
}

#[test]
fn update_object_keeps_identity_and_version() {
    let mut storage = StoragePod::new();
    let item = StorageItem::new("a", &String::from("abc")).unwrap();
    let id = item.id.clone();
    storage.insert(item);
    assert!(storage.update_object("a", &String::from("abcdef")));
    let got = storage.get("a").unwrap();
    assert_eq!(got.id, id);
    assert_eq!(got.version, 0);
    assert_eq!(storage.get_object::<String>("a"), Some("abcdef".to_string()));
}

#[test]
fn replace_object_without_bytes_reports_the_key() {
    let mut storage = StoragePod::new();
    let item = StorageItem::new("a", &9u32).unwrap();
    let data = item.data.clone();
    storage.insert(item);
    assert!(storage.replace_object("a", None));
    assert_eq!(storage.get("a").unwrap().data, data);
    assert!(storage.replace_object("a", Some(vec![1, 2, 3])));
    assert_eq!(storage.get("a").unwrap().data, vec![1, 2, 3]);
    assert!(!storage.replace_object("b", Some(vec![1])));
}

#[test]
fn update_via_inner_object_grows_the_map() {
    let mut map = HashMap::<u8, String>::new();
    map.insert(1, "One".into());
    map.insert(2, "Two".into());
    map.insert(3, "Three".into());
    let item_type = ItemType::Complex(ComplexType::MapOf(BasicType::U8, BasicType::String));
    let mut storage = StoragePod::default();
    storage.insert(StorageItem::with_type("my_map", item_type, &map).unwrap());

    map.insert(4, "Four".into());
    assert!(storage.update_object("my_map", &map));
    let got: HashMap<u8, String> = storage.get_object("my_map").unwrap();
    assert_eq!(got.len(), 4);
    assert_eq!(got, map);
}

#[test]
fn update_object_that_bincode_refuses_fails_and_keeps_the_item() {
    let mut storage = StoragePod::new();
    let item = StorageItem::new("a", &1u32).unwrap();
    let (id, data) = (item.id.clone(), item.data.clone());
    storage.insert(item);
    let cell = RefCell::new(2u32);
    let borrowed = cell.borrow_mut();
    assert!(!storage.update_object("a", &cell));
    assert!(!storage.update_object("b", &cell));
    assert_eq!(storage.keys(), vec!["a".to_string()]);
    assert_eq!(storage.get("a").unwrap().id, id);
    assert_eq!(storage.get("a").unwrap().data, data);
    drop(borrowed);
    assert_eq!(storage.get_object::<u32>("a"), Some(1));
    assert!(storage.update_object("a", &cell));
    assert_eq!(storage.get_object::<u32>("a"), Some(2));
}
