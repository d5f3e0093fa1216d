use anor_storage::storage_item::BasicType;
use anor_storage::storage_item::ComplexType;
use anor_storage::storage_item::ItemType;
use anor_storage::storage_item::StorageItem;
use anor_storage::storage_persistence::StoragePersistence;
use std::cell::RefCell;
use std::collections::HashMap;

fn assert_is_random_id(id: &str) {
    let chars: Vec<char> = id.chars().collect();
    assert_eq!(chars.len(), 36);
    for (i, c) in chars.iter().enumerate() {
        if i == 8 || i == 13 || i == 18 || i == 23 {
            assert_eq!(*c, '-');
        } else {
            assert!(c.is_ascii_digit() || ('a'..='f').contains(c));
        }
    }
    assert_eq!(chars[14], '4');
    assert!(matches!(chars[19], '8' | '9' | 'a' | 'b'));
}

#[test]
fn new_item_has_defaults() {
    let item = StorageItem::new("s", &String::from("abc")).unwrap();
    assert_eq!(item.key, "s");
    assert_eq!(item.version, 0);
    assert_eq!(item.data, vec![3, 97, 98, 99]);
    assert_eq!(item.item_type, ItemType::Custom);
    assert_eq!(item.description, None);
    assert_eq!(item.tags, None);
    assert!(item.metafields.is_none());
    assert_eq!(item.expires_on, None);
    assert_eq!(item.persistence, StoragePersistence::Memory);
    assert_eq!(item.redundancy, 0);
    assert_is_random_id(&item.id);
}

#[test]
fn item_with_type_keeps_the_type() {
    let item_type = ItemType::Complex(ComplexType::Array(BasicType::U16));
    let item = StorageItem::with_type("list", item_type, &vec![1u16, 2, 3]).unwrap();
    assert_eq!(item.key, "list");
    assert_eq!(item.item_type, item_type);
    assert_eq!(item.version, 0);
    assert_eq!(item.data, vec![3, 1, 2, 3]);
    assert_eq!(item.persistence, StoragePersistence::Memory);
    assert_is_random_id(&item.id);
}

#[test]
fn item_with_id_carries_what_it_is_given() {
    let item = StorageItem::with_id(
        "k",
        ItemType::Basic(BasicType::Bool),
        "my-id".to_string(),
        vec![1],
    );
    assert_eq!(item.id, "my-id");
    assert_eq!(item.key, "k");
    assert_eq!(item.data, vec![1]);
    assert_eq!(item.item_type, ItemType::Basic(BasicType::Bool));
    assert_eq!(item.version, 0);
    assert_eq!(item.get_object::<bool>(), Some(true));
}

#[test]
fn two_items_have_two_identities() {
    let a = StorageItem::new("k", &1u8).unwrap();
    let b = StorageItem::new("k", &1u8).unwrap();
    assert_ne!(a.id, b.id);
}

#[test]
fn object_round_trip() {
    let item = StorageItem::new("s", &String::from("abc")).unwrap();
    assert_eq!(item.get_object::<String>(), Some("abc".to_string()));

    let mut map = HashMap::<String, String>::new();
    map.insert("1".into(), "One".into());
    map.insert("2".into(), "Two".into());
    let item = StorageItem::new("m", &map).unwrap();
    assert_eq!(item.get_object::<HashMap<String, String>>(), Some(map));

    let item = StorageItem::new("n", &(-17i64, 3.5f64, 'x')).unwrap();
    assert_eq!(item.get_object::<(i64, f64, char)>(), Some((-17, 3.5, 'x')));
}

#[test]
fn object_of_another_type_is_none() {
    let item = StorageItem::new("s", &String::from("abc")).unwrap();
    assert_eq!(item.get_object::<(u64, u64, u64, u64, u64)>(), None);
}

#[test]
fn update_object_replaces_the_data_only() {
    let mut item = StorageItem::new("s", &String::from("abc")).unwrap();
    item.version = 4;
    item.set_description("text");
    let id = item.id.clone();
    assert!(item.update_object(&String::from("abcdef")));
    assert_eq!(item.data, vec![6, 97, 98, 99, 100, 101, 102]);
    assert_eq!(item.get_object::<String>(), Some("abcdef".to_string()));
    assert_eq!(item.id, id);
    assert_eq!(item.key, "s");
    assert_eq!(item.version, 4);
    assert_eq!(item.description, Some("text".to_string()));
}

#[test]
fn replace_data_without_bytes_keeps_the_item() {
    let mut item = StorageItem::new("s", &7u8).unwrap();
    assert!(!item.replace_data(None));
    assert_eq!(item.data, vec![7]);
    assert!(item.replace_data(Some(vec![8])));
    assert_eq!(item.data, vec![8]);
    assert_eq!(item.get_object::<u8>(), Some(8));
}

#[test]
fn description_is_set_and_replaced() {
    let mut item = StorageItem::new("s", &7u8).unwrap();
    item.set_description("My sample spelling dictionary");
    assert_eq!(
        item.description,
        Some("My sample spelling dictionary".to_string())
    );
    item.set_description("");
    assert_eq!(item.description, Some(String::new()));
}

#[test]
fn tags_are_appended_in_order() {
    let mut item = StorageItem::new("s", &7u8).unwrap();
    item.add_tag("dictionary");
    assert_eq!(item.tags, Some(vec!["dictionary".to_string()]));
    item.add_tag("en");
    item.add_tag("dictionary");
    assert_eq!(
        item.tags,
        Some(vec![
            "dictionary".to_string(),
            "en".to_string(),
            "dictionary".to_string()
        ])
    );
}

#[test]
fn metafields_are_inserted_and_overwritten() {
    let mut item = StorageItem::new("s", &7u8).unwrap();
    item.add_metafield("language", "en");
    {
        let fields = item.metafields.as_ref().unwrap();
        assert_eq!(fields.len(), 1);
        assert_eq!(fields.get("language"), Some(&"en".to_string()));
    }
    item.add_metafield("author", "me");
    item.add_metafield("language", "de");
    let fields = item.metafields.as_ref().unwrap();
    assert_eq!(fields.len(), 2);
    assert_eq!(fields.get("language"), Some(&"de".to_string()));
    assert_eq!(fields.get("author"), Some(&"me".to_string()));
    assert_eq!(fields.get("missing"), None);
}

#[test]
fn clone_is_the_same_item() {
    let mut item = StorageItem::new("s", &String::from("abc")).unwrap();
    item.version = 2;
    item.set_description("d");
    item.add_tag("t");
    item.add_metafield("k", "v");
    item.expires_on = Some(1_700_000_000);
    item.persistence = StoragePersistence::Hybrid;
    item.redundancy = 3;
    let copy = item.clone();
    assert_eq!(copy.id, item.id);
    assert_eq!(copy.key, item.key);
    assert_eq!(copy.version, 2);
    assert_eq!(copy.data, item.data);
    assert_eq!(copy.item_type, item.item_type);
    assert_eq!(copy.description, item.description);
    assert_eq!(copy.tags, item.tags);
    assert_eq!(
        copy.metafields.as_ref().unwrap().get("k"),
        Some(&"v".to_string())
    );
    assert_eq!(copy.metafields.as_ref().unwrap().len(), 1);
    assert_eq!(copy.expires_on, Some(1_700_000_000));
    assert_eq!(copy.persistence, StoragePersistence::Hybrid);
    assert_eq!(copy.redundancy, 3);
}

#[test]
fn object_that_bincode_refuses_makes_no_item() {
    let cell = RefCell::new(String::from("abc"));
    let borrowed = cell.borrow_mut();
    assert!(StorageItem::new("k", &cell).is_none());
    assert!(StorageItem::with_type("k", ItemType::Basic(BasicType::String), &cell).is_none());
    drop(borrowed);
    assert!(StorageItem::new("k", &cell).is_some());
}

#[test]
fn update_with_an_object_that_bincode_refuses_keeps_the_item() {
    let mut item = StorageItem::new("k", &String::from("abc")).unwrap();
    item.version = 3;
    let id = item.id.clone();
    let cell = RefCell::new(String::from("other"));
    let borrowed = cell.borrow_mut();
    assert!(!item.update_object(&cell));
    drop(borrowed);
    assert_eq!(item.id, id);
    assert_eq!(item.version, 3);
    assert_eq!(item.get_object::<String>(), Some("abc".to_string()));
}
