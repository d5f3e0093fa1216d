use anor_storage::storage::Storage;
use anor_storage::storage_error::StorageError;
use anor_storage::storage_flush::FlushStep;
use anor_storage::storage_flusher::FlushAction;
use anor_storage::storage_flusher::FlushEvent;
use anor_storage::storage_flusher::Flusher;
use anor_storage::storage_info::StorageInfo;
use anor_storage::storage_item::BasicType;
use anor_storage::storage_item::ComplexType;
use anor_storage::storage_item::ItemType;
use anor_storage::storage_item::StorageItem;
use anor_storage::storage_loader::LoadAction;
use anor_storage::storage_loader::LoadEvent;
use anor_storage::storage_loader::LoadStep;
use anor_storage::storage_loader::Loader;
use std::cell::RefCell;
use std::collections::BTreeMap;
use std::collections::HashMap;

/// A data directory in memory: the manifest and the item of each blob.
struct Shelf {
    info: Option<StorageInfo>,
    blobs: BTreeMap<String, StorageItem>,
}

fn empty_shelf() -> Shelf {
    Shelf { info: None, blobs: BTreeMap::new() }
}

fn info_copy(info: &StorageInfo) -> StorageInfo {
    let mut copy = StorageInfo::new();
    for key in info.keys() {
        let (id, version) = info.get(&key).unwrap();
        copy.insert(key.clone(), id.clone(), version);
    }
    copy
}

/// What closing an engine does: the storage is flushed to the shelf.
fn close(storage: Storage, shelf: &mut Shelf) {
    let mut flusher = Flusher::new();
    let mut event = FlushEvent::Begin;
    loop {
        event = match storage.flush(&mut flusher, event) {
            FlushAction::Take(FlushStep::ReadInfo) => {
                FlushEvent::InfoRead(shelf.info.as_ref().map(info_copy))
            }
            FlushAction::Take(FlushStep::ListBlobs) => {
                FlushEvent::BlobsListed(shelf.blobs.keys().cloned().collect())
            }
            FlushAction::Take(FlushStep::WriteInfo) => {
                shelf.info = Some(info_copy(flusher.info()));
                FlushEvent::Succeeded
            }
            FlushAction::Take(FlushStep::CreateBlobDir) => FlushEvent::Succeeded,
            FlushAction::Take(FlushStep::RemoveBlob) => {
                shelf.blobs.remove(flusher.orphan().unwrap());
                FlushEvent::Succeeded
            }
            FlushAction::Take(FlushStep::WriteItem) => {
                let item = flusher.item().unwrap();
                shelf.blobs.insert(item.id.clone(), item.clone());
                FlushEvent::Succeeded
            }
            FlushAction::Finished => return,
            FlushAction::Failed(err) => panic!("{:?}", err),
        };
    }
}

/// What opening an engine does: a storage is loaded from the shelf.
fn open(shelf: &Shelf) -> Storage {
    let mut storage = Storage::new();
    let mut loader = Loader::new();
    let mut event = LoadEvent::Begin;
    loop {
        event = match storage.load(&mut loader, event) {
            LoadAction::Take(LoadStep::ReadInfo) => {
                LoadEvent::InfoRead(shelf.info.as_ref().map(info_copy))
            }
            LoadAction::Take(LoadStep::ReadItem) => {
                let request = loader.request().unwrap();
                LoadEvent::ItemRead(match shelf.blobs.get(&request.id) {
                    Some(item) => Ok(item.clone()),
                    None => Err(StorageError::Io),
                })
            }
            LoadAction::Finished => return storage,
            LoadAction::Failed(err) => panic!("{:?}", err),
        };
    }
}

#[test]
fn storage_storage_open_test() {
    let mut storage = Storage::new();

    // clean up the storage
    storage.clear();
    assert!(storage.keys().is_empty());
}

#[test]
fn storage_storage_insert_test() {
    let mut storage = Storage::new();

    // clean up the storage
    storage.clear();

    let key = "my_string1";
    let my_string = String::from("abc1");
    let storage_item =
        StorageItem::with_type(key, ItemType::Basic(BasicType::String), &my_string).unwrap();

    storage.insert(storage_item);

    let keys = storage.keys();
    assert_eq!(keys.len(), 1);
    assert_eq!(keys[0], key);

    // clean up the storage
    storage.clear();
}

#[test]
fn storage_storage_update_test() {
    let mut storage = Storage::new();

    // clean up the storage
    storage.clear();

    let key = "my_string2";
    let my_string = String::from("abc2");
    let mut storage_item =
        StorageItem::with_type(key, ItemType::Basic(BasicType::String), &my_string).unwrap();
    storage_item.description = Some("abc".to_string());

    storage.insert(storage_item);

    assert_eq!(storage.keys().len(), 1);
    let mut item = storage.get(key).unwrap();
    assert_eq!(item.description, Some("abc".to_string()));

    item.description = Some("abcd".to_string());
    storage.update(item);
    assert_eq!(
        storage.get(key).unwrap().description,
        Some("abcd".to_string())
    );

    // clean up the storage
    storage.clear();
}

#[test]
fn storage_storage_remove_test() {
    let mut storage = Storage::new();

    // clean up the storage
    storage.clear();

    let key = "my_string3";
    let my_string = String::from("abc3");
    let storage_item =
        StorageItem::with_type(key, ItemType::Basic(BasicType::String), &my_string).unwrap();

    storage.insert(storage_item);

    let keys = storage.keys();
    assert_eq!(keys.len(), 1);
    assert_eq!(keys[0], key);

    storage.remove(key);
    assert!(storage.keys().is_empty());
}

#[test]
fn storage_storage_clear_test() {
    let mut storage = Storage::new();

    // clean up the storage
    storage.clear();

    let key = "my_string4";
    let my_string = String::from("abc4");
    let storage_item =
        StorageItem::with_type(key, ItemType::Basic(BasicType::String), &my_string).unwrap();

    storage.insert(storage_item);

    let keys = storage.keys();
    assert_eq!(keys.len(), 1);
    assert_eq!(keys[0], key);

    storage.clear();
    assert!(storage.keys().is_empty());
}

#[test]
fn storage_storage_object_test() {
    let mut storage = Storage::new();

    // clean up the storage
    storage.clear();

    let key = "my_map1";

    let mut my_map1 = HashMap::<String, String>::new();
    my_map1.insert("1".into(), "One".into());
    my_map1.insert("2".into(), "Two".into());
    my_map1.insert("3".into(), "Three".into());

    let storage_type =
        ItemType::Complex(ComplexType::MapOf(BasicType::String, BasicType::String));
    let storage_item = StorageItem::with_type(key, storage_type, &my_map1).unwrap();

    storage.insert(storage_item);

    let decoded_map1: HashMap<String, String> = storage.get_inner_object(key).unwrap();
    assert_eq!(my_map1, decoded_map1);

    my_map1.insert("4".into(), "Four".into());
    assert!(storage.update_inner_object(key, &my_map1));

    let decoded_map2 = storage
        .get_inner_object::<HashMap<String, String>>(key)
        .unwrap();
    assert_eq!(my_map1, decoded_map2);

    // clean up the storage
    storage.clear();
}

#[test]
fn sample_map() {
    let key = "my_map";
    let mut shelf = empty_shelf();

    let mut sample_map = HashMap::<u8, String>::new();
    sample_map.insert(1, "One".into());
    sample_map.insert(2, "Two".into());
    sample_map.insert(3, "Three".into());

    {
        let mut storage = open(&shelf);

        // define item type
        let storage_type = ItemType::Complex(ComplexType::MapOf(BasicType::U8, BasicType::String));

        // create a new item with an inner map object
        let mut storage_item = StorageItem::with_type(key, storage_type, &sample_map).unwrap();
        storage_item.set_description("My sample spelling dictionary");
        storage_item.add_tag("dictionary");
        storage_item.add_metafield("language", "en");

        // insert item into storage
        storage.insert(storage_item);

        // get the map from the storage by key
        let mut map: HashMap<u8, String> = storage.get_inner_object(key).unwrap();
        assert_eq!(map, sample_map);

        // modify the map
        map.insert(4, "Four".into());

        // update the storage
        storage.update_inner_object(key, &map);

        // closing persists the storage content
        close(storage, &mut shelf);
    }

    // open the storage
    let storage_loaded = open(&shelf);

    // get the map from the storage by key
    let map_loaded: HashMap<u8, String> = storage_loaded.get_inner_object(key).unwrap();
    assert_eq!(
        map_loaded,
        HashMap::from([
            (1, "One".into()),
            (2, "Two".into()),
            (3, "Three".into()),
            (4, "Four".into())
        ])
    );
}

#[test]
fn sample_string() {
    let key = "my_string";
    let sample_string = String::from("abc");
    let mut shelf = empty_shelf();

    {
        let mut storage = open(&shelf);

        // create a new item with an inner string object
        let storage_item = StorageItem::new(key, &sample_string).unwrap();

        // insert item into storage
        storage.insert(storage_item);

        // get the string from the storage by key
        let mut string_value: String = storage.get_inner_object(key).unwrap();
        assert_eq!(string_value, sample_string);

        // modify the string
        string_value += "def";

        // update the storage
        storage.update_inner_object(key, &string_value);

        // closing persists the storage content
        close(storage, &mut shelf);
    }

    // open the storage
    let storage_loaded = open(&shelf);

    // get the string from the storage by key
    let loaded_value = storage_loaded.get_inner_object::<String>(key).unwrap();
    assert_eq!(loaded_value, "abcdef");
}

#[test]
fn every_listed_key_has_an_item_that_carries_it() {
    let mut storage = Storage::new();
    for n in 0..30u32 {
        let key = format!("key-{}", n % 20);
        storage.insert(StorageItem::new(&key, &n).unwrap());
    }
    storage.remove("key-7");
    assert!(storage.update_inner_object("key-3", &99u32));
    let keys = storage.keys();
    assert_eq!(keys.len(), 19);
    assert_eq!(storage.len(), 19);
    for key in keys.iter() {
        let item = storage.get(key).unwrap();
        assert_eq!(&item.key, key);
    }
    assert!(storage.get("key-7").is_none());
    assert_eq!(storage.get_inner_object::<u32>("key-3"), Some(99));
}

#[test]
fn get_is_a_copy_of_the_item() {
    let mut storage = Storage::default();
    storage.insert(StorageItem::new("a", &1u32).unwrap());
    let mut copy = storage.get("a").unwrap();
    copy.key = "b".to_string();
    copy.version = 9;
    assert_eq!(storage.get("a").unwrap().key, "a");
    assert_eq!(storage.get("a").unwrap().version, 0);
    assert!(storage.get("b").is_none());
    storage.update(copy);
    assert_eq!(storage.get("b").unwrap().version, 9);
    assert_eq!(storage.len(), 2);
}

#[test]
fn update_inner_object_that_bincode_refuses_returns_false() {
    let mut storage = Storage::new();
    let item = StorageItem::new("a", &1u32).unwrap();
    let data = item.data.clone();
    storage.insert(item);
    let cell = RefCell::new(2u32);
    let borrowed = cell.borrow_mut();
    assert!(!storage.update_inner_object("a", &cell));
    assert_eq!(storage.get("a").unwrap().data, data);
    drop(borrowed);
    assert!(storage.update_inner_object("a", &cell));
    assert_eq!(storage.get_inner_object::<u32>("a"), Some(2));
    assert!(!storage.update_inner_object("missing", &cell));
}

#[test]
fn update_inner_object_keeps_all_but_the_data() {
    let mut storage = Storage::new();
    let mut item = StorageItem::with_type("a", ItemType::Basic(BasicType::U32), &1u32).unwrap();
    item.version = 5;
    item.set_description("d");
    item.add_tag("t");
    item.add_metafield("m", "v");
    let before = item.clone();
    storage.insert(item);
    storage.insert(StorageItem::new("b", &7u32).unwrap());
    assert!(storage.update_inner_object("a", &300u32));
    let after = storage.get("a").unwrap();
    assert_eq!(after.data, vec![251, 44, 1]);
    assert_eq!(after.id, before.id);
    assert_eq!(after.key, "a");
    assert_eq!(after.version, 5);
    assert_eq!(after.item_type, ItemType::Basic(BasicType::U32));
    assert_eq!(after.description, before.description);
    assert_eq!(after.tags, before.tags);
    assert_eq!(after.metafields.unwrap().get("m"), Some(&"v".to_string()));
    assert_eq!(storage.get_inner_object::<u32>("b"), Some(7));
    let mut keys = storage.keys();
    keys.sort();
    assert_eq!(keys, vec!["a", "b"]);
}
