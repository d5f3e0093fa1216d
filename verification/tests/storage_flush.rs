use anor_storage::storage_error::StorageError;
use anor_storage::storage_flush::items_to_persist;
use anor_storage::storage_flush::needs_persist;
use anor_storage::storage_flush::orphan_blobs;
use anor_storage::storage_flush::plan_flush;
use anor_storage::storage_flush::storage_info;
use anor_storage::storage_flush::FlushPlan;
use anor_storage::storage_flush::FlushStep;
use anor_storage::storage_info::StorageInfo;
use anor_storage::storage_item::ItemType;
use anor_storage::storage_item::StorageItem;
use anor_storage::storage_load::accept_loaded;
use anor_storage::storage_load::begin_load;
use anor_storage::storage_load::LoadRequest;
use anor_storage::storage_pod::StoragePod;
use std::collections::HashMap;

/// A data directory in memory: the manifest, and the item of each blob.
struct Directory {
    info: Option<StorageInfo>,
    blobs: HashMap<String, StorageItem>,
    writes: usize,
}

fn empty_directory() -> Directory {
    Directory { info: None, blobs: HashMap::new(), writes: 0 }
}

fn blob_names(dir: &Directory) -> Vec<String> {
    let mut names: Vec<String> = dir.blobs.keys().cloned().collect();
    names.sort();
    names
}

fn carry_out(dir: &mut Directory, plan: FlushPlan) {
    dir.info = Some(plan.info);
    for name in plan.orphans.iter() {
        dir.blobs.remove(name);
    }
    for item in plan.items.into_iter() {
        dir.blobs.insert(item.id.clone(), item);
        dir.writes += 1;
    }
}

fn flush(pod: &StoragePod, dir: &mut Directory) {
    let names = blob_names(dir);
    let plan = plan_flush(pod, &dir.info, &names);
    carry_out(dir, plan);
}

fn load(pod: &mut StoragePod, dir: &Directory) -> Result<(), StorageError> {
    let requests = begin_load(pod, &dir.info);
    for request in requests.iter() {
        let fetched = match dir.blobs.get(&request.id) {
            Some(item) => Ok(item.clone()),
            None => Err(StorageError::Io),
        };
        accept_loaded(pod, request, fetched)?;
    }
    Ok(())
}

fn item_with(key: &str, id: &str, version: u64, value: u32) -> StorageItem {
    let mut item = StorageItem::new(key, &value).unwrap();
    item.id = id.to_string();
    item.version = version;
    item
}

#[test]
fn manifest_lists_identity_and_version_of_each_key() {
    let mut pod = StoragePod::new();
    pod.insert(item_with("a", "id-a", 0, 1));
    pod.insert(item_with("b", "id-b", 5, 2));
    let info = storage_info(&pod);
    assert_eq!(info.len(), 2);
    assert_eq!(info.get("a"), Some((&"id-a".to_string(), 0)));
    assert_eq!(info.get("b"), Some((&"id-b".to_string(), 5)));
    assert_eq!(info.get("c"), None);
    assert!(storage_info(&StoragePod::new()).is_empty());
}

#[test]
fn first_flush_persists_every_item() {
    assert!(needs_persist(&None, "a", "id-a", 0));
    assert!(needs_persist(&None, "a", "id-a", 9));
}

#[test]
fn new_key_needs_persist() {
    let mut prior = StorageInfo::new();
    prior.insert("a".to_string(), "id-a".to_string(), 3);
    assert!(needs_persist(&Some(prior), "b", "id-a", 3));
}

#[test]
fn other_identity_or_higher_version_needs_persist() {
    let mut prior = StorageInfo::new();
    prior.insert("a".to_string(), "id-a".to_string(), 3);
    let prior = Some(prior);
    assert!(!needs_persist(&prior, "a", "id-a", 3));
    assert!(!needs_persist(&prior, "a", "id-a", 2));
    assert!(needs_persist(&prior, "a", "id-a", 4));
    assert!(needs_persist(&prior, "a", "id-b", 3));
    assert!(needs_persist(&prior, "a", "id-b", 0));
    // the identity is compared as it is written
    assert!(needs_persist(&prior, "a", "ID-A", 3));
}

#[test]
fn orphans_are_the_names_of_no_item() {
    let mut info = StorageInfo::new();
    info.insert("a".to_string(), "id-a".to_string(), 0);
    info.insert("b".to_string(), "Id-B".to_string(), 0);
    let names = vec![
        "id-x".to_string(),
        "id-a".to_string(),
        "ID-A".to_string(),
        "id-b".to_string(),
        "id-".to_string(),
        "id-ab".to_string(),
        "id-x".to_string(),
    ];
    assert_eq!(
        orphan_blobs(&info, &names),
        vec![
            "id-x".to_string(),
            "id-".to_string(),
            "id-ab".to_string(),
            "id-x".to_string()
        ]
    );
    assert_eq!(orphan_blobs(&info, &vec![]), Vec::<String>::new());
    assert_eq!(orphan_blobs(&StorageInfo::new(), &names), names);
}

#[test]
fn only_ascii_letters_are_compared_without_case() {
    let mut info = StorageInfo::new();
    info.insert("a".to_string(), "ÄB-z".to_string(), 0);
    let names = vec!["Äb-Z".to_string(), "äb-z".to_string(), "[b-z".to_string()];
    assert_eq!(
        orphan_blobs(&info, &names),
        vec!["äb-z".to_string(), "[b-z".to_string()]
    );
}

#[test]
fn items_to_persist_are_the_new_and_the_changed() {
    let mut pod = StoragePod::new();
    pod.insert(item_with("same", "id-1", 1, 10));
    pod.insert(item_with("newer", "id-2", 2, 20));
    pod.insert(item_with("remade", "id-3b", 0, 30));
    pod.insert(item_with("new", "id-4", 0, 40));
    let mut prior = StorageInfo::new();
    prior.insert("same".to_string(), "id-1".to_string(), 1);
    prior.insert("newer".to_string(), "id-2".to_string(), 1);
    prior.insert("remade".to_string(), "id-3a".to_string(), 7);
    prior.insert("gone".to_string(), "id-5".to_string(), 0);

    let due = items_to_persist(&pod, &Some(prior));
    let keys: Vec<&str> = due.iter().map(|item| item.key.as_str()).collect();
    assert_eq!(keys, vec!["newer", "remade", "new"]);
    assert_eq!(due[0].id, "id-2");
    assert_eq!(due[0].get_object::<u32>(), Some(20));

    let all = items_to_persist(&pod, &None);
    assert_eq!(all.len(), 4);
}

#[test]
fn flush_writes_manifest_and_blobs() {
    let mut pod = StoragePod::new();
    pod.insert(item_with("a", "id-a", 0, 1));
    pod.insert(item_with("b", "id-b", 0, 2));
    let mut dir = empty_directory();
    flush(&pod, &mut dir);
    let info = dir.info.as_ref().unwrap();
    assert_eq!(info.len(), 2);
    assert_eq!(info.get("a"), Some((&"id-a".to_string(), 0)));
    assert_eq!(blob_names(&dir), vec!["id-a".to_string(), "id-b".to_string()]);
    assert_eq!(dir.blobs["id-a"].key, "a");
    assert_eq!(dir.blobs["id-b"].get_object::<u32>(), Some(2));
}

#[test]
fn second_flush_changes_nothing() {
    let mut pod = StoragePod::new();
    pod.insert(item_with("a", "id-a", 0, 1));
    pod.insert(item_with("b", "id-b", 3, 2));
    let mut dir = empty_directory();
    dir.blobs.insert("stale".to_string(), item_with("x", "stale", 0, 0));
    flush(&pod, &mut dir);
    assert_eq!(dir.writes, 2);
    let names = blob_names(&dir);

    let plan = plan_flush(&pod, &dir.info, &names);
    assert!(plan.orphans.is_empty());
    assert!(plan.items.is_empty());
    assert_eq!(plan.info.len(), 2);
    assert_eq!(plan.info.get("b"), Some((&"id-b".to_string(), 3)));
    carry_out(&mut dir, plan);
    assert_eq!(dir.writes, 2);
    assert_eq!(blob_names(&dir), names);
}

#[test]
fn orphan_purge_leaves_no_file() {
    let mut pod = StoragePod::new();
    let mut dir = empty_directory();
    pod.insert(StorageItem::new("a", &1u32).unwrap());
    flush(&pod, &mut dir);
    assert_eq!(dir.blobs.len(), 1);
    pod.remove("a");
    flush(&pod, &mut dir);
    assert!(dir.blobs.is_empty());
    assert!(dir.info.as_ref().unwrap().is_empty());
}

#[test]
fn orphan_cleanup_keeps_the_surviving_blobs() {
    let mut pod = StoragePod::new();
    let mut dir = empty_directory();
    let a = StorageItem::new("a", &1u32).unwrap();
    let b = StorageItem::new("b", &2u32).unwrap();
    let c = StorageItem::new("c", &3u32).unwrap();
    let (id_a, id_c) = (a.id.clone(), c.id.clone());
    pod.insert(a);
    pod.insert(b);
    pod.insert(c);
    flush(&pod, &mut dir);
    assert_eq!(dir.blobs.len(), 3);
    pod.remove("b");
    flush(&pod, &mut dir);
    let mut expected = vec![id_a.to_ascii_lowercase(), id_c.to_ascii_lowercase()];
    expected.sort();
    let names: Vec<String> = blob_names(&dir)
        .iter()
        .map(|n| n.to_ascii_lowercase())
        .collect();
    assert_eq!(names, expected);
}

#[test]
fn load_after_flush_restores_the_pod() {
    let mut pod = StoragePod::new();
    let mut map = HashMap::<String, String>::new();
    map.insert("1".into(), "One".into());
    map.insert("2".into(), "Two".into());
    map.insert("3".into(), "Three".into());
    pod.insert(StorageItem::new("my_map1", &map).unwrap());
    pod.insert(StorageItem::new("s", &String::from("abc")).unwrap());
    let mut dir = empty_directory();
    flush(&pod, &mut dir);

    pod.clear();
    assert!(pod.keys().is_empty());
    assert_eq!(load(&mut pod, &dir), Ok(()));
    let mut keys = pod.keys();
    keys.sort();
    assert_eq!(keys, vec!["my_map1".to_string(), "s".to_string()]);
    assert_eq!(pod.get_object::<HashMap<String, String>>("my_map1"), Some(map));
    assert_eq!(pod.get_object::<String>("s"), Some("abc".to_string()));
}

#[test]
fn basic_round_trip_over_a_reopen() {
    let mut dir = empty_directory();
    {
        let mut pod = StoragePod::new();
        assert_eq!(load(&mut pod, &dir), Ok(()));
        pod.insert(StorageItem::new("s", &String::from("abc")).unwrap());
        assert_eq!(pod.get_object::<String>("s"), Some("abc".to_string()));
        flush(&pod, &mut dir);
    }
    let mut pod = StoragePod::new();
    assert_eq!(load(&mut pod, &dir), Ok(()));
    assert_eq!(pod.get_object::<String>("s"), Some("abc".to_string()));
}

#[test]
fn change_without_a_new_version_is_not_persisted() {
    let mut pod = StoragePod::new();
    let mut dir = empty_directory();
    let item = StorageItem::new("s", &String::from("abc")).unwrap();
    let id = item.id.clone();
    pod.insert(item);
    flush(&pod, &mut dir);

    pod.get_mut("s").unwrap().set_description("changed");
    flush(&pod, &mut dir);
    assert_eq!(dir.writes, 1);
    assert_eq!(dir.info.as_ref().unwrap().get("s"), Some((&id, 0)));

    let mut reopened = StoragePod::new();
    assert_eq!(load(&mut reopened, &dir), Ok(()));
    assert_eq!(reopened.get("s").unwrap().description, None);

    pod.get_mut("s").unwrap().version = 1;
    flush(&pod, &mut dir);
    assert_eq!(dir.writes, 2);
    assert_eq!(load(&mut reopened, &dir), Ok(()));
    assert_eq!(
        reopened.get("s").unwrap().description,
        Some("changed".to_string())
    );
}

#[test]
fn remade_key_is_persisted_under_its_new_identity() {
    let mut pod = StoragePod::new();
    let mut dir = empty_directory();
    let first = StorageItem::new("s", &1u32).unwrap();
    let first_id = first.id.clone();
    pod.insert(first);
    flush(&pod, &mut dir);
    pod.remove("s");
    let second = StorageItem::new("s", &2u32).unwrap();
    let second_id = second.id.clone();
    pod.insert(second);
    flush(&pod, &mut dir);
    assert_eq!(blob_names(&dir), vec![second_id.clone()]);
    assert_ne!(first_id, second_id);
    assert_eq!(dir.blobs[&second_id].get_object::<u32>(), Some(2));
}

#[test]
fn load_without_a_manifest_empties_the_pod() {
    let mut pod = StoragePod::new();
    pod.insert(StorageItem::new("a", &1u32).unwrap());
    let requests = begin_load(&mut pod, &None);
    assert!(requests.is_empty());
    assert!(pod.keys().is_empty());
}

#[test]
fn load_asks_for_the_blob_of_each_key() {
    let mut info = StorageInfo::new();
    info.insert("a".to_string(), "id-a".to_string(), 0);
    info.insert("b".to_string(), "id-b".to_string(), 4);
    let mut pod = StoragePod::new();
    pod.insert(StorageItem::new("old", &1u32).unwrap());
    let requests = begin_load(&mut pod, &Some(info));
    assert!(pod.keys().is_empty());
    let pairs: Vec<(&str, &str)> = requests
        .iter()
        .map(|r| (r.key.as_str(), r.id.as_str()))
        .collect();
    assert_eq!(pairs, vec![("a", "id-a"), ("b", "id-b")]);
}

#[test]
fn load_fails_on_a_blob_that_cannot_be_read() {
    let mut pod = StoragePod::new();
    let mut dir = empty_directory();
    pod.insert(item_with("a", "id-a", 0, 1));
    pod.insert(item_with("b", "id-b", 0, 2));
    flush(&pod, &mut dir);
    dir.blobs.remove("id-b");
    assert_eq!(load(&mut pod, &dir), Err(StorageError::Io));
    assert_eq!(pod.keys(), vec!["a".to_string()]);
}

#[test]
fn load_refuses_an_item_of_another_key() {
    let mut pod = StoragePod::new();
    let request = LoadRequest { key: "a".to_string(), id: "id-a".to_string() };
    let other = StorageItem::with_id("b", ItemType::Custom, "id-a".to_string(), vec![1]);
    assert_eq!(
        accept_loaded(&mut pod, &request, Ok(other)),
        Err(StorageError::KeyMismatch)
    );
    assert!(pod.keys().is_empty());
    assert_eq!(
        accept_loaded(&mut pod, &request, Err(StorageError::Decode)),
        Err(StorageError::Decode)
    );
    let own = StorageItem::with_id("a", ItemType::Custom, "id-a".to_string(), vec![1]);
    assert_eq!(accept_loaded(&mut pod, &request, Ok(own)), Ok(()));
    assert_eq!(pod.get("a").unwrap().id, "id-a");
}

#[test]
fn failures_that_end_a_flush() {
    assert!(FlushStep::WriteInfo.is_fatal());
    assert!(FlushStep::CreateBlobDir.is_fatal());
    assert!(FlushStep::WriteItem.is_fatal());
    assert!(!FlushStep::ReadInfo.is_fatal());
    assert!(!FlushStep::ListBlobs.is_fatal());
    assert!(!FlushStep::RemoveBlob.is_fatal());
}
