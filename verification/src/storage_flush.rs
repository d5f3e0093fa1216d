//! What a flush writes and removes.
//!
//! A flush brings the data directory in line with the pod: it writes the
//! manifest of the pod, removes the blobs that belong to no item, and
//! writes the blob of each item that is new or has changed since the
//! manifest that was there before. This module decides; the caller reads
//! the directory before and performs the plan after.

use crate::storage_disk::carried_out;
use crate::storage_disk::flushed;
use crate::storage_disk::Disk;
use crate::storage_info::StorageInfo;
use crate::storage_info::StorageInfoView;
use crate::storage_item::StorageItem;
use crate::storage_item::StorageItemView;
use crate::storage_pod::StoragePod;
use crate::string_map::key_views;
use crate::text::ascii_lower;
use crate::text::to_ascii_lowercase;
use vstd::prelude::*;

verus! {

/// The manifest of a pod: for each key, the identity and the version of its item.
pub open spec fn info_of(pod: Map<Seq<char>, StorageItemView>) -> StorageInfoView {
    pod.map_values(|item: StorageItemView| (item.id, item.version))
}

/// Whether the file name is the identity of an item of the manifest, but
/// for the case of ASCII letters.
pub open spec fn names_an_item(info: StorageInfoView, name: Seq<char>) -> bool {
    exists|k: Seq<char>| #[trigger]
        info.contains_key(k) && ascii_lower(info[k].0) == ascii_lower(name)
}

/// The file names that a flush removes: those that name no item.
pub open spec fn is_orphan(info: StorageInfoView) -> spec_fn(Seq<char>) -> bool {
    |name: Seq<char>| !names_an_item(info, name)
}

/// Whether a flush writes the blob of the item of `key`: there was no
/// manifest, or it had no entry for the key, or the entry has another
/// identity or a lower version.
pub open spec fn spec_needs_persist(
    persisted: Option<StorageInfoView>,
    key: Seq<char>,
    id: Seq<char>,
    version: u64,
) -> bool {
    match persisted {
        None => true,
        Some(prev) => !prev.contains_key(key) || id != prev[key].0 || version > prev[key].1,
    }
}

/// The keys whose blobs a flush writes.
pub open spec fn is_due(persisted: Option<StorageInfoView>, pod: Map<Seq<char>, StorageItemView>)
    -> spec_fn(Seq<char>) -> bool {
    |key: Seq<char>| spec_needs_persist(persisted, key, pod[key].id, pod[key].version)
}

/// The item of each key.
pub open spec fn item_of(pod: Map<Seq<char>, StorageItemView>) -> spec_fn(Seq<char>)
    -> StorageItemView {
    |key: Seq<char>| pod[key]
}

/// The manifest that may be missing, as a value.
pub open spec fn persisted_view(persisted: Option<StorageInfo>) -> Option<StorageInfoView> {
    match persisted {
        Some(info) => Some(info@),
        None => None,
    }
}

/// The items of a list as values, in order.
pub open spec fn item_seq(items: Seq<StorageItem>) -> Seq<StorageItemView> {
    items.map_values(|item: StorageItem| item@)
}

proof fn lemma_prefix_set(keys: Seq<Seq<char>>, i: int)
    requires
        0 <= i < keys.len(),
    ensures
        keys.subrange(0, i + 1).to_set() == keys.subrange(0, i).to_set().insert(keys[i]),
{
    let shorter = keys.subrange(0, i);
    let longer = keys.subrange(0, i + 1);
    assert forall|x: Seq<char>| longer.to_set().contains(x) <==> shorter.to_set().insert(
        keys[i],
    ).contains(x) by {
        if longer.contains(x) {
            let j = longer.index_of(x);
            if j < i {
                assert(shorter[j] == x);
            }
        }
        if shorter.contains(x) {
            let j = shorter.index_of(x);
            assert(longer[j] == x);
        }
        assert(longer[i] == keys[i]);
    }
    assert(longer.to_set() =~= shorter.to_set().insert(keys[i]));
}

/// The manifest of the pod: what a flush writes in place of the manifest
/// that was there.
pub fn storage_info(pod: &StoragePod) -> (r: StorageInfo)
    ensures
        r@ == info_of(pod@),
{
    let keys = pod.keys();
    let mut info = StorageInfo::new();
    let mut i: usize = 0;
    while i < keys.len()
        invariant
            i <= keys@.len(),
            key_views(keys@) == pod.key_seq(),
            pod.key_seq().to_set() == pod@.dom(),
            info@ == info_of(pod@).restrict(key_views(keys@).subrange(0, i as int).to_set()),
        decreases keys@.len() - i,
    {
        let key = &keys[i];
        proof {
            assert(key_views(keys@)[i as int] == key@);
            assert(pod.key_seq().to_set().contains(key@));
        }
        match pod.get(key.as_str()) {
            Some(item) => {
                info.insert(key.clone(), item.id.clone(), item.version);
            },
            None => {},
        }
        proof {
            let ks = key_views(keys@);
            lemma_prefix_set(ks, i as int);
            assert(info@ =~= info_of(pod@).restrict(ks.subrange(0, i + 1).to_set()));
        }
        i = i + 1;
    }
    proof {
        let ks = key_views(keys@);
        assert(ks.subrange(0, i as int) =~= ks);
        assert(info@ =~= info_of(pod@));
    }
    info
}

/// Whether a flush writes the blob of the item of `key` with the given
/// identity and version, where `persisted` is the manifest that was there
/// before, if any.
pub fn needs_persist(persisted: &Option<StorageInfo>, key: &str, id: &str, version: u64) -> (r:
    bool)
    ensures
        r == spec_needs_persist(persisted_view(*persisted), key@, id@, version),
{
    match persisted {
        None => true,
        Some(prev) => match prev.get(key) {
            None => true,
            Some((prev_id, prev_version)) => {
                // the identity comes first: the item may have been removed
                // and another one made under the same key
                let id_owned = id.to_owned();
                !(*prev_id == id_owned) || version > prev_version
            },
        },
    }
}

fn contains_text(list: &Vec<String>, wanted: &String) -> (r: bool)
    ensures
        r == key_views(list@).contains(wanted@),
{
    let mut i: usize = 0;
    while i < list.len()
        invariant
            i <= list@.len(),
            forall|j: int| 0 <= j < i ==> key_views(list@)[j] != wanted@,
        decreases list@.len() - i,
    {
        if list[i] == *wanted {
            assert(key_views(list@)[i as int] == wanted@);
            return true;
        }
        i = i + 1;
    }
    false
}

fn lower_case_ids(info: &StorageInfo) -> (r: Vec<String>)
    ensures
        forall|name: Seq<char>|
            key_views(r@).contains(ascii_lower(name)) <==> names_an_item(info@, name),
{
    let keys = info.keys();
    let mut ids: Vec<String> = Vec::new();
    let mut i: usize = 0;
    while i < keys.len()
        invariant
            i <= keys@.len(),
            key_views(keys@) == info.key_seq(),
            info.key_seq().to_set() == info@.dom(),
            ids@.len() == i,
            forall|j: int|
                0 <= j < i ==> #[trigger] key_views(ids@)[j] == ascii_lower(
                    info@[key_views(keys@)[j]].0,
                ),
        decreases keys@.len() - i,
    {
        let key = &keys[i];
        proof {
            assert(key_views(keys@)[i as int] == key@);
            assert(info.key_seq().to_set().contains(key@));
        }
        let ghost before = ids@;
        match info.get(key.as_str()) {
            Some((id, _)) => {
                let lower = to_ascii_lowercase(id.as_str());
                ids.push(lower);
                proof {
                    assert(key_views(ids@) =~= key_views(before).push(lower@));
                    assert forall|j: int| 0 <= j < i + 1 implies #[trigger] key_views(ids@)[j]
                        == ascii_lower(info@[key_views(keys@)[j]].0) by {
                        if j < i {
                            assert(key_views(ids@)[j] == key_views(before)[j]);
                        }
                    }
                }
            },
            None => {},
        }
        i = i + 1;
    }
    proof {
        let ks = key_views(keys@);
        let lows = key_views(ids@);
        assert forall|name: Seq<char>| lows.contains(ascii_lower(name)) <==> names_an_item(
            info@,
            name,
        ) by {
            if lows.contains(ascii_lower(name)) {
                let j = lows.index_of(ascii_lower(name));
                assert(lows[j] == ascii_lower(info@[ks[j]].0));
                assert(ks.to_set().contains(ks[j]));
                assert(info@.contains_key(ks[j]));
            }
            if names_an_item(info@, name) {
                let k = choose|k: Seq<char>| #[trigger]
                    info@.contains_key(k) && ascii_lower(info@[k].0) == ascii_lower(name);
                assert(ks.to_set().contains(k));
                let j = ks.index_of(k);
                assert(lows[j] == ascii_lower(info@[ks[j]].0));
            }
        }
    }
    ids
}

/// The names among `blob_names` that a flush removes: those that are the
/// identity of no item of `info`, compared without regard to the case of
/// ASCII letters. The names come back in the order in which they were given.
pub fn orphan_blobs(info: &StorageInfo, blob_names: &Vec<String>) -> (r: Vec<String>)
    ensures
        key_views(r@) == key_views(blob_names@).filter(is_orphan(info@)),
{
    let ids = lower_case_ids(info);
    let mut orphans: Vec<String> = Vec::new();
    let mut i: usize = 0;
    proof {
        reveal(Seq::filter);
        assert(key_views(blob_names@).subrange(0, 0) =~= Seq::<Seq<char>>::empty());
        assert(key_views(orphans@) =~= Seq::<Seq<char>>::empty());
    }
    while i < blob_names.len()
        invariant
            i <= blob_names@.len(),
            forall|name: Seq<char>|
                key_views(ids@).contains(ascii_lower(name)) <==> names_an_item(info@, name),
            key_views(orphans@) == key_views(blob_names@).subrange(0, i as int).filter(
                is_orphan(info@),
            ),
        decreases blob_names@.len() - i,
    {
        let name = &blob_names[i];
        let lower = to_ascii_lowercase(name.as_str());
        let ghost before = key_views(orphans@);
        let keep = contains_text(&ids, &lower);
        if !keep {
            orphans.push(name.clone());
        }
        proof {
            reveal(Seq::filter);
            let names = key_views(blob_names@);
            let upto = names.subrange(0, i + 1);
            assert(upto.drop_last() =~= names.subrange(0, i as int));
            assert(upto.last() == name@);
            assert(keep == names_an_item(info@, name@));
            if !keep {
                assert(key_views(orphans@) =~= before.push(name@));
            }
        }
        i = i + 1;
    }
    proof {
        assert(key_views(blob_names@).subrange(0, i as int) =~= key_views(blob_names@));
    }
    orphans
}

/// The items whose blobs a flush writes, in the order of the pod's keys:
/// those that are new or have changed since the manifest that was there
/// before.
pub fn items_to_persist(pod: &StoragePod, persisted: &Option<StorageInfo>) -> (r: Vec<StorageItem>)
    ensures
        item_seq(r@) == pod.key_seq().filter(is_due(persisted_view(*persisted), pod@)).map_values(
            item_of(pod@),
        ),
{
    let keys = pod.keys();
    let mut items: Vec<StorageItem> = Vec::new();
    let mut i: usize = 0;
    let ghost due = is_due(persisted_view(*persisted), pod@);
    proof {
        reveal(Seq::filter);
        assert(pod.key_seq().subrange(0, 0) =~= Seq::<Seq<char>>::empty());
        assert(item_seq(items@) =~= Seq::<Seq<char>>::empty().filter(due).map_values(
            item_of(pod@),
        ));
    }
    while i < keys.len()
        invariant
            i <= keys@.len(),
            key_views(keys@) == pod.key_seq(),
            pod.key_seq().to_set() == pod@.dom(),
            due == is_due(persisted_view(*persisted), pod@),
            item_seq(items@) == pod.key_seq().subrange(0, i as int).filter(due).map_values(
                item_of(pod@),
            ),
        decreases keys@.len() - i,
    {
        let key = &keys[i];
        let ghost before = item_seq(items@);
        proof {
            assert(key_views(keys@)[i as int] == key@);
            assert(pod.key_seq().to_set().contains(key@));
        }
        match pod.get(key.as_str()) {
            Some(item) => {
                if needs_persist(persisted, key.as_str(), item.id.as_str(), item.version) {
                    items.push(item.clone());
                    proof {
                        assert(item_seq(items@) =~= before.push(pod@[key@]));
                    }
                }
            },
            None => {},
        }
        proof {
            reveal(Seq::filter);
            let ks = pod.key_seq();
            let upto = ks.subrange(0, i + 1);
            let prior = ks.subrange(0, i as int);
            assert(upto.drop_last() =~= prior);
            assert(upto.last() == key@);
            if due(key@) {
                assert(upto.filter(due) =~= prior.filter(due).push(key@));
                assert(upto.filter(due).map_values(item_of(pod@)) =~= prior.filter(
                    due,
                ).map_values(item_of(pod@)).push(pod@[key@]));
            } else {
                assert(upto.filter(due) =~= prior.filter(due));
            }
        }
        i = i + 1;
    }
    proof {
        assert(pod.key_seq().subrange(0, i as int) =~= pod.key_seq());
    }
    items
}

/// What a flush does to the data directory.
#[derive(Debug)]
pub struct FlushPlan {
    /// The manifest to write in place of the one that is there.
    pub info: StorageInfo,
    /// The names of the blobs to remove.
    pub orphans: Vec<String>,
    /// The items whose blobs are to be written, each under its identity.
    pub items: Vec<StorageItem>,
}

/// Plans a flush of the pod into a data directory whose manifest is
/// `persisted`, if it has one that can be read, and whose blobs are named
/// `blob_names`. Carried out on that directory, the plan gives the
/// directory that the model of a flush describes.
pub fn plan_flush(pod: &StoragePod, persisted: &Option<StorageInfo>, blob_names: &Vec<String>) -> (r:
    FlushPlan)
    ensures
        r.info@ == info_of(pod@),
        key_views(r.orphans@) == key_views(blob_names@).filter(is_orphan(info_of(pod@))),
        item_seq(r.items@) == pod.key_seq().filter(
            is_due(persisted_view(*persisted), pod@),
        ).map_values(item_of(pod@)),
        forall|disk: Disk|
            disk.info == persisted_view(*persisted) ==> #[trigger] carried_out(
                disk,
                r.info@,
                key_views(r.orphans@),
                item_seq(r.items@),
            ) == flushed(pod@, pod.key_seq(), disk, key_views(blob_names@)),
{
    let info = storage_info(pod);
    let orphans = orphan_blobs(&info, blob_names);
    let items = items_to_persist(pod, persisted);
    FlushPlan { info, orphans, items }
}

/// The steps of a flush that touch the data directory.
#[derive(Debug, Clone, Copy, PartialEq, Eq, Structural)]
pub enum FlushStep {
    /// Reading the manifest that is there.
    ReadInfo,
    /// Writing the manifest of the pod.
    WriteInfo,
    /// Making sure that the directory of the blobs exists.
    CreateBlobDir,
    /// Listing the blobs that are there.
    ListBlobs,
    /// Removing a blob that belongs to no item.
    RemoveBlob,
    /// Writing the blob of an item.
    WriteItem,
}

impl FlushStep {
    /// Whether a failure of the step ends the flush with an error. The
    /// steps that write the manifest or a blob, or make their directory,
    /// do; a manifest that cannot be read counts as none, and a blob that
    /// cannot be listed or removed stays.
    pub open spec fn spec_is_fatal(self) -> bool {
        self == FlushStep::WriteInfo || self == FlushStep::CreateBlobDir || self
            == FlushStep::WriteItem
    }

    /// Whether a failure of the step ends the flush with an error.
    pub fn is_fatal(self) -> (r: bool)
        ensures
            r == self.spec_is_fatal(),
    {
        match self {
            FlushStep::WriteInfo | FlushStep::CreateBlobDir | FlushStep::WriteItem => true,
            FlushStep::ReadInfo | FlushStep::ListBlobs | FlushStep::RemoveBlob => false,
        }
    }
}

} // verus!
