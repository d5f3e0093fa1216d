//! A model of the data directory, and what a flush and a load make of it.
//!
//! The directory holds a manifest, if one was written, and blobs: files
//! named by the identity of an item, each holding the frame of an item or
//! something that does not decode. The model leaves out what the engine
//! cannot see of a file system: it takes two names for two files, and a
//! write for done.

use crate::storage_flush::info_of;
use crate::storage_flush::is_due;
use crate::storage_flush::is_orphan;
use crate::storage_flush::item_of;
use crate::storage_flush::names_an_item;
use crate::storage_flush::spec_needs_persist;
use crate::storage_info::StorageInfoView;
use crate::storage_item::StorageItemView;
use crate::storage_pod::keyed_by_item_key;
use vstd::prelude::*;

verus! {

/// The items of a pod as a value.
pub type PodView = Map<Seq<char>, StorageItemView>;

/// The blobs of a data directory: for each file name, the item that the
/// file decodes to, or `None` where it decodes to none.
pub type Blobs = Map<Seq<char>, Option<StorageItemView>>;

/// A data directory.
pub struct Disk {
    /// The manifest, if there is one that can be read.
    pub info: Option<StorageInfoView>,
    pub blobs: Blobs,
}

/// The blobs after the files named in `names` are removed.
pub open spec fn remove_all(blobs: Blobs, names: Seq<Seq<char>>) -> Blobs {
    blobs.remove_keys(names.to_set())
}

/// The blobs after each item of `items` is written, in order, into the
/// file named by its identity.
pub open spec fn write_all(blobs: Blobs, items: Seq<StorageItemView>) -> Blobs
    decreases items.len(),
{
    if items.len() == 0 {
        blobs
    } else {
        write_all(blobs, items.drop_last()).insert(items.last().id, Some(items.last()))
    }
}

/// The directory after a plan is carried out without failure: the
/// manifest is written, the orphans are removed, the items are written.
pub open spec fn carried_out(
    disk: Disk,
    info: StorageInfoView,
    orphans: Seq<Seq<char>>,
    items: Seq<StorageItemView>,
) -> Disk {
    Disk { info: Some(info), blobs: write_all(remove_all(disk.blobs, orphans), items) }
}

/// The directory after a flush of the pod that fails nowhere. `keys` are
/// the pod's keys in the order of its `keys`, `names` the names of the blobs
/// in the order in which the directory lists them.
pub open spec fn flushed(pod: PodView, keys: Seq<Seq<char>>, disk: Disk, names: Seq<Seq<char>>)
    -> Disk {
    carried_out(
        disk,
        info_of(pod),
        names.filter(is_orphan(info_of(pod))),
        keys.filter(is_due(disk.info, pod)).map_values(item_of(pod)),
    )
}

/// Whether `keys` lists the keys of the pod and `names` the blobs of the
/// directory.
pub open spec fn lists(pod: PodView, keys: Seq<Seq<char>>, disk: Disk, names: Seq<Seq<char>>)
    -> bool {
    keys.to_set() == pod.dom() && names.to_set() == disk.blobs.dom()
}

/// Whether the file named `id` holds an item that carries `key`.
pub open spec fn holds_item_of(blobs: Blobs, id: Seq<char>, key: Seq<char>) -> bool {
    &&& blobs.contains_key(id)
    &&& blobs[id] is Some
    &&& blobs[id]->Some_0.key == key
}

/// What a load makes of the directory: no item where there is no
/// manifest; else for each key of the manifest the item that the blob of
/// its identity holds. `None` where a blob is missing, does not decode, or
/// holds an item of another key: there the load fails.
pub open spec fn loaded(disk: Disk) -> Option<PodView> {
    match disk.info {
        None => Some(Map::empty()),
        Some(info) => if forall|k: Seq<char>| #[trigger]
            info.contains_key(k) ==> holds_item_of(disk.blobs, info[k].0, k) {
            Some(Map::new(|k: Seq<char>| info.contains_key(k), |k: Seq<char>| disk.blobs[info[k].0]->Some_0))
        } else {
            None
        },
    }
}

/// Whether no two keys of the pod have items of one identity.
pub open spec fn distinct_ids(pod: PodView) -> bool {
    forall|j: Seq<char>, k: Seq<char>|
        pod.contains_key(j) && pod.contains_key(k) && j != k ==> #[trigger] pod[j].id
            != #[trigger] pod[k].id
}

/// Whether the blob of each item that a flush would skip holds that item.
pub open spec fn skipped_are_current(pod: PodView, disk: Disk) -> bool {
    forall|k: Seq<char>| #[trigger]
        pod.contains_key(k) && !spec_needs_persist(disk.info, k, pod[k].id, pod[k].version)
            ==> disk.blobs.contains_key(pod[k].id) && disk.blobs[pod[k].id] == Some(pod[k])
}

proof fn lemma_filter_members<A>(s: Seq<A>, pred: spec_fn(A) -> bool)
    ensures
        forall|x: A| #[trigger] s.filter(pred).contains(x) <==> s.contains(x) && pred(x),
    decreases s.len(),
{
    reveal(Seq::filter);
    if s.len() > 0 {
        let front = s.drop_last();
        lemma_filter_members(front, pred);
        assert forall|x: A| #[trigger] s.filter(pred).contains(x) <==> s.contains(x) && pred(
            x,
        ) by {
            if s.filter(pred).contains(x) {
                let i = s.filter(pred).index_of(x);
                if pred(s.last()) && i == front.filter(pred).len() {
                    assert(s[s.len() - 1] == x);
                } else {
                    assert(front.filter(pred)[i] == x);
                    assert(front.filter(pred).contains(x));
                    let j = front.index_of(x);
                    assert(s[j] == x);
                }
            }
            if s.contains(x) && pred(x) {
                let j = s.index_of(x);
                if j == s.len() - 1 {
                    assert(s.filter(pred)[front.filter(pred).len() as int] == x);
                } else {
                    assert(front[j] == x);
                    assert(front.filter(pred).contains(x));
                    let i = front.filter(pred).index_of(x);
                    assert(s.filter(pred)[i] == x);
                }
            }
        }
    }
}

proof fn lemma_write_all(blobs: Blobs, items: Seq<StorageItemView>, name: Seq<char>)
    ensures
        (exists|i: int| 0 <= i < items.len() && #[trigger] items[i].id == name) ==> write_all(
            blobs,
            items,
        ).contains_key(name) && exists|i: int|
            0 <= i < items.len() && #[trigger] items[i].id == name && write_all(blobs, items)[name]
                == Some(items[i]),
        !(exists|i: int| 0 <= i < items.len() && #[trigger] items[i].id == name) ==> (write_all(
            blobs,
            items,
        ).contains_key(name) <==> blobs.contains_key(name)) && write_all(blobs, items)[name]
            == blobs[name],
    decreases items.len(),
{
    if items.len() > 0 {
        let front = items.drop_last();
        let last = items.last();
        lemma_write_all(blobs, front, name);
        if last.id == name {
            assert(items[items.len() - 1].id == name);
        } else if exists|i: int| 0 <= i < front.len() && #[trigger] front[i].id == name {
            let i = choose|i: int|
                0 <= i < front.len() && #[trigger] front[i].id == name && write_all(blobs, front)[name]
                    == Some(front[i]);
            assert(items[i].id == name && write_all(blobs, items)[name] == Some(items[i]));
        } else {
            assert forall|i: int| 0 <= i < items.len() implies #[trigger] items[i].id != name by {
                if i < front.len() {
                    assert(front[i].id != name);
                }
            }
        }
    }
}

/// The items that a flush writes are the items of the keys that are due.
proof fn lemma_due_items(pod: PodView, keys: Seq<Seq<char>>, persisted: Option<StorageInfoView>)
    ensures
        forall|item: StorageItemView| #[trigger]
            keys.filter(is_due(persisted, pod)).map_values(item_of(pod)).contains(item) <==> exists|
                k: Seq<char>,
            |
                keys.contains(k) && spec_needs_persist(persisted, k, pod[k].id, pod[k].version)
                    && #[trigger] pod[k] == item,
{
    let due = keys.filter(is_due(persisted, pod));
    let items = due.map_values(item_of(pod));
    lemma_filter_members(keys, is_due(persisted, pod));
    assert forall|item: StorageItemView| #[trigger] items.contains(item) <==> exists|k: Seq<char>|
        keys.contains(k) && spec_needs_persist(persisted, k, pod[k].id, pod[k].version)
            && #[trigger] pod[k] == item by {
        if items.contains(item) {
            let i = items.index_of(item);
            let k = due[i];
            assert(due.contains(k));
            assert(keys.contains(k) && pod[k] == item);
        }
        if exists|k: Seq<char>|
            keys.contains(k) && spec_needs_persist(persisted, k, pod[k].id, pod[k].version)
                && #[trigger] pod[k] == item {
            let k = choose|k: Seq<char>|
                keys.contains(k) && spec_needs_persist(persisted, k, pod[k].id, pod[k].version)
                    && #[trigger] pod[k] == item;
            assert(due.contains(k));
            let i = due.index_of(k);
            assert(items[i] == item);
        }
    }
}

/// After a flush the manifest is that of the pod, and every blob is named,
/// but for the case of ASCII letters, by the identity of an item of the pod.
pub proof fn lemma_flush_leaves_no_orphan(
    pod: PodView,
    keys: Seq<Seq<char>>,
    disk: Disk,
    names: Seq<Seq<char>>,
)
    requires
        lists(pod, keys, disk, names),
    ensures
        flushed(pod, keys, disk, names).info == Some(info_of(pod)),
        forall|name: Seq<char>| #[trigger]
            flushed(pod, keys, disk, names).blobs.contains_key(name) ==> names_an_item(
                info_of(pod),
                name,
            ),
{
    let info = info_of(pod);
    let orphans = names.filter(is_orphan(info));
    let items = keys.filter(is_due(disk.info, pod)).map_values(item_of(pod));
    let kept = remove_all(disk.blobs, orphans);
    lemma_filter_members(names, is_orphan(info));
    lemma_due_items(pod, keys, disk.info);
    assert forall|name: Seq<char>| #[trigger]
        flushed(pod, keys, disk, names).blobs.contains_key(name) implies names_an_item(
        info,
        name,
    ) by {
        lemma_write_all(kept, items, name);
        if exists|i: int| 0 <= i < items.len() && #[trigger] items[i].id == name {
            let i = choose|i: int| 0 <= i < items.len() && #[trigger] items[i].id == name;
            assert(items.contains(items[i]));
            let k = choose|k: Seq<char>|
                keys.contains(k) && spec_needs_persist(disk.info, k, pod[k].id, pod[k].version)
                    && #[trigger] pod[k] == items[i];
            assert(keys.to_set().contains(k));
            assert(info.contains_key(k) && info[k].0 == name);
        } else {
            assert(kept.contains_key(name));
            assert(names.to_set().contains(name));
            assert(!orphans.contains(name));
        }
    }
}

/// A flush of a pod without items leaves no blob.
pub proof fn lemma_flush_of_empty_pod(keys: Seq<Seq<char>>, disk: Disk, names: Seq<Seq<char>>)
    requires
        lists(Map::empty(), keys, disk, names),
    ensures
        flushed(Map::empty(), keys, disk, names).blobs == Map::<
            Seq<char>,
            Option<StorageItemView>,
        >::empty(),
{
    let pod = Map::<Seq<char>, StorageItemView>::empty();
    lemma_flush_leaves_no_orphan(pod, keys, disk, names);
    assert(flushed(pod, keys, disk, names).blobs =~= Map::<
        Seq<char>,
        Option<StorageItemView>,
    >::empty());
}

proof fn lemma_filter_none<A>(s: Seq<A>, pred: spec_fn(A) -> bool)
    requires
        forall|x: A| s.contains(x) ==> !pred(x),
    ensures
        s.filter(pred) == Seq::<A>::empty(),
{
    lemma_filter_members(s, pred);
    if s.filter(pred).len() > 0 {
        let x = s.filter(pred)[0];
        assert(s.filter(pred).contains(x));
    }
    assert(s.filter(pred) =~= Seq::<A>::empty());
}

/// A second flush of the same pod changes nothing: it writes the same
/// manifest, removes no blob and writes none.
pub proof fn lemma_flush_twice(
    pod: PodView,
    keys: Seq<Seq<char>>,
    disk: Disk,
    names: Seq<Seq<char>>,
    names_after: Seq<Seq<char>>,
)
    requires
        lists(pod, keys, disk, names),
        names_after.to_set() == flushed(pod, keys, disk, names).blobs.dom(),
    ensures
        flushed(pod, keys, flushed(pod, keys, disk, names), names_after) == flushed(
            pod,
            keys,
            disk,
            names,
        ),
        names_after.filter(is_orphan(info_of(pod))) == Seq::<Seq<char>>::empty(),
        keys.filter(is_due(Some(info_of(pod)), pod)) == Seq::<Seq<char>>::empty(),
{
    let info = info_of(pod);
    let once = flushed(pod, keys, disk, names);
    lemma_flush_leaves_no_orphan(pod, keys, disk, names);
    assert forall|name: Seq<char>| names_after.contains(name) implies !is_orphan(info)(name) by {
        assert(names_after.to_set().contains(name));
        assert(once.blobs.contains_key(name));
    }
    lemma_filter_none(names_after, is_orphan(info));
    assert forall|k: Seq<char>| keys.contains(k) implies !is_due(once.info, pod)(k) by {
        assert(keys.to_set().contains(k));
        assert(info.contains_key(k));
    }
    lemma_filter_none(keys, is_due(once.info, pod));
    let twice = flushed(pod, keys, once, names_after);
    assert(Seq::<Seq<char>>::empty().map_values(item_of(pod)) =~= Seq::<StorageItemView>::empty());
    assert(Seq::<Seq<char>>::empty().to_set() =~= Set::<Seq<char>>::empty());
    assert(twice.blobs =~= once.blobs);
}

/// After a flush every item of the pod has its blob: the directory holds,
/// under the item's identity, the item as the pod has it. This needs that
/// no two items share an identity, and that the items whose blobs the
/// flush skips were on disk as they are.
pub proof fn lemma_flush_stores_every_item(
    pod: PodView,
    keys: Seq<Seq<char>>,
    disk: Disk,
    names: Seq<Seq<char>>,
    k: Seq<char>,
)
    requires
        lists(pod, keys, disk, names),
        distinct_ids(pod),
        skipped_are_current(pod, disk),
        pod.contains_key(k),
    ensures
        flushed(pod, keys, disk, names).info == Some(info_of(pod)),
        info_of(pod).contains_key(k) && info_of(pod)[k] == (pod[k].id, pod[k].version),
        flushed(pod, keys, disk, names).blobs.contains_key(pod[k].id),
        flushed(pod, keys, disk, names).blobs[pod[k].id] == Some(pod[k]),
{
    let info = info_of(pod);
    let orphans = names.filter(is_orphan(info));
    let items = keys.filter(is_due(disk.info, pod)).map_values(item_of(pod));
    let kept = remove_all(disk.blobs, orphans);
    let name = pod[k].id;
    lemma_filter_members(names, is_orphan(info));
    lemma_due_items(pod, keys, disk.info);
    lemma_write_all(kept, items, name);
    assert(keys.to_set().contains(k));
    assert forall|i: int| 0 <= i < items.len() && #[trigger] items[i].id == name implies items[i]
        == pod[k] by {
        assert(items.contains(items[i]));
        let j = choose|j: Seq<char>|
            keys.contains(j) && spec_needs_persist(disk.info, j, pod[j].id, pod[j].version)
                && #[trigger] pod[j] == items[i];
        assert(keys.to_set().contains(j));
        assert(j == k);
    }
    if spec_needs_persist(disk.info, k, pod[k].id, pod[k].version) {
        assert(items.contains(pod[k]));
        let i = items.index_of(pod[k]);
        assert(items[i].id == name);
    } else {
        assert(info.contains_key(k) && info[k].0 == name);
        assert(names_an_item(info, name));
        assert(!orphans.contains(name));
        assert(kept.contains_key(name) && kept[name] == Some(pod[k]));
    }
}

/// A load after a flush gives the pod back: the keys, and for each key the
/// item. This needs that every item stands under its own key, that no two
/// items share an identity, and that the items whose blobs the flush skips
/// were on disk as they are.
pub proof fn lemma_load_after_flush(
    pod: PodView,
    keys: Seq<Seq<char>>,
    disk: Disk,
    names: Seq<Seq<char>>,
)
    requires
        lists(pod, keys, disk, names),
        keyed_by_item_key(pod),
        distinct_ids(pod),
        skipped_are_current(pod, disk),
    ensures
        loaded(flushed(pod, keys, disk, names)) == Some(pod),
{
    let after = flushed(pod, keys, disk, names);
    let info = info_of(pod);
    assert forall|k: Seq<char>| #[trigger] info.contains_key(k) implies holds_item_of(
        after.blobs,
        info[k].0,
        k,
    ) && after.blobs[info[k].0]->Some_0 == pod[k] by {
        lemma_flush_stores_every_item(pod, keys, disk, names, k);
    }
    assert(loaded(after)->Some_0 =~= pod);
}

/// Whether the blob of each item that a flush would skip holds an item of
/// the same key and with the same object.
pub open spec fn skipped_hold_their_objects(pod: PodView, disk: Disk) -> bool {
    forall|k: Seq<char>| #[trigger]
        pod.contains_key(k) && !spec_needs_persist(disk.info, k, pod[k].id, pod[k].version)
            ==> holds_item_of(disk.blobs, pod[k].id, k) && disk.blobs[pod[k].id]->Some_0.data
            == pod[k].data
}

/// Whether a load has given the pod back: it did not fail, it has the keys
/// of the pod, and under each key an item with the object that the pod had.
pub open spec fn restores(pod: PodView, loaded: Option<PodView>) -> bool {
    &&& loaded is Some
    &&& loaded->Some_0.dom() == pod.dom()
    &&& forall|k: Seq<char>| #[trigger]
        pod.contains_key(k) ==> loaded->Some_0[k].key == k && loaded->Some_0[k].data
            == pod[k].data
}

/// What a flush makes of the blob of an item, where no two items share an
/// identity: the blob of an item that is due holds the item; the blob of
/// an item that is skipped is as it was, there or not.
pub proof fn lemma_flush_writes_or_keeps(
    pod: PodView,
    keys: Seq<Seq<char>>,
    disk: Disk,
    names: Seq<Seq<char>>,
    k: Seq<char>,
)
    requires
        lists(pod, keys, disk, names),
        distinct_ids(pod),
        pod.contains_key(k),
    ensures
        ({
            let after = flushed(pod, keys, disk, names).blobs;
            let id = pod[k].id;
            if spec_needs_persist(disk.info, k, pod[k].id, pod[k].version) {
                after.contains_key(id) && after[id] == Some(pod[k])
            } else {
                (after.contains_key(id) <==> disk.blobs.contains_key(id)) && (after.contains_key(id)
                    ==> after[id] == disk.blobs[id])
            }
        }),
{
    let info = info_of(pod);
    let orphans = names.filter(is_orphan(info));
    let items = keys.filter(is_due(disk.info, pod)).map_values(item_of(pod));
    let kept = remove_all(disk.blobs, orphans);
    let name = pod[k].id;
    lemma_filter_members(names, is_orphan(info));
    lemma_due_items(pod, keys, disk.info);
    lemma_write_all(kept, items, name);
    assert(keys.to_set().contains(k));
    assert forall|i: int| 0 <= i < items.len() && #[trigger] items[i].id == name implies items[i]
        == pod[k] && spec_needs_persist(disk.info, k, pod[k].id, pod[k].version) by {
        assert(items.contains(items[i]));
        let j = choose|j: Seq<char>|
            keys.contains(j) && spec_needs_persist(disk.info, j, pod[j].id, pod[j].version)
                && #[trigger] pod[j] == items[i];
        assert(keys.to_set().contains(j));
        assert(j == k);
    }
    if spec_needs_persist(disk.info, k, pod[k].id, pod[k].version) {
        assert(items.contains(pod[k]));
        let i = items.index_of(pod[k]);
        assert(items[i].id == name);
    } else {
        assert(info.contains_key(k) && info[k].0 == name);
        assert(names_an_item(info, name));
        assert(!orphans.contains(name));
        if disk.blobs.contains_key(name) {
            assert(names.to_set().contains(name));
            assert(kept.contains_key(name) && kept[name] == disk.blobs[name]);
        }
    }
}

/// A load after a flush gives back the keys of the pod and under each key
/// the object that the pod had, if and only if no two items share an
/// identity and the blob of each item that the flush skips holds an item
/// of the same key and with the same object. This is said of a pod whose
/// items stand under their own keys.
///
/// So the load gives the pod back after a first flush, and after any flush
/// that follows changes whose versions were raised. It does not where an
/// item was changed and its version was not: the flush skips its blob, and
/// the load brings back the object that was there before.
pub proof fn lemma_load_after_flush_restores_objects(
    pod: PodView,
    keys: Seq<Seq<char>>,
    disk: Disk,
    names: Seq<Seq<char>>,
)
    requires
        lists(pod, keys, disk, names),
        keyed_by_item_key(pod),
    ensures
        restores(pod, loaded(flushed(pod, keys, disk, names))) <==> distinct_ids(pod)
            && skipped_hold_their_objects(pod, disk),
{
    let after = flushed(pod, keys, disk, names);
    let info = info_of(pod);
    let back = loaded(after);
    assert(after.info == Some(info));
    assert(info.dom() =~= pod.dom());
    if distinct_ids(pod) && skipped_hold_their_objects(pod, disk) {
        assert forall|k: Seq<char>| #[trigger] info.contains_key(k) implies holds_item_of(
            after.blobs,
            info[k].0,
            k,
        ) && after.blobs[info[k].0]->Some_0.data == pod[k].data by {
            lemma_flush_writes_or_keeps(pod, keys, disk, names, k);
        }
        assert(back is Some);
        assert(back->Some_0.dom() =~= pod.dom());
        assert(restores(pod, back));
    }
    if restores(pod, back) {
        assert forall|k: Seq<char>| #[trigger] info.contains_key(k) implies holds_item_of(
            after.blobs,
            info[k].0,
            k,
        ) by {}
        assert forall|j: Seq<char>, k: Seq<char>|
            pod.contains_key(j) && pod.contains_key(k) && j != k implies #[trigger] pod[j].id
            != #[trigger] pod[k].id by {
            assert(info.contains_key(j) && info.contains_key(k));
            assert(holds_item_of(after.blobs, info[j].0, j));
            assert(holds_item_of(after.blobs, info[k].0, k));
        }
        assert forall|k: Seq<char>| #[trigger]
            pod.contains_key(k) && !spec_needs_persist(disk.info, k, pod[k].id, pod[k].version)
            implies holds_item_of(disk.blobs, pod[k].id, k) && disk.blobs[pod[k].id]->Some_0.data
            == pod[k].data by {
            lemma_flush_writes_or_keeps(pod, keys, disk, names, k);
            assert(info.contains_key(k));
            assert(holds_item_of(after.blobs, info[k].0, k));
            assert(back->Some_0[k] == after.blobs[info[k].0]->Some_0);
        }
    }
}

} // verus!
