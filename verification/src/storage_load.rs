//! What a load reads and what it makes of it.
//!
//! A load empties the pod, reads the manifest and then, for each key of
//! the manifest, the blob named by the identity that the manifest gives.
//! This module says which blobs to read and takes each item in; the caller
//! reads the files.

use crate::storage_disk::holds_item_of;
use crate::storage_disk::loaded;
use crate::storage_disk::Blobs;
use crate::storage_disk::Disk;
use crate::storage_disk::PodView;
use crate::storage_error::StorageError;
use crate::storage_info::StorageInfo;
use crate::storage_info::StorageInfoView;
use crate::storage_item::StorageItem;
use crate::storage_item::StorageItemView;
use crate::storage_pod::StoragePod;
use crate::string_map::key_views;
use vstd::prelude::*;

verus! {

/// A blob to read: the key that the manifest lists and the identity that
/// names the file.
#[derive(Debug)]
pub struct LoadRequest {
    pub key: String,
    pub id: String,
}

/// A request as a value: the key, then the identity.
pub type LoadRequestView = (Seq<char>, Seq<char>);

impl View for LoadRequest {
    type V = LoadRequestView;

    open spec fn view(&self) -> LoadRequestView {
        (self.key@, self.id@)
    }
}

/// The requests of a list as values, in order.
pub open spec fn request_seq(requests: Seq<LoadRequest>) -> Seq<LoadRequestView> {
    requests.map_values(|r: LoadRequest| r@)
}

/// The request for the blob of each key of the manifest.
pub open spec fn request_of(info: StorageInfoView) -> spec_fn(Seq<char>) -> LoadRequestView {
    |key: Seq<char>| (key, info[key].0)
}

/// What taking in one item makes of a pod: the item stands under the key
/// of the request, if it was read and carries that key; else the pod
/// stays and the load fails, with the error of the read or with
/// `KeyMismatch`.
pub open spec fn spec_accept_loaded(
    pod: PodView,
    key: Seq<char>,
    fetched: Result<StorageItemView, StorageError>,
) -> (PodView, Result<(), StorageError>) {
    match fetched {
        Err(e) => (pod, Err(e)),
        Ok(item) => if item.key == key {
            (pod.insert(key, item), Ok(()))
        } else {
            (pod, Err(StorageError::KeyMismatch))
        },
    }
}

/// What reading the blob named `id` gives: the item that the file holds;
/// an input error where there is no such file, a decoding error where the
/// file holds no item.
pub open spec fn fetched_from(blobs: Blobs, id: Seq<char>) -> Result<StorageItemView, StorageError> {
    if !blobs.contains_key(id) {
        Err(StorageError::Io)
    } else {
        match blobs[id] {
            Some(item) => Ok(item),
            None => Err(StorageError::Decode),
        }
    }
}

/// What taking in the blobs of `requests`, in order, makes of a pod: the
/// pod with the items that were taken in, and the first failure if there
/// is one. After a failure nothing more is taken in.
pub open spec fn loaded_onto(pod: PodView, requests: Seq<LoadRequestView>, blobs: Blobs) -> (
    PodView,
    Result<(), StorageError>,
)
    decreases requests.len(),
{
    if requests.len() == 0 {
        (pod, Ok(()))
    } else {
        let (key, id) = requests.first();
        let first = spec_accept_loaded(pod, key, fetched_from(blobs, id));
        if first.1 is Ok {
            loaded_onto(first.0, requests.drop_first(), blobs)
        } else {
            first
        }
    }
}

/// What taking in the blobs of `requests`, in order, makes of an empty pod.
pub open spec fn loaded_from(requests: Seq<LoadRequestView>, blobs: Blobs) -> (
    PodView,
    Result<(), StorageError>,
) {
    loaded_onto(Map::empty(), requests, blobs)
}

/// The item that was read, or the error, as a value.
pub open spec fn fetched_view(fetched: Result<StorageItem, StorageError>) -> Result<
    StorageItemView,
    StorageError,
> {
    match fetched {
        Ok(item) => Ok(item@),
        Err(e) => Err(e),
    }
}

/// Begins a load: empties the pod and returns the blobs to read, one for
/// each key of the manifest, in the order of its keys. A manifest that is
/// missing or cannot be read asks for no blob.
pub fn begin_load(pod: &mut StoragePod, info: &Option<StorageInfo>) -> (r: Vec<LoadRequest>)
    ensures
        final(pod)@ == Map::<Seq<char>, StorageItemView>::empty(),
        request_seq(r@) == (match *info {
            Some(info) => info.key_seq().map_values(request_of(info@)),
            None => Seq::empty(),
        }),
{
    pod.clear();
    let mut requests: Vec<LoadRequest> = Vec::new();
    match info {
        None => {
            assert(request_seq(requests@) =~= Seq::<LoadRequestView>::empty());
        },
        Some(info) => {
            let keys = info.keys();
            let mut i: usize = 0;
            while i < keys.len()
                invariant
                    i <= keys@.len(),
                    key_views(keys@) == info.key_seq(),
                    info.key_seq().to_set() == info@.dom(),
                    requests@.len() == i,
                    forall|j: int|
                        0 <= j < i ==> #[trigger] requests@[j]@ == request_of(info@)(
                            info.key_seq()[j],
                        ),
                decreases keys@.len() - i,
            {
                let key = &keys[i];
                proof {
                    assert(key_views(keys@)[i as int] == key@);
                    assert(info.key_seq().to_set().contains(key@));
                }
                match info.get(key.as_str()) {
                    Some((id, _)) => {
                        requests.push(LoadRequest { key: key.clone(), id: id.clone() });
                    },
                    None => {},
                }
                i = i + 1;
            }
            assert(request_seq(requests@) =~= info.key_seq().map_values(request_of(info@)));
        },
    }
    requests
}

/// Takes in what was read for a request: the item goes into the pod under
/// the key of the request, if it carries that key.
pub fn accept_loaded(
    pod: &mut StoragePod,
    request: &LoadRequest,
    fetched: Result<StorageItem, StorageError>,
) -> (r: Result<(), StorageError>)
    ensures
        (final(pod)@, r) == spec_accept_loaded(old(pod)@, request@.0, fetched_view(fetched)),
{
    match fetched {
        Err(e) => Err(e),
        Ok(item) => {
            if item.key == request.key {
                pod.insert(item);
                Ok(())
            } else {
                Err(StorageError::KeyMismatch)
            }
        },
    }
}

/// Taking in the blobs of a manifest's requests one by one gives what the
/// model of a load gives: the item of each key, or a failure.
pub proof fn lemma_loaded_from_requests(info: StorageInfoView, keys: Seq<Seq<char>>, blobs: Blobs)
    requires
        keys.to_set() == info.dom(),
    ensures
        ({
            let took = loaded_from(keys.map_values(request_of(info)), blobs);
            match loaded(Disk { info: Some(info), blobs }) {
                Some(pod) => took.0 == pod && took.1 is Ok,
                None => took.1 is Err,
            }
        }),
{
    lemma_loaded_onto(Map::empty(), info, keys, blobs);
    let disk = Disk { info: Some(info), blobs };
    let took = loaded_from(keys.map_values(request_of(info)), blobs);
    if took.1 is Ok {
        assert forall|k: Seq<char>| #[trigger] info.contains_key(k) implies holds_item_of(
            blobs,
            info[k].0,
            k,
        ) by {
            assert(keys.to_set().contains(k));
        }
        assert(Map::<Seq<char>, StorageItemView>::empty().dom().union(keys.to_set())
            =~= keys.to_set());
        assert forall|k: Seq<char>| #[trigger] info.contains_key(k) implies took.0[k]
            == blobs[info[k].0]->Some_0 by {
            assert(keys.to_set().contains(k));
            let i = keys.index_of(k);
            assert(keys[i] == k);
        }
        assert(loaded(disk) is Some);
        assert(took.0 =~= loaded(disk)->Some_0);
    } else {
        let i = choose|i: int| 0 <= i < keys.len() && !holds_item_of(blobs, info[keys[i]].0, keys[i]);
        assert(keys.to_set().contains(keys[i]));
        assert(info.contains_key(keys[i]));
        assert(loaded(disk) is None);
    }
}

proof fn lemma_loaded_onto(pod: PodView, info: StorageInfoView, keys: Seq<Seq<char>>, blobs: Blobs)
    ensures
        ({
            let took = loaded_onto(pod, keys.map_values(request_of(info)), blobs);
            if forall|i: int|
                0 <= i < keys.len() ==> holds_item_of(blobs, info[keys[i]].0, #[trigger] keys[i]) {
                &&& took.1 is Ok
                &&& took.0.dom() == pod.dom().union(keys.to_set())
                &&& forall|i: int|
                    0 <= i < keys.len() ==> took.0[#[trigger] keys[i]]
                        == blobs[info[keys[i]].0]->Some_0
                &&& forall|k: Seq<char>|
                    pod.contains_key(k) && !keys.contains(k) ==> #[trigger] took.0[k] == pod[k]
            } else {
                took.1 is Err
            }
        }),
    decreases keys.len(),
{
    let requests = keys.map_values(request_of(info));
    if keys.len() == 0 {
        assert(pod.dom().union(keys.to_set()) =~= pod.dom());
    } else {
        let key = keys[0];
        let rest = keys.drop_first();
        assert(requests.first() == (key, info[key].0));
        assert(requests.drop_first() =~= rest.map_values(request_of(info)));
        let first = spec_accept_loaded(pod, key, fetched_from(blobs, info[key].0));
        assert(first.1 is Ok <==> holds_item_of(blobs, info[key].0, key));
        if first.1 is Ok {
            lemma_loaded_onto(first.0, info, rest, blobs);
            let took = loaded_onto(pod, requests, blobs);
            assert forall|i: int| 0 <= i < rest.len() implies keys[i + 1] == #[trigger] rest[i] by {}
            if forall|i: int|
                0 <= i < keys.len() ==> holds_item_of(blobs, info[keys[i]].0, #[trigger] keys[i]) {
                assert forall|i: int| 0 <= i < rest.len() implies holds_item_of(
                    blobs,
                    info[rest[i]].0,
                    #[trigger] rest[i],
                ) by {
                    assert(holds_item_of(blobs, info[keys[i + 1]].0, keys[i + 1]));
                }
                assert(took.0.dom() =~= pod.dom().union(keys.to_set())) by {
                    assert forall|x: Seq<char>| keys.to_set().contains(x) <==> (x == key
                        || rest.to_set().contains(x)) by {
                        if keys.contains(x) {
                            let j = keys.index_of(x);
                            if j > 0 {
                                assert(rest[j - 1] == x);
                            }
                        }
                        if rest.contains(x) {
                            let j = rest.index_of(x);
                            assert(keys[j + 1] == x);
                        }
                    }
                }
                assert forall|i: int| 0 <= i < keys.len() implies took.0[#[trigger] keys[i]]
                    == blobs[info[keys[i]].0]->Some_0 by {
                    if i > 0 {
                        assert(rest[i - 1] == keys[i]);
                    } else if rest.contains(key) {
                        let j = rest.index_of(key);
                        assert(rest[j] == key);
                    }
                }
                assert forall|k: Seq<char>|
                    pod.contains_key(k) && !keys.contains(k) implies #[trigger] took.0[k]
                    == pod[k] by {
                    if rest.contains(k) {
                        let j = rest.index_of(k);
                        assert(keys[j + 1] == k);
                    }
                    assert(first.0.contains_key(k));
                }
            } else {
                let i = choose|i: int|
                    0 <= i < keys.len() && !holds_item_of(blobs, info[keys[i]].0, keys[i]);
                assert(i > 0);
                assert(rest[i - 1] == keys[i]);
            }
        } else {
            assert(!holds_item_of(blobs, info[keys[0]].0, keys[0]));
        }
    }
}

} // verus!
