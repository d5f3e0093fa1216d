//! A load, one step at a time.
//!
//! A load empties the pod, reads the manifest and then, for each key of
//! the manifest, the blob named by the identity that the manifest gives.
//! The first blob that cannot be read, or that holds an item of another
//! key, ends the load. The loader says which step is next and takes in
//! what was read; the caller reads the files.

use crate::storage_disk::loaded;
use crate::storage_disk::Blobs;
use crate::storage_disk::Disk;
use crate::storage_disk::PodView;
use crate::storage_error::StorageError;
use crate::storage_info::StorageInfo;
use crate::storage_info::StorageInfoView;
use crate::storage_item::StorageItem;
use crate::storage_item::StorageItemView;
use crate::storage_load::accept_loaded;
use crate::storage_load::begin_load;
use crate::storage_load::fetched_from;
use crate::storage_load::fetched_view;
use crate::storage_load::lemma_loaded_from_requests;
use crate::storage_load::loaded_onto;
use crate::storage_load::request_of;
use crate::storage_load::request_seq;
use crate::storage_load::spec_accept_loaded;
use crate::storage_load::LoadRequest;
use crate::storage_load::LoadRequestView;
use crate::storage_pod::StoragePod;
use vstd::prelude::*;

verus! {

/// The steps of a load that touch the data directory.
#[derive(Debug, Clone, Copy, PartialEq, Eq, Structural)]
pub enum LoadStep {
    /// Reading the manifest.
    ReadInfo,
    /// Reading the blob of an item.
    ReadItem,
}

/// What the caller of a loader is to do next.
#[derive(Debug, Clone, Copy, PartialEq, Eq, Structural)]
pub enum LoadAction {
    /// Take the step and tell the loader what was read.
    Take(LoadStep),
    /// Nothing: the load is done.
    Finished,
    /// Nothing: the load has failed.
    Failed(StorageError),
}

/// What the caller tells a loader.
#[derive(Debug)]
pub enum LoadEvent {
    /// The load is to begin.
    Begin,
    /// The manifest was read: here it is, or `None` where there is none
    /// that can be read.
    InfoRead(Option<StorageInfo>),
    /// The blob was read: here is its item, or why there is none.
    ItemRead(Result<StorageItem, StorageError>),
}

/// What the caller tells a loader, as a value. Of the manifest, the
/// requests that it gives rise to: one for each key, in the order of its keys.
pub enum LoadEventView {
    Begin,
    InfoRead(Seq<LoadRequestView>),
    ItemRead(Result<StorageItemView, StorageError>),
}

/// The blobs that a load of the manifest reads: one for each key, in the
/// order of its keys; none where there is no manifest.
pub open spec fn requests_of(info: Option<StorageInfo>) -> Seq<LoadRequestView> {
    match info {
        Some(info) => info.key_seq().map_values(request_of(info@)),
        None => Seq::empty(),
    }
}

impl View for LoadEvent {
    type V = LoadEventView;

    open spec fn view(&self) -> LoadEventView {
        match *self {
            LoadEvent::Begin => LoadEventView::Begin,
            LoadEvent::InfoRead(info) => LoadEventView::InfoRead(requests_of(info)),
            LoadEvent::ItemRead(fetched) => LoadEventView::ItemRead(fetched_view(fetched)),
        }
    }
}

/// A load under way.
#[derive(Debug)]
pub struct Loader {
    awaiting: Option<LoadStep>,
    over: bool,
    requests: Vec<LoadRequest>,
    taken: usize,
}

/// A load under way, as a value.
pub struct LoaderView {
    /// The step that the caller is taking.
    pub awaiting: Option<LoadStep>,
    /// Whether the load is done or has failed.
    pub over: bool,
    /// The blobs to read.
    pub requests: Seq<LoadRequestView>,
    /// How many of the blobs were taken in.
    pub taken: nat,
}

impl LoaderView {
    /// A load that has not begun.
    pub open spec fn fresh() -> LoaderView {
        LoaderView { awaiting: None, over: false, requests: Seq::empty(), taken: 0 }
    }

    /// The load once it has ended.
    pub open spec fn ended(self) -> LoaderView {
        LoaderView { awaiting: None, over: true, ..self }
    }

    /// What follows once `taken` blobs are taken in: the next blob, or the end.
    pub open spec fn proceed(self) -> (LoaderView, LoadAction) {
        if self.taken < self.requests.len() {
            (
                LoaderView { awaiting: Some(LoadStep::ReadItem), ..self },
                LoadAction::Take(LoadStep::ReadItem),
            )
        } else {
            (self.ended(), LoadAction::Finished)
        }
    }

    /// What the load does to itself and to the pod when it is told of the
    /// event.
    pub open spec fn advance(self, pod: PodView, event: LoadEventView) -> (
        LoaderView,
        PodView,
        LoadAction,
    ) {
        if self.over {
            (self.ended(), pod, LoadAction::Failed(StorageError::OutOfTurn))
        } else {
            match (self.awaiting, event) {
                (None, LoadEventView::Begin) => (
                    LoaderView { awaiting: Some(LoadStep::ReadInfo), ..self },
                    Map::empty(),
                    LoadAction::Take(LoadStep::ReadInfo),
                ),
                (Some(LoadStep::ReadInfo), LoadEventView::InfoRead(requests)) => {
                    let next = LoaderView { requests, taken: 0, ..self }.proceed();
                    (next.0, Map::empty(), next.1)
                },
                (Some(LoadStep::ReadItem), LoadEventView::ItemRead(fetched)) => {
                    if self.taken < self.requests.len() {
                        let took = spec_accept_loaded(pod, self.requests[self.taken as int].0, fetched);
                        if took.1 is Ok {
                            let next = LoaderView { taken: self.taken + 1, ..self }.proceed();
                            (next.0, took.0, next.1)
                        } else {
                            (self.ended(), took.0, LoadAction::Failed(took.1->Err_0))
                        }
                    } else {
                        (self.ended(), pod, LoadAction::Failed(StorageError::OutOfTurn))
                    }
                },
                _ => (self.ended(), pod, LoadAction::Failed(StorageError::OutOfTurn)),
            }
        }
    }

    /// The pod once every blob that is left was read from `blobs` and
    /// taken in, and how the load ends.
    pub open spec fn completed(self, pod: PodView, blobs: Blobs) -> (PodView, LoadAction)
        decreases self.requests.len() - self.taken,
    {
        if !self.over && self.awaiting == Some(LoadStep::ReadItem) && self.taken
            < self.requests.len() {
            let next = self.advance(
                pod,
                LoadEventView::ItemRead(fetched_from(blobs, self.requests[self.taken as int].1)),
            );
            if next.2 is Take {
                next.0.completed(next.1, blobs)
            } else {
                (next.1, next.2)
            }
        } else {
            (pod, LoadAction::Finished)
        }
    }
}

impl View for Loader {
    type V = LoaderView;

    closed spec fn view(&self) -> LoaderView {
        LoaderView {
            awaiting: self.awaiting,
            over: self.over,
            requests: request_seq(self.requests@),
            taken: self.taken as nat,
        }
    }
}

impl Loader {
    #[verifier::type_invariant]
    spec fn inv(&self) -> bool {
        &&& self.taken <= self.requests@.len()
        &&& self.awaiting == Some(LoadStep::ReadItem) ==> self.taken < self.requests@.len()
    }

    /// A load that has not begun.
    pub fn new() -> (r: Self)
        ensures
            r@ == LoaderView::fresh(),
    {
        let r = Loader { awaiting: None, over: false, requests: Vec::new(), taken: 0 };
        assert(request_seq(r.requests@) =~= Seq::<LoadRequestView>::empty());
        r
    }

    /// The blob to read, while the loader awaits one.
    pub fn request(&self) -> (r: Option<&LoadRequest>)
        ensures
            match r {
                Some(request) => self@.awaiting == Some(LoadStep::ReadItem) && self@.taken
                    < self@.requests.len() && request@ == self@.requests[self@.taken as int],
                None => self@.awaiting != Some(LoadStep::ReadItem),
            },
    {
        proof {
            use_type_invariant(self);
        }
        match self.awaiting {
            Some(LoadStep::ReadItem) => Some(&self.requests[self.taken]),
            _ => None,
        }
    }

    fn ended(self) -> (r: Self)
        ensures
            r@ == self@.ended(),
    {
        proof {
            use_type_invariant(&self);
        }
        Loader { awaiting: None, over: true, ..self }
    }

    fn proceed(requests: Vec<LoadRequest>, taken: usize) -> (r: (Self, LoadAction))
        requires
            taken <= requests@.len(),
        ensures
            (r.0@, r.1) == (LoaderView {
                awaiting: None,
                over: false,
                requests: request_seq(requests@),
                taken: taken as nat,
            }).proceed(),
    {
        if taken < requests.len() {
            (
                Loader { awaiting: Some(LoadStep::ReadItem), over: false, requests, taken },
                LoadAction::Take(LoadStep::ReadItem),
            )
        } else {
            (Loader { awaiting: None, over: true, requests, taken }, LoadAction::Finished)
        }
    }

    fn step(self, pod: &mut StoragePod, event: LoadEvent) -> (r: (Self, LoadAction))
        ensures
            (r.0@, final(pod)@, r.1) == self@.advance(old(pod)@, event@),
    {
        proof {
            use_type_invariant(&self);
        }
        if self.over {
            return (self.ended(), LoadAction::Failed(StorageError::OutOfTurn));
        }
        match (self.awaiting, event) {
            (None, LoadEvent::Begin) => {
                pod.clear();
                (
                    Loader { awaiting: Some(LoadStep::ReadInfo), ..self },
                    LoadAction::Take(LoadStep::ReadInfo),
                )
            },
            (Some(LoadStep::ReadInfo), LoadEvent::InfoRead(info)) => {
                let requests = begin_load(pod, &info);
                Loader::proceed(requests, 0)
            },
            (Some(LoadStep::ReadItem), LoadEvent::ItemRead(fetched)) => {
                if self.taken < self.requests.len() {
                    match accept_loaded(pod, &self.requests[self.taken], fetched) {
                        Ok(()) => {
                            let taken = self.taken + 1;
                            Loader::proceed(self.requests, taken)
                        },
                        Err(e) => (self.ended(), LoadAction::Failed(e)),
                    }
                } else {
                    (self.ended(), LoadAction::Failed(StorageError::OutOfTurn))
                }
            },
            _ => (self.ended(), LoadAction::Failed(StorageError::OutOfTurn)),
        }
    }

    /// Tells the loader of an event and learns what to do next. An item
    /// that was read goes into the pod. An event that the loader has not
    /// asked for ends the load with `OutOfTurn`.
    pub fn advance(&mut self, pod: &mut StoragePod, event: LoadEvent) -> (r: LoadAction)
        ensures
            (final(self)@, final(pod)@, r) == old(self)@.advance(old(pod)@, event@),
    {
        let mut current = Loader::new();
        std::mem::swap(self, &mut current);
        let (next, action) = current.step(pod, event);
        *self = next;
        action
    }
}

proof fn lemma_completed(v: LoaderView, pod: PodView, blobs: Blobs)
    requires
        !v.over,
        v.taken <= v.requests.len(),
        v.awaiting == Some(LoadStep::ReadItem) <==> v.taken < v.requests.len(),
    ensures
        ({
            let took = loaded_onto(pod, v.requests.skip(v.taken as int), blobs);
            &&& v.completed(pod, blobs).0 == took.0
            &&& took.1 is Ok ==> v.completed(pod, blobs).1 == LoadAction::Finished
            &&& took.1 is Err ==> v.completed(pod, blobs).1 == LoadAction::Failed(took.1->Err_0)
        }),
    decreases v.requests.len() - v.taken,
{
    let rest = v.requests.skip(v.taken as int);
    if v.taken < v.requests.len() {
        let next = v.advance(
            pod,
            LoadEventView::ItemRead(fetched_from(blobs, v.requests[v.taken as int].1)),
        );
        assert(rest.first() == v.requests[v.taken as int]);
        assert(rest.drop_first() =~= v.requests.skip(v.taken as int + 1));
        if next.2 is Take {
            lemma_completed(next.0, next.1, blobs);
        } else if next.2 is Finished {
            assert(rest.drop_first() =~= Seq::<LoadRequestView>::empty());
        }
    } else {
        assert(rest =~= Seq::<LoadRequestView>::empty());
    }
}

/// A load that is taken step by step from a directory whose manifest can
/// be read gives what the model of a load gives: the pod with the item of
/// each key of the manifest, or a failure.
pub proof fn lemma_loader_loads(
    pod: PodView,
    info: StorageInfoView,
    keys: Seq<Seq<char>>,
    blobs: Blobs,
)
    requires
        keys.to_set() == info.dom(),
    ensures
        ({
            let begun = LoaderView::fresh().advance(pod, LoadEventView::Begin);
            let read = begun.0.advance(
                begun.1,
                LoadEventView::InfoRead(keys.map_values(request_of(info))),
            );
            let done = read.0.completed(read.1, blobs);
            &&& begun.2 == LoadAction::Take(LoadStep::ReadInfo)
            &&& match loaded(Disk { info: Some(info), blobs }) {
                Some(restored) => done == (restored, LoadAction::Finished),
                None => done.1 is Failed,
            }
        }),
{
    let begun = LoaderView::fresh().advance(pod, LoadEventView::Begin);
    let requests = keys.map_values(request_of(info));
    let read = begun.0.advance(begun.1, LoadEventView::InfoRead(requests));
    lemma_loaded_from_requests(info, keys, blobs);
    if requests.len() > 0 {
        lemma_completed(read.0, read.1, blobs);
        assert(requests.skip(0) =~= requests);
    }
}

/// A load from a directory without a manifest that can be read leaves the
/// pod empty and reads no blob.
pub proof fn lemma_loader_without_manifest(pod: PodView)
    ensures
        ({
            let begun = LoaderView::fresh().advance(pod, LoadEventView::Begin);
            let read = begun.0.advance(begun.1, LoadEventView::InfoRead(requests_of(None)));
            &&& read.1 == Map::<Seq<char>, StorageItemView>::empty()
            &&& read.2 == LoadAction::Finished
        }),
{
}

} // verus!
